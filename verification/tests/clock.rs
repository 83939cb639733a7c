use node_handlers::clock::now_ms;

#[test]
fn the_clock_reads_milliseconds_since_the_epoch() {
    let t = now_ms();
    // Later than 2020-01-01 and earlier than 2200-01-01, in milliseconds.
    assert!(t > 1_577_836_800_000);
    assert!(t < 7_258_118_400_000);
    assert!(now_ms() >= t);
}
