use node_handlers::delta_auth::{GroupIdCheck, MembershipStatus};
use node_handlers::parent_fetch::{topological_add_order, FetchAction, FetchEvent, FetchedParent, ParentFetch};

fn id(b: u8) -> [u8; 32] {
    [b; 32]
}

fn found(delta: u8, parents: &[u8]) -> FetchEvent<u8> {
    let parents: Vec<[u8; 32]> = parents.iter().map(|p| id(*p)).collect();
    FetchEvent::Found(FetchedParent {
        delta_id: id(delta),
        genesis_sentinel: false,
        position_decoded: true,
        signature_ok: Some(true),
        group_check: GroupIdCheck::Match,
        read_only: Ok(false),
        membership: Some(Ok(MembershipStatus::Member(1))),
        held: vec![false; parents.len()],
        parents,
    })
}

fn request(a: FetchAction) -> [u8; 32] {
    match a {
        FetchAction::Request(i) => i,
        other => panic!("expected a request, got {other:?}"),
    }
}

#[test]
fn fetched_parents_are_added_parents_first() {
    // Missing A and B; A's parent is D; B's parent is E; E's parent is D.
    let (a, b, d, e) = (1u8, 2u8, 4u8, 5u8);
    let mut f = ParentFetch::new(vec![id(a), id(b)]);
    assert_eq!(request(f.step(FetchEvent::<u8>::Begin)), id(a));
    assert_eq!(request(f.step(found(a, &[d]))), id(b));
    assert_eq!(request(f.step(found(b, &[e]))), id(d));
    assert_eq!(request(f.step(found(d, &[]))), id(e));
    // Fetch order A, B, D, E (indices 0..4); D first, then A, E, B.
    let mut adds = Vec::new();
    let mut action = f.step(found(e, &[d]));
    loop {
        match action {
            FetchAction::Add(i) => {
                adds.push(i);
                action = f.step(FetchEvent::<u8>::Added(vec![(id(10 + i as u8), vec![i as u8])]));
            }
            FetchAction::Finish(events) => {
                assert_eq!(adds, vec![2, 0, 3, 1]);
                assert_eq!(events, vec![(id(12), vec![2]), (id(10), vec![0]), (id(13), vec![3]), (id(11), vec![1])]);
                break;
            }
            other => panic!("unexpected {other:?}"),
        }
    }
}

#[test]
fn refused_and_missing_parents_are_skipped_and_a_stream_error_stops() {
    let mut f = ParentFetch::new(vec![id(1), id(2)]);
    assert_eq!(request(f.step(FetchEvent::<u8>::Begin)), id(1));
    // The peer answers with another delta than the one asked for.
    assert_eq!(request(f.step(found(9, &[3]))), id(2));
    assert!(matches!(f.step(FetchEvent::<u8>::NotFound), FetchAction::Finish(ev) if ev.is_empty()));
    assert_eq!(f.fetched_count(), 0);
    let mut g = ParentFetch::new(vec![id(1)]);
    g.step(FetchEvent::<u8>::Begin);
    assert!(matches!(g.step(FetchEvent::<u8>::StreamFailed), FetchAction::Failed));
}

#[test]
fn a_failed_addition_is_skipped() {
    let mut f = ParentFetch::new(vec![id(1)]);
    f.step(FetchEvent::<u8>::Begin);
    assert!(matches!(f.step(found(1, &[])), FetchAction::Add(0)));
    assert!(matches!(f.step(FetchEvent::<u8>::AddFailed), FetchAction::Finish(ev) if ev.is_empty()));
}

#[test]
fn the_add_order_puts_parents_first_and_circular_links_last() {
    let ids = vec![id(1), id(2), id(3)];
    let parents = vec![vec![id(2)], vec![id(3)], vec![]];
    assert_eq!(topological_add_order(&ids, &parents), vec![2, 1, 0]);
    // 1 and 2 name each other; 3 is free.
    let parents = vec![vec![id(2)], vec![id(1)], vec![]];
    let order = topological_add_order(&ids, &parents);
    assert_eq!(order[0], 2);
    let mut sorted = order.clone();
    sorted.sort();
    assert_eq!(sorted, vec![0, 1, 2]);
}
