use node_handlers::tee::{cause_age_ms, firing_settled, honour_fired_markers, is_tee_handler, plan_tee_firing, tee_plan, tee_rank, TeePlan, TEE_FAILOVER_GRACE_MS};

const GRACE: u64 = 10_000;

#[test]
fn the_first_ranked_fires_a_fresh_trigger_at_once() {
    assert_eq!(plan_tee_firing(0, Some(0), GRACE), TeePlan::Now);
    assert_eq!(plan_tee_firing(0, Some(GRACE), GRACE), TeePlan::Now);
}

#[test]
fn each_later_rank_waits_one_more_turn() {
    let fresh = Some(1_000);
    assert_eq!(plan_tee_firing(1, fresh, GRACE), TeePlan::After(GRACE));
    assert_eq!(plan_tee_firing(3, fresh, GRACE), TeePlan::After(GRACE * 3));
}

#[test]
fn a_stale_or_undated_trigger_waits_a_turn_even_for_the_first_ranked() {
    let stale = Some(GRACE + 1_000);
    assert_eq!(plan_tee_firing(0, stale, GRACE), TeePlan::After(GRACE));
    assert_eq!(plan_tee_firing(2, stale, GRACE), TeePlan::After(GRACE * 3));
    assert_eq!(plan_tee_firing(0, None, GRACE), TeePlan::After(GRACE));
}

#[test]
fn huge_waits_saturate() {
    assert_eq!(plan_tee_firing(usize::MAX, None, GRACE), TeePlan::After(u64::MAX));
    assert_eq!(plan_tee_firing(4, Some(0), u64::MAX / 2), TeePlan::After(u64::MAX));
}

#[test]
fn the_full_plan() {
    assert_eq!(tee_plan(None, false, Some(0)), TeePlan::NotOurs);
    assert_eq!(tee_plan(Some(0), true, Some(0)), TeePlan::AlreadyFired);
    assert_eq!(tee_plan(Some(1), false, Some(0)), TeePlan::After(TEE_FAILOVER_GRACE_MS));
}

#[test]
fn cause_age_in_milliseconds() {
    assert_eq!(cause_age_ms(10_500, Some(10)), Some(500));
    assert_eq!(cause_age_ms(9_000, Some(10)), Some(0));
    assert_eq!(cause_age_ms(9_000, None), None);
}

#[test]
fn rank_is_the_place_in_key_order() {
    let keys = vec![[5u8; 32], [1u8; 32], [3u8; 32]];
    let accounts = vec![[0xA; 32], [0xB; 32], [0xC; 32]];
    assert_eq!(tee_rank(&keys, &accounts, [0xB; 32]), Some(0));
    assert_eq!(tee_rank(&keys, &accounts, [0xC; 32]), Some(1));
    assert_eq!(tee_rank(&keys, &accounts, [0xA; 32]), Some(2));
    assert_eq!(tee_rank(&keys, &accounts, [0xD; 32]), None);
}

#[test]
fn equal_keys_keep_list_order() {
    let keys = vec![[2u8; 32], [2u8; 32], [1u8; 32]];
    let accounts = vec![[0xA; 32], [0xB; 32], [0xC; 32]];
    assert_eq!(tee_rank(&keys, &accounts, [0xC; 32]), Some(0));
    assert_eq!(tee_rank(&keys, &accounts, [0xA; 32]), Some(1));
    assert_eq!(tee_rank(&keys, &accounts, [0xB; 32]), Some(2));
}

#[test]
fn tee_handlers_and_settled_firings() {
    assert!(is_tee_handler("tee:attest"));
    assert!(is_tee_handler("tee:"));
    assert!(!is_tee_handler("te"));
    assert!(!is_tee_handler("on_change"));
    assert!(!is_tee_handler("TEE:attest"));
    assert!(firing_settled(TeePlan::NotOurs, false));
    assert!(firing_settled(TeePlan::AlreadyFired, false));
    assert!(firing_settled(TeePlan::Now, true));
    assert!(!firing_settled(TeePlan::Now, false));
    assert!(!firing_settled(TeePlan::After(5), true));
}

#[test]
fn fired_markers_count_only_from_an_attested_authority() {
    assert!(honour_fired_markers(true, Ok(Some(Ok(true)))));
    assert!(!honour_fired_markers(false, Ok(Some(Ok(true)))));
    assert!(!honour_fired_markers(true, Ok(Some(Ok(false)))));
    assert!(!honour_fired_markers(true, Ok(Some(Err(())))));
    assert!(!honour_fired_markers(true, Ok(None)));
    assert!(!honour_fired_markers(true, Err(())));
}
