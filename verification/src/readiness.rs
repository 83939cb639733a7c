//! Receiver-side decisions for namespace readiness beacons: whether a beacon
//! shows a peer ahead of us, the per-namespace debounce of the governance
//! pulls it triggers, the clock-drift window, and which path a beacon takes.
//!
//! Time is in milliseconds, passed in by the caller.
use vstd::prelude::*;

use crate::bytes::bytes32_eq;
use crate::ephemeral::auth::abs_diff;
use crate::keyed::{index_of_key, keys_distinct, lemma_index_of_absent, lemma_index_of_key,
    lemma_index_of_present};

verus! {

/// Per-namespace debounce window for beacon-triggered governance syncs: one
/// beacon interval.
pub const NS_BEACON_SYNC_DEBOUNCE_MS: u64 = 5_000;

/// How far a beacon's self-reported wall clock may sit from ours, either way.
pub const MAX_BEACON_CLOCK_DRIFT_MS: u64 = 30_000;

/// The all-zero DAG head a peer that applied nothing advertises.
pub open spec fn is_zero_head(h: Seq<u8>) -> bool {
    forall|i: int| 0 <= i < h.len() ==> h[i] == 0
}

/// True when a beacon shows the peer is ahead and this node should act on
/// it: this node is an established member (`local_has_state`) or at least a
/// namespace member, the peer's head is not the empty DAG, and we do not
/// hold the peer's head op.
pub fn beacon_indicates_divergence(
    local_has_state: bool,
    is_namespace_member: bool,
    dag_head: [u8; 32],
    head_op_present_locally: bool,
) -> (res: bool)
    ensures
        res == ((local_has_state || is_namespace_member) && !is_zero_head(dag_head@)
            && !head_op_present_locally),
{
    let zero = is_zero_32(&dag_head);
    (local_has_state || is_namespace_member) && !zero && !head_op_present_locally
}

/// Whether every byte of `h` is zero.
pub fn is_zero_32(h: &[u8; 32]) -> (res: bool)
    ensures
        res == is_zero_head(h@),
{
    let mut i: usize = 0;
    while i < 32
        invariant
            i <= 32,
            h@.len() == 32,
            forall|j: int| 0 <= j < i ==> h@[j] == 0,
        decreases 32 - i,
    {
        if h[i] != 0 {
            return false;
        }
        i = i + 1;
    }
    true
}

/// This node holds namespace governance state: some DAG head is non-zero.
pub fn local_has_state(dag_heads: &Vec<[u8; 32]>) -> (res: bool)
    ensures
        res == (exists|i: int| 0 <= i < dag_heads@.len() && !is_zero_head(dag_heads@[i]@)),
{
    let mut i: usize = 0;
    while i < dag_heads.len()
        invariant
            i <= dag_heads@.len(),
            forall|j: int| 0 <= j < i ==> is_zero_head(dag_heads@[j]@),
        decreases dag_heads@.len() - i,
    {
        if !is_zero_32(&dag_heads[i]) {
            return true;
        }
        i = i + 1;
    }
    false
}

/// The beacon's clock lies within [`MAX_BEACON_CLOCK_DRIFT_MS`] of ours,
/// either side.
pub open spec fn within_drift(ts_millis: u64, now_ms: u64) -> bool {
    abs_diff(ts_millis as int, now_ms as int) <= MAX_BEACON_CLOCK_DRIFT_MS
}

/// Whether a beacon's self-reported wall clock is close enough to ours for it
/// to be a live signal rather than a replayed one (symmetric window).
pub fn beacon_ts_within_drift(ts_millis: u64, now_ms: u64) -> (res: bool)
    ensures
        res == within_drift(ts_millis, now_ms),
{
    let diff = if ts_millis >= now_ms {
        ts_millis - now_ms
    } else {
        now_ms - ts_millis
    };
    diff <= MAX_BEACON_CLOCK_DRIFT_MS
}

/// The drift window is symmetric: a beacon as far ahead of our clock as
/// another is behind it gets the same answer, and both edges are inside.
pub proof fn lemma_drift_window_symmetric(ts_millis: u64, now_ms: u64)
    ensures
        within_drift(ts_millis, now_ms) == within_drift(now_ms, ts_millis),
        within_drift(ts_millis, now_ms) <==> (now_ms - MAX_BEACON_CLOCK_DRIFT_MS <= ts_millis
            <= now_ms + MAX_BEACON_CLOCK_DRIFT_MS),
{
}

/// Per-namespace record of when a beacon-triggered sync last fired.
pub struct DebounceTable {
    rows: Vec<([u8; 32], u64)>,
}

spec fn debounce_keys(rows: Seq<([u8; 32], u64)>) -> Seq<Seq<u8>> {
    rows.map_values(|r: ([u8; 32], u64)| r.0@)
}

/// `a - b`, saturating at zero.
pub open spec fn elapsed(now_ms: u64, last_ms: u64) -> u64 {
    if now_ms >= last_ms {
        (now_ms - last_ms) as u64
    } else {
        0
    }
}

/// A sync may fire for a namespace whose last firing (if any) is at least a
/// window ago.
pub open spec fn debounce_open(last: Option<u64>, now_ms: u64) -> bool {
    match last {
        Some(t) => elapsed(now_ms, t) >= NS_BEACON_SYNC_DEBOUNCE_MS,
        None => true,
    }
}

impl DebounceTable {
    /// When a sync last fired for `ns`.
    pub closed spec fn last_fired(&self, ns: Seq<u8>) -> Option<u64> {
        let i = index_of_key(debounce_keys(self.rows@), ns);
        if i >= 0 {
            Some(self.rows@[i].1)
        } else {
            None
        }
    }

    /// One record per namespace.
    pub closed spec fn wf(&self) -> bool {
        keys_distinct(debounce_keys(self.rows@))
    }

    /// No sync has fired.
    pub fn new() -> (t: Self)
        ensures
            t.wf(),
            forall|ns: Seq<u8>| t.last_fired(ns) is None,
    {
        let t = DebounceTable { rows: Vec::new() };
        assert forall|ns: Seq<u8>| t.last_fired(ns) is None by {
            lemma_index_of_absent(debounce_keys(t.rows@), ns);
        }
        t
    }

    fn find(&self, ns: &[u8; 32]) -> (res: Option<usize>)
        requires
            self.wf(),
        ensures
            match res {
                Some(i) => i < self.rows@.len() && index_of_key(debounce_keys(self.rows@), ns@)
                    == i,
                None => index_of_key(debounce_keys(self.rows@), ns@) == -1,
            },
    {
        let mut i: usize = 0;
        while i < self.rows.len()
            invariant
                self.wf(),
                i <= self.rows@.len(),
                forall|j: int| 0 <= j < i ==> debounce_keys(self.rows@)[j] != ns@,
            decreases self.rows@.len() - i,
        {
            if bytes32_eq(&self.rows[i].0, ns) {
                proof {
                    lemma_index_of_key(debounce_keys(self.rows@), ns@, i as int);
                }
                return Some(i);
            }
            i = i + 1;
        }
        proof {
            lemma_index_of_absent(debounce_keys(self.rows@), ns@);
        }
        None
    }

    /// Record `now_ms` as the last firing for `ns`.
    fn set(&mut self, ns: [u8; 32], now_ms: u64)
        requires
            old(self).wf(),
        ensures
            final(self).wf(),
            final(self).last_fired(ns@) == Some(now_ms),
            forall|k: Seq<u8>| k != ns@ ==> final(self).last_fired(k) == old(self).last_fired(k),
    {
        let ghost old_rows = self.rows@;
        match self.find(&ns) {
            Some(i) => {
                self.rows.set(i, (ns, now_ms));
                proof {
                    let nk = debounce_keys(self.rows@);
                    let ok = debounce_keys(old_rows);
                    lemma_index_of_present(ok, ns@);
                    assert(nk =~= ok);
                    lemma_index_of_key(nk, ns@, i as int);
                }
            },
            None => {
                self.rows.push((ns, now_ms));
                proof {
                    let nk = debounce_keys(self.rows@);
                    let ok = debounce_keys(old_rows);
                    assert(nk =~= ok.push(ns@));
                    assert forall|x: int| 0 <= x < ok.len() implies ok[x] != ns@ by {
                        if ok[x] == ns@ {
                            assert(exists|y: int| 0 <= y < ok.len() && ok[y] == ns@);
                        }
                    }
                    lemma_index_of_key(nk, ns@, ok.len() as int);
                    assert forall|k: Seq<u8>| k != ns@ implies index_of_key(nk, k) == index_of_key(
                        ok,
                        k,
                    ) by {
                        let oi = index_of_key(ok, k);
                        if oi >= 0 {
                            lemma_index_of_present(ok, k);
                            lemma_index_of_key(nk, k, oi);
                        } else {
                            assert forall|x: int| 0 <= x < nk.len() implies nk[x] != k by {
                                if x < ok.len() && nk[x] == k {
                                    assert(exists|y: int| 0 <= y < ok.len() && ok[y] == k);
                                }
                            }
                            lemma_index_of_absent(nk, k);
                        }
                    }
                }
            },
        }
    }

    /// Forget the last firing for `ns` (a provable-admission pull that
    /// delivered nothing gives its slot back).
    pub fn release(&mut self, ns: [u8; 32])
        requires
            old(self).wf(),
        ensures
            final(self).wf(),
            final(self).last_fired(ns@) is None,
            forall|k: Seq<u8>| k != ns@ ==> final(self).last_fired(k) == old(self).last_fired(k),
    {
        let ghost old_rows = self.rows@;
        match self.find(&ns) {
            None => {},
            Some(i) => {
                self.rows.remove(i);
                proof {
                    let nk = debounce_keys(self.rows@);
                    let ok = debounce_keys(old_rows);
                    lemma_index_of_present(ok, ns@);
                    assert(nk =~= ok.remove(i as int));
                    assert forall|x: int| 0 <= x < nk.len() implies nk[x] != ns@ by {
                        if x < i {
                            assert(nk[x] == ok[x]);
                        } else {
                            assert(nk[x] == ok[x + 1]);
                        }
                    }
                    lemma_index_of_absent(nk, ns@);
                    assert forall|k: Seq<u8>| k != ns@ implies (index_of_key(nk, k) >= 0) == (
                    index_of_key(ok, k) >= 0) && (index_of_key(nk, k) >= 0 ==> self.rows@[index_of_key(
                        nk,
                        k,
                    )].1 == old_rows[index_of_key(ok, k)].1) by {
                        let oi = index_of_key(ok, k);
                        if oi >= 0 {
                            lemma_index_of_present(ok, k);
                            if oi < i {
                                assert(nk[oi] == k);
                                lemma_index_of_key(nk, k, oi);
                            } else {
                                assert(oi != i);
                                assert(nk[oi - 1] == k);
                                lemma_index_of_key(nk, k, oi - 1);
                            }
                        } else {
                            assert forall|x: int| 0 <= x < nk.len() implies nk[x] != k by {
                                let y = if x < i {
                                    x
                                } else {
                                    x + 1
                                };
                                assert(nk[x] == ok[y]);
                                if ok[y] == k {
                                    assert(exists|z: int| 0 <= z < ok.len() && ok[z] == k);
                                }
                            }
                            lemma_index_of_absent(nk, k);
                        }
                    }
                }
            },
        }
    }
}

/// Per-namespace debounce gate: `true` (and `now_ms` recorded) when no sync
/// fired for `namespace_id` within [`NS_BEACON_SYNC_DEBOUNCE_MS`]; `false`
/// (and nothing changed) otherwise. An earlier `now_ms` counts as no time
/// elapsed.
pub fn debounce_allows_sync(debounce: &mut DebounceTable, namespace_id: [u8; 32], now_ms: u64) -> (res:
    bool)
    requires
        old(debounce).wf(),
    ensures
        final(debounce).wf(),
        res == debounce_open(old(debounce).last_fired(namespace_id@), now_ms),
        res ==> final(debounce).last_fired(namespace_id@) == Some(now_ms),
        !res ==> *final(debounce) == *old(debounce),
        forall|k: Seq<u8>|
            k != namespace_id@ ==> final(debounce).last_fired(k) == old(debounce).last_fired(k),
{
    let last = match debounce.find(&namespace_id) {
        Some(i) => Some(debounce.rows[i].1),
        None => None,
    };
    let blocked = match last {
        Some(t) => {
            let since = if now_ms >= t {
                now_ms - t
            } else {
                0
            };
            since < NS_BEACON_SYNC_DEBOUNCE_MS
        },
        None => false,
    };
    if blocked {
        false
    } else {
        debounce.set(namespace_id, now_ms);
        true
    }
}

/// Debounce timing: a namespace whose last sync is stamped `fired_ms` is
/// refused until [`NS_BEACON_SYNC_DEBOUNCE_MS`] have elapsed since then, and
/// admitted afterwards; `now_ms` below `fired_ms` counts as zero elapsed.
pub proof fn lemma_debounce_window(fired_ms: u64, now_ms: u64)
    ensures
        now_ms < fired_ms + NS_BEACON_SYNC_DEBOUNCE_MS ==> !debounce_open(Some(fired_ms), now_ms),
        now_ms >= fired_ms + NS_BEACON_SYNC_DEBOUNCE_MS ==> debounce_open(Some(fired_ms), now_ms),
{
}

/// Two calls in a row: once a sync fired for `ns` at `t0` (leaving `d1`,
/// which records `t0` for `ns` and keeps every other record of `d0`), a call
/// for `ns` at `t1` is refused while `t1` is inside the window and admitted
/// from its end on, and a call for any other namespace is decided exactly as
/// it would have been before the firing.
pub proof fn lemma_debounce_sequence(
    d0: DebounceTable,
    d1: DebounceTable,
    ns: [u8; 32],
    other: [u8; 32],
    t0: u64,
    t1: u64,
)
    requires
        d1.last_fired(ns@) == Some(t0),
        forall|k: Seq<u8>| k != ns@ ==> d1.last_fired(k) == d0.last_fired(k),
    ensures
        t1 < t0 + NS_BEACON_SYNC_DEBOUNCE_MS ==> !debounce_open(d1.last_fired(ns@), t1),
        t1 >= t0 + NS_BEACON_SYNC_DEBOUNCE_MS ==> debounce_open(d1.last_fired(ns@), t1),
        other@ != ns@ ==> debounce_open(d1.last_fired(other@), t1) == debounce_open(
            d0.last_fired(other@),
            t1,
        ),
{
    lemma_debounce_window(t0, t1);
}

/// Which of the two beacon paths asked for a governance pull.
#[derive(Debug, PartialEq, Eq, Clone, Copy)]
pub enum BeaconTrigger {
    /// The beacon did not verify, but its admission proof did: pull from its
    /// signer only.
    ProvableAdmission,
    /// The beacon verified: prefer a subscriber, fall back to the signer.
    EstablishedMember,
}

/// What to do with a received readiness beacon.
#[derive(Debug, PartialEq, Eq, Clone, Copy)]
pub enum BeaconRoute {
    /// Verified: cache it, wake waiters, check for divergence on the
    /// established-member path, and tell the readiness manager.
    Accept,
    /// Unverified but its admission is provable: check for divergence on the
    /// provable-admission path, targeting the signer.
    ProvableAdmission,
    /// Unverified, but this node is a stranded member: pull governance and
    /// keys from the signer (the stranded debounce slot was taken).
    StrandedPull,
    /// Dropped.
    Drop,
}

/// The path a beacon takes, given whether it verified, its clock, whether its
/// admission is provable, and whether this node is a stranded member (member
/// but keyless) of its namespace. A stranded pull takes the stranded debounce
/// slot; nothing else touches it.
pub fn route_readiness_beacon(
    verified: bool,
    ts_millis: u64,
    now_ms: u64,
    admission_provable: bool,
    stranded: bool,
    stranded_debounce: &mut DebounceTable,
    namespace_id: [u8; 32],
) -> (res: BeaconRoute)
    requires
        old(stranded_debounce).wf(),
    ensures
        final(stranded_debounce).wf(),
        verified ==> res == BeaconRoute::Accept,
        !verified && within_drift(ts_millis, now_ms) && admission_provable ==> res
            == BeaconRoute::ProvableAdmission,
        !verified && !(within_drift(ts_millis, now_ms) && admission_provable) ==> {
            let open = stranded && within_drift(ts_millis, now_ms) && debounce_open(
                old(stranded_debounce).last_fired(namespace_id@),
                now_ms,
            );
            &&& open ==> res == BeaconRoute::StrandedPull && final(stranded_debounce).last_fired(
                namespace_id@,
            ) == Some(now_ms)
            &&& !open ==> res == BeaconRoute::Drop
        },
        res != BeaconRoute::StrandedPull ==> *final(stranded_debounce) == *old(stranded_debounce),
        forall|k: Seq<u8>|
            k != namespace_id@ ==> final(stranded_debounce).last_fired(k) == old(
                stranded_debounce,
            ).last_fired(k),
{
    if verified {
        return BeaconRoute::Accept;
    }
    let drift_ok = beacon_ts_within_drift(ts_millis, now_ms);
    if drift_ok && admission_provable {
        return BeaconRoute::ProvableAdmission;
    }
    if stranded && drift_ok {
        if debounce_allows_sync(stranded_debounce, namespace_id, now_ms) {
            return BeaconRoute::StrandedPull;
        }
    }
    BeaconRoute::Drop
}

/// After reading local state for a beacon's namespace: fire a governance pull
/// on `trigger`'s path exactly when the beacon indicates divergence and that
/// path's debounce slot is free (the slot is then taken).
pub fn claim_divergence_sync(
    local_has_state: bool,
    is_namespace_member: bool,
    dag_head: [u8; 32],
    head_op_present: bool,
    debounce: &mut DebounceTable,
    namespace_id: [u8; 32],
    now_ms: u64,
) -> (fire: bool)
    requires
        old(debounce).wf(),
    ensures
        final(debounce).wf(),
        fire == ((local_has_state || is_namespace_member) && !is_zero_head(dag_head@)
            && !head_op_present && debounce_open(old(debounce).last_fired(namespace_id@), now_ms)),
        fire ==> final(debounce).last_fired(namespace_id@) == Some(now_ms),
        !fire ==> *final(debounce) == *old(debounce),
        forall|k: Seq<u8>|
            k != namespace_id@ ==> final(debounce).last_fired(k) == old(debounce).last_fired(k),
{
    if !beacon_indicates_divergence(local_has_state, is_namespace_member, dag_head, head_op_present) {
        return false;
    }
    debounce_allows_sync(debounce, namespace_id, now_ms)
}

} // verus!
