//! Hash heartbeats: comparing a peer's advertised DAG heads and root hash
//! with ours, and the per-(context, peer) streak that tells a transient
//! root-hash divergence (a sync apply in flight) from a persistent one.
use vstd::prelude::*;

use crate::bytes::{bytes32_eq, bytes_eq, contains32, views32};
use crate::keyed::{index_of_key, keys_distinct, lemma_index_of_absent, lemma_index_of_key,
    lemma_index_of_present};

verus! {

/// Consecutive divergent heartbeats (same heads, same pair of hashes) before
/// a divergence counts as persistent.
pub const DIVERGENCE_PERSIST_THRESHOLD: u32 = 2;

/// The last divergence seen from one peer for one context.
#[derive(Debug, PartialEq, Eq, Clone, Copy)]
pub struct DivergenceMark {
    pub our_hash: [u8; 32],
    pub their_hash: [u8; 32],
    pub count: u32,
}

struct StreakRow {
    ctx: [u8; 32],
    peer: Vec<u8>,
    mark: DivergenceMark,
}

/// Divergence streaks keyed by `(context, peer)`.
pub struct DivergenceStreaks {
    rows: Vec<StreakRow>,
}

spec fn streak_keys(rows: Seq<StreakRow>) -> Seq<(Seq<u8>, Seq<u8>)> {
    rows.map_values(|r: StreakRow| (r.ctx@, r.peer@))
}

impl DivergenceStreaks {
    /// The mark held for `(ctx, peer)`.
    pub closed spec fn mark_of(&self, ctx: Seq<u8>, peer: Seq<u8>) -> Option<DivergenceMark> {
        let i = index_of_key(streak_keys(self.rows@), (ctx, peer));
        if i >= 0 {
            Some(self.rows@[i].mark)
        } else {
            None
        }
    }

    /// One mark per key.
    pub closed spec fn wf(&self) -> bool {
        keys_distinct(streak_keys(self.rows@))
    }

    /// No streaks.
    pub fn new() -> (s: Self)
        ensures
            s.wf(),
            forall|c: Seq<u8>, p: Seq<u8>| s.mark_of(c, p) is None,
    {
        let s = DivergenceStreaks { rows: Vec::new() };
        assert forall|c: Seq<u8>, p: Seq<u8>| s.mark_of(c, p) is None by {
            lemma_index_of_absent(streak_keys(s.rows@), (c, p));
        }
        s
    }

    fn find(&self, ctx: &[u8; 32], peer: &Vec<u8>) -> (res: Option<usize>)
        requires
            self.wf(),
        ensures
            match res {
                Some(i) => i < self.rows@.len() && index_of_key(
                    streak_keys(self.rows@),
                    (ctx@, peer@),
                ) == i,
                None => index_of_key(streak_keys(self.rows@), (ctx@, peer@)) == -1,
            },
    {
        let mut i: usize = 0;
        while i < self.rows.len()
            invariant
                self.wf(),
                i <= self.rows@.len(),
                forall|j: int| 0 <= j < i ==> streak_keys(self.rows@)[j] != (ctx@, peer@),
            decreases self.rows@.len() - i,
        {
            if bytes32_eq(&self.rows[i].ctx, ctx) && bytes_eq(
                self.rows[i].peer.as_slice(),
                peer.as_slice(),
            ) {
                proof {
                    lemma_index_of_key(streak_keys(self.rows@), (ctx@, peer@), i as int);
                }
                return Some(i);
            }
            i = i + 1;
        }
        proof {
            lemma_index_of_absent(streak_keys(self.rows@), (ctx@, peer@));
        }
        None
    }

    /// The mark for `(ctx, peer)`.
    pub fn get(&self, ctx: &[u8; 32], peer: &Vec<u8>) -> (res: Option<DivergenceMark>)
        requires
            self.wf(),
        ensures
            res == self.mark_of(ctx@, peer@),
    {
        match self.find(ctx, peer) {
            Some(i) => Some(self.rows[i].mark),
            None => None,
        }
    }

    /// Record `mark` for `(ctx, peer)`.
    pub fn insert(&mut self, ctx: [u8; 32], peer: &Vec<u8>, mark: DivergenceMark)
        requires
            old(self).wf(),
        ensures
            final(self).wf(),
            final(self).mark_of(ctx@, peer@) == Some(mark),
            forall|c: Seq<u8>, p: Seq<u8>|
                (c, p) != (ctx@, peer@) ==> final(self).mark_of(c, p) == old(self).mark_of(c, p),
    {
        let ghost old_rows = self.rows@;
        match self.find(&ctx, peer) {
            Some(i) => {
                let row = self.rows.remove(i);
                self.rows.insert(i, StreakRow { ctx: row.ctx, peer: row.peer, mark });
                proof {
                    let nk = streak_keys(self.rows@);
                    let ok = streak_keys(old_rows);
                    lemma_index_of_present(ok, (ctx@, peer@));
                    assert(nk =~= ok);
                    lemma_index_of_key(nk, (ctx@, peer@), i as int);
                    assert forall|c: Seq<u8>, p: Seq<u8>| (c, p) != (ctx@, peer@) implies (index_of_key(
                        nk,
                        (c, p),
                    ) >= 0 ==> self.rows@[index_of_key(nk, (c, p))] == old_rows[index_of_key(
                        ok,
                        (c, p),
                    )]) by {
                        if index_of_key(nk, (c, p)) >= 0 {
                            lemma_index_of_present(nk, (c, p));
                        }
                    }
                }
            },
            None => {
                self.rows.push(StreakRow { ctx, peer: crate::bytes::copy_bytes(peer), mark });
                proof {
                    let nk = streak_keys(self.rows@);
                    let ok = streak_keys(old_rows);
                    assert(nk =~= ok.push((ctx@, peer@)));
                    assert forall|x: int| 0 <= x < ok.len() implies ok[x] != (ctx@, peer@) by {
                        if ok[x] == (ctx@, peer@) {
                            assert(exists|y: int| 0 <= y < ok.len() && ok[y] == (ctx@, peer@));
                        }
                    }
                    lemma_index_of_key(nk, (ctx@, peer@), ok.len() as int);
                    assert forall|c: Seq<u8>, p: Seq<u8>| (c, p) != (ctx@, peer@) implies index_of_key(
                        nk,
                        (c, p),
                    ) == index_of_key(ok, (c, p)) by {
                        let oi = index_of_key(ok, (c, p));
                        if oi >= 0 {
                            lemma_index_of_present(ok, (c, p));
                            lemma_index_of_key(nk, (c, p), oi);
                        } else {
                            assert forall|x: int| 0 <= x < nk.len() implies nk[x] != (c, p) by {
                                if x < ok.len() && nk[x] == (c, p) {
                                    assert(exists|y: int| 0 <= y < ok.len() && ok[y] == (c, p));
                                }
                            }
                            lemma_index_of_absent(nk, (c, p));
                        }
                    }
                }
            },
        }
    }

    /// Forget the streak for `(ctx, peer)`.
    pub fn remove(&mut self, ctx: &[u8; 32], peer: &Vec<u8>)
        requires
            old(self).wf(),
        ensures
            final(self).wf(),
            final(self).mark_of(ctx@, peer@) is None,
            forall|c: Seq<u8>, p: Seq<u8>|
                (c, p) != (ctx@, peer@) ==> final(self).mark_of(c, p) == old(self).mark_of(c, p),
    {
        let ghost old_rows = self.rows@;
        match self.find(ctx, peer) {
            None => {},
            Some(i) => {
                self.rows.remove(i);
                proof {
                    let nk = streak_keys(self.rows@);
                    let ok = streak_keys(old_rows);
                    lemma_index_of_present(ok, (ctx@, peer@));
                    assert(nk =~= ok.remove(i as int));
                    assert forall|x: int| 0 <= x < nk.len() implies nk[x] != (ctx@, peer@) by {
                        if x < i {
                            assert(nk[x] == ok[x]);
                        } else {
                            assert(nk[x] == ok[x + 1]);
                        }
                    }
                    lemma_index_of_absent(nk, (ctx@, peer@));
                    assert forall|c: Seq<u8>, p: Seq<u8>| (c, p) != (ctx@, peer@) implies (
                    index_of_key(nk, (c, p)) >= 0) == (index_of_key(ok, (c, p)) >= 0) && (
                    index_of_key(nk, (c, p)) >= 0 ==> self.rows@[index_of_key(nk, (c, p))].mark
                        == old_rows[index_of_key(ok, (c, p))].mark) by {
                        let oi = index_of_key(ok, (c, p));
                        if oi >= 0 {
                            lemma_index_of_present(ok, (c, p));
                            if oi < i {
                                assert(nk[oi] == (c, p));
                                lemma_index_of_key(nk, (c, p), oi);
                            } else {
                                assert(oi != i);
                                assert(nk[oi - 1] == (c, p));
                                lemma_index_of_key(nk, (c, p), oi - 1);
                            }
                        } else {
                            assert forall|x: int| 0 <= x < nk.len() implies nk[x] != (c, p) by {
                                let y = if x < i {
                                    x
                                } else {
                                    x + 1
                                };
                                assert(nk[x] == ok[y]);
                                if ok[y] == (c, p) {
                                    assert(exists|z: int| 0 <= z < ok.len() && ok[z] == (c, p));
                                }
                            }
                            lemma_index_of_absent(nk, (c, p));
                        }
                    }
                }
            },
        }
    }
}

/// The two head lists name the same set of heads.
pub open spec fn same_heads(ours: Seq<[u8; 32]>, theirs: Seq<[u8; 32]>) -> bool {
    forall|h: Seq<u8>| views32(ours).contains(h) <==> views32(theirs).contains(h)
}

/// The peer advertises a head we do not hold.
pub open spec fn peer_has_unknown_head(ours: Seq<[u8; 32]>, theirs: Seq<[u8; 32]>) -> bool {
    exists|i: int| 0 <= i < theirs.len() && !views32(ours).contains(theirs[i]@)
}

/// The streak count after a divergent heartbeat with this pair of hashes:
/// one more than the previous mark's when it recorded the same pair
/// (saturating), else one.
pub open spec fn streak_count(prev: Option<DivergenceMark>, our_hash: [u8; 32], their_hash: [u8; 32]) -> u32 {
    match prev {
        Some(m) => if m.our_hash@ == our_hash@ && m.their_hash@ == their_hash@ {
            if m.count == u32::MAX {
                m.count
            } else {
                (m.count + 1) as u32
            }
        } else {
            1u32
        },
        None => 1u32,
    }
}

/// The mark after `n` identical divergent heartbeats from no streak.
pub open spec fn streak_after(n: nat, our_hash: [u8; 32], their_hash: [u8; 32]) -> Option<
    DivergenceMark,
>
    decreases n,
{
    if n == 0 {
        None
    } else {
        Some(
            DivergenceMark {
                our_hash,
                their_hash,
                count: streak_count(streak_after((n - 1) as nat, our_hash, their_hash), our_hash, their_hash),
            },
        )
    }
}

/// Identical divergent heartbeats count up one by one (saturating at
/// `u32::MAX`), so the recovery sync, which fires when the count reaches
/// [`DIVERGENCE_PERSIST_THRESHOLD`], fires on exactly one heartbeat of the
/// streak: the second.
pub proof fn lemma_persistent_divergence_syncs_once(n: nat, our_hash: [u8; 32], their_hash: [u8; 32])
    requires
        n >= 1,
    ensures
        streak_after(n, our_hash, their_hash) matches Some(m) && m.count == (if n <= u32::MAX {
            n
        } else {
            u32::MAX as nat
        }),
        (streak_after(n, our_hash, their_hash)->0.count == DIVERGENCE_PERSIST_THRESHOLD) <==> n == 2,
    decreases n,
{
    let prev = streak_after((n - 1) as nat, our_hash, their_hash);
    assert(streak_after(n, our_hash, their_hash) == Some(
        DivergenceMark { our_hash, their_hash, count: streak_count(prev, our_hash, their_hash) },
    ));
    if n > 1 {
        lemma_persistent_divergence_syncs_once((n - 1) as nat, our_hash, their_hash);
        let m = prev->0;
        assert(m.our_hash == our_hash && m.their_hash == their_hash);
    } else {
        assert(prev is None);
    }
}

/// A divergence streak counts only heartbeats that repeat the same pair of
/// hashes: a first divergent heartbeat, or one where either our hash or the
/// peer's moved since the last one (progress), starts over at one; an
/// unchanged pair counts one more (saturating). So the recovery sync
/// (which fires when the count reaches the threshold) fires only on a
/// heartbeat that repeats, unchanged, the pair of a streak one short of it.
pub proof fn lemma_streak_resets_on_any_change(
    prev: Option<DivergenceMark>,
    our_hash: [u8; 32],
    their_hash: [u8; 32],
)
    ensures
        prev is None ==> streak_count(prev, our_hash, their_hash) == 1,
        prev is Some && (prev->0.our_hash@ != our_hash@ || prev->0.their_hash@ != their_hash@)
            ==> streak_count(prev, our_hash, their_hash) == 1,
        prev is Some && prev->0.our_hash@ == our_hash@ && prev->0.their_hash@ == their_hash@
            && prev->0.count < u32::MAX ==> streak_count(prev, our_hash, their_hash)
            == prev->0.count + 1,
        prev is Some && prev->0.our_hash@ == our_hash@ && prev->0.their_hash@ == their_hash@
            && prev->0.count == u32::MAX ==> streak_count(prev, our_hash, their_hash) == u32::MAX,
        streak_count(prev, our_hash, their_hash) == DIVERGENCE_PERSIST_THRESHOLD ==> (prev is Some
            && prev->0.our_hash@ == our_hash@ && prev->0.their_hash@ == their_hash@
            && prev->0.count == DIVERGENCE_PERSIST_THRESHOLD - 1),
{
}

/// Whether every head in `a` occurs in `b`.
fn all_in(a: &Vec<[u8; 32]>, b: &Vec<[u8; 32]>) -> (res: bool)
    ensures
        res == (forall|i: int| 0 <= i < a@.len() ==> views32(b@).contains(a@[i]@)),
{
    let mut i: usize = 0;
    while i < a.len()
        invariant
            i <= a@.len(),
            forall|j: int| 0 <= j < i ==> views32(b@).contains(a@[j]@),
        decreases a@.len() - i,
    {
        if !contains32(b, &a[i]) {
            return false;
        }
        i = i + 1;
    }
    true
}

/// Whether the two lists name the same set of heads.
pub fn heads_match(ours: &Vec<[u8; 32]>, theirs: &Vec<[u8; 32]>) -> (res: bool)
    ensures
        res == same_heads(ours@, theirs@),
{
    let a = all_in(ours, theirs);
    let b = all_in(theirs, ours);
    proof {
        if a && b {
            assert forall|h: Seq<u8>| views32(ours@).contains(h) <==> views32(theirs@).contains(h) by {
                if views32(ours@).contains(h) {
                    let j = choose|j: int| 0 <= j < views32(ours@).len() && views32(ours@)[j] == h;
                    assert(ours@[j]@ == h);
                }
                if views32(theirs@).contains(h) {
                    let j = choose|j: int| 0 <= j < views32(theirs@).len() && views32(theirs@)[j] == h;
                    assert(theirs@[j]@ == h);
                }
            }
        } else if !a {
            let i = choose|i: int| 0 <= i < ours@.len() && !views32(theirs@).contains(ours@[i]@);
            assert(views32(ours@)[i] == ours@[i]@);
        } else {
            let i = choose|i: int| 0 <= i < theirs@.len() && !views32(ours@).contains(theirs@[i]@);
            assert(views32(theirs@)[i] == theirs@[i]@);
        }
    }
    a && b
}

/// What a hash heartbeat calls for.
#[derive(Debug, PartialEq, Eq, Clone, Copy)]
pub enum HeartbeatAction {
    /// Same root hash: nothing to do.
    InSync,
    /// Our cached root hash was stale; the live one equals the peer's.
    CacheHealed,
    /// Same heads, different roots, not yet persistent.
    TransientDivergence { count: u32 },
    /// Same heads, different roots, persisted across heartbeats; a recovery
    /// sync starts on the first persistent heartbeat only.
    PersistentDivergence { count: u32, trigger_sync: bool },
    /// Different roots, but the peer has no head we lack: it is behind.
    PeerBehind,
    /// The peer has heads we do not: sync.
    SyncMissingHeads,
}

/// The action, and the live root hash to write back into our cache when the
/// cached one turned out stale.
#[derive(Debug, PartialEq, Eq, Clone, Copy)]
pub struct HeartbeatOutcome {
    pub action: HeartbeatAction,
    pub refresh_root: Option<[u8; 32]>,
}

/// Handle a hash heartbeat from `peer` for `ctx`.
///
/// With the same set of heads but another root hash, our live root hash
/// (`live_root`, `None` when it could not be read: the cached one is used)
/// is compared first: a stale cache is refreshed, and if the live hash is the
/// peer's the divergence is healed. Otherwise the streak for `(ctx, peer)`
/// counts consecutive heartbeats with the same pair of hashes. Any other
/// heartbeat clears the streak; a different root then syncs when the peer
/// advertises a head we lack.
pub fn hash_heartbeat_step(
    streaks: &mut DivergenceStreaks,
    ctx: [u8; 32],
    peer: &Vec<u8>,
    our_heads: &Vec<[u8; 32]>,
    our_root: [u8; 32],
    their_heads: &Vec<[u8; 32]>,
    their_root: [u8; 32],
    live_root: Option<[u8; 32]>,
) -> (out: HeartbeatOutcome)
    requires
        old(streaks).wf(),
    ensures
        final(streaks).wf(),
        forall|c: Seq<u8>, p: Seq<u8>|
            (c, p) != (ctx@, peer@) ==> final(streaks).mark_of(c, p) == old(streaks).mark_of(c, p),
        same_heads(our_heads@, their_heads@) && our_root@ != their_root@ ==> {
            let stale = live_root is Some && live_root->0@ != our_root@;
            let our_hash = match live_root {
                Some(l) => l,
                None => our_root,
            };
            &&& out.refresh_root == (if stale {
                live_root
            } else {
                None
            })
            &&& if stale && live_root->0@ == their_root@ {
                &&& out.action == HeartbeatAction::CacheHealed
                &&& final(streaks).mark_of(ctx@, peer@) is None
            } else {
                let count = streak_count(old(streaks).mark_of(ctx@, peer@), our_hash, their_root);
                &&& final(streaks).mark_of(ctx@, peer@) == Some(
                    DivergenceMark { our_hash, their_hash: their_root, count },
                )
                &&& count < DIVERGENCE_PERSIST_THRESHOLD ==> out.action
                    == HeartbeatAction::TransientDivergence { count }
                &&& count >= DIVERGENCE_PERSIST_THRESHOLD ==> out.action
                    == HeartbeatAction::PersistentDivergence {
                    count,
                    trigger_sync: count == DIVERGENCE_PERSIST_THRESHOLD,
                }
            }
        },
        !(same_heads(our_heads@, their_heads@) && our_root@ != their_root@) ==> {
            &&& final(streaks).mark_of(ctx@, peer@) is None
            &&& out.refresh_root is None
            &&& our_root@ == their_root@ ==> out.action == HeartbeatAction::InSync
            &&& our_root@ != their_root@ && peer_has_unknown_head(our_heads@, their_heads@)
                ==> out.action == HeartbeatAction::SyncMissingHeads
            &&& our_root@ != their_root@ && !peer_has_unknown_head(our_heads@, their_heads@)
                ==> out.action == HeartbeatAction::PeerBehind
        },
{
    let same = heads_match(our_heads, their_heads);
    let roots_equal = bytes32_eq(&our_root, &their_root);
    if same && !roots_equal {
        let mut refresh_root: Option<[u8; 32]> = None;
        let our_hash = match live_root {
            Some(live) => {
                if !bytes32_eq(&live, &our_root) {
                    refresh_root = Some(live);
                    if bytes32_eq(&live, &their_root) {
                        streaks.remove(&ctx, peer);
                        return HeartbeatOutcome {
                            action: HeartbeatAction::CacheHealed,
                            refresh_root,
                        };
                    }
                }
                live
            },
            None => our_root,
        };
        let count: u32 = match streaks.get(&ctx, peer) {
            Some(prev) => {
                if bytes32_eq(&prev.our_hash, &our_hash) && bytes32_eq(
                    &prev.their_hash,
                    &their_root,
                ) {
                    prev.count.saturating_add(1)
                } else {
                    1
                }
            },
            None => 1,
        };
        streaks.insert(ctx, peer, DivergenceMark { our_hash, their_hash: their_root, count });
        let action = if count < DIVERGENCE_PERSIST_THRESHOLD {
            HeartbeatAction::TransientDivergence { count }
        } else {
            HeartbeatAction::PersistentDivergence {
                count,
                trigger_sync: count == DIVERGENCE_PERSIST_THRESHOLD,
            }
        };
        return HeartbeatOutcome { action, refresh_root };
    }
    streaks.remove(&ctx, peer);
    if roots_equal {
        return HeartbeatOutcome { action: HeartbeatAction::InSync, refresh_root: None };
    }
    let known = all_in(their_heads, our_heads);
    proof {
        if !known {
            let i = choose|i: int| 0 <= i < their_heads@.len() && !views32(our_heads@).contains(
                their_heads@[i]@,
            );
            assert(peer_has_unknown_head(our_heads@, their_heads@));
        }
    }
    if known {
        HeartbeatOutcome { action: HeartbeatAction::PeerBehind, refresh_root: None }
    } else {
        HeartbeatOutcome { action: HeartbeatAction::SyncMissingHeads, refresh_root: None }
    }
}

/// How many of a namespace heartbeat's heads may be considered.
pub const MAX_PEER_HEADS: usize = 256;

/// A namespace state heartbeat is examined only within the head cap; it
/// shows divergence when either side holds a head the other lacks.
pub fn namespace_heads_diverge(local_heads: &Vec<[u8; 32]>, peer_heads: &Vec<[u8; 32]>) -> (res:
    Option<bool>)
    ensures
        peer_heads@.len() > MAX_PEER_HEADS ==> res is None,
        peer_heads@.len() <= MAX_PEER_HEADS ==> res == Some(
            !same_heads(local_heads@, peer_heads@),
        ),
{
    if peer_heads.len() > MAX_PEER_HEADS {
        return None;
    }
    Some(!heads_match(local_heads, peer_heads))
}

} // verus!
