//! Outbound ephemeral presence: the size guard, the per-author sequence
//! counter, the local echo into the awareness store, and the heartbeat that
//! re-publishes every locally-set slice and sweeps expired entries.
//!
//! Encryption and gossip are the caller's: each entry point returns what is
//! to be published.
use vstd::prelude::*;

use crate::ephemeral::store::{applied, author_pos, expired, has_author, lemma_touched_author_survives_sweep,
    lemma_touched_entrywise, live_entries, removals, touched_all, AwarenessStore, Diff, DiffView,
    PresenceEntry};
use crate::bytes::copy_bytes;
use crate::ephemeral::{EPHEMERAL_MAX_BYTES, PRESENCE_TTL_MS};
use crate::keyed::{index_of_key, keys_distinct, lemma_index_of_absent, lemma_index_of_key,
    lemma_index_of_present};
use crate::text::{decimal, decimal_string};
use vstd::string::StringExecFns;

verus! {

/// Typed errors for the outbound ephemeral path.
#[derive(Debug, PartialEq, Eq, Clone, Copy)]
pub enum EphemeralOutboundError {
    /// Caller supplied a slice that exceeds the protocol maximum.
    SliceTooLarge(usize),
    /// The context has not been registered in any group.
    NoGroup,
    /// The group has no current encryption key.
    NoGroupKey,
}

/// The text of each outbound error.
pub open spec fn outbound_error_text(e: EphemeralOutboundError) -> Seq<char> {
    match e {
        EphemeralOutboundError::SliceTooLarge(size) => "ephemeral slice is too large: "@ + decimal(
            size as nat,
        ) + " bytes (max "@ + decimal(EPHEMERAL_MAX_BYTES as nat) + ")"@,
        EphemeralOutboundError::NoGroup => "context has no group"@,
        EphemeralOutboundError::NoGroupKey => "no current group key"@,
    }
}

/// The message of an oversized slice.
fn slice_too_large_text(size: usize) -> (res: String)
    ensures
        res@ == "ephemeral slice is too large: "@ + decimal(size as nat) + " bytes (max "@ + decimal(
            EPHEMERAL_MAX_BYTES as nat,
        ) + ")"@,
{
    let mut s = String::from_str("ephemeral slice is too large: ");
    s.append(decimal_string(size).as_str());
    s.append(" bytes (max ");
    s.append(decimal_string(EPHEMERAL_MAX_BYTES).as_str());
    s.append(")");
    s
}

impl EphemeralOutboundError {
    /// The human-readable message of the error.
    pub fn to_string(&self) -> (res: String)
        ensures
            res@ == outbound_error_text(*self),
    {
        match self {
            EphemeralOutboundError::SliceTooLarge(size) => slice_too_large_text(*size),
            EphemeralOutboundError::NoGroup => "context has no group".to_owned(),
            EphemeralOutboundError::NoGroupKey => "no current group key".to_owned(),
        }
    }
}

/// Which key a publish seals under: the context's group and that group's
/// current key, or the error saying which of the two is missing.
pub fn select_publish_key(group: Option<[u8; 32]>, current_key_id: Option<[u8; 32]>) -> (res:
    Result<([u8; 32], [u8; 32]), EphemeralOutboundError>)
    ensures
        group is None ==> res == Err::<([u8; 32], [u8; 32]), _>(EphemeralOutboundError::NoGroup),
        group is Some && current_key_id is None ==> res == Err::<([u8; 32], [u8; 32]), _>(
            EphemeralOutboundError::NoGroupKey,
        ),
        group is Some && current_key_id is Some ==> res == Ok::<_, EphemeralOutboundError>(
            (group->0, current_key_id->0),
        ),
{
    match group {
        None => Err(EphemeralOutboundError::NoGroup),
        Some(g) => match current_key_id {
            None => Err(EphemeralOutboundError::NoGroupKey),
            Some(k) => Ok((g, k)),
        },
    }
}

/// Owned outbound presence state for one `(context, author)` pair.
pub struct LocalEphemeral {
    pub seq: u64,
    pub slice: Vec<u8>,
}

struct LocalRow {
    ctx: [u8; 32],
    author: [u8; 32],
    seq: u64,
    slice: Vec<u8>,
}

/// The node's own presence slices, one per `(context, author)`.
pub struct LocalPresence {
    rows: Vec<LocalRow>,
}

/// What one publish carries, before sealing.
pub struct PresencePublish {
    pub context_id: [u8; 32],
    pub author: [u8; 32],
    pub seq: u64,
    pub slice: Vec<u8>,
}

/// The outcome of setting the local slice: the sequence number it got, the
/// echo for this node's own subscribers, and the slice to publish.
pub struct LocalSet {
    pub seq: u64,
    pub echo: Option<Diff>,
    pub slice: Vec<u8>,
}

/// `seq + 1`, saturating at `u64::MAX`.
pub open spec fn bumped(seq: u64) -> u64 {
    if seq == u64::MAX {
        seq
    } else {
        (seq + 1) as u64
    }
}

/// Some of the first `n` contexts of `cs` is `k`.
pub open spec fn listed_before(cs: Seq<[u8; 32]>, n: int, k: Seq<u8>) -> bool {
    exists|x: int| 0 <= x < n && x < cs.len() && cs[x]@ == k
}

/// Some swept group is for context `k`.
pub open spec fn swept_has(sw: Seq<ContextRemovals>, k: Seq<u8>) -> bool {
    exists|y: int| 0 <= y < sw.len() && sw[y].context_id@ == k
}

/// A local `(seq, slice)` with its sequence number bumped.
pub open spec fn bump_local(p: Option<(u64, Seq<u8>)>) -> Option<(u64, Seq<u8>)> {
    match p {
        Some(x) => Some((bumped(x.0), x.1)),
        None => None,
    }
}

spec fn local_keys(rows: Seq<LocalRow>) -> Seq<(Seq<u8>, Seq<u8>)> {
    rows.map_values(|r: LocalRow| (r.ctx@, r.author@))
}

impl LocalPresence {
    /// The `(seq, slice)` held for `(ctx, author)`, if any.
    pub closed spec fn local_of(&self, ctx: Seq<u8>, author: Seq<u8>) -> Option<(u64, Seq<u8>)> {
        let i = index_of_key(local_keys(self.rows@), (ctx, author));
        if i >= 0 {
            Some((self.rows@[i].seq, self.rows@[i].slice@))
        } else {
            None
        }
    }

    /// The `(context, author)` pairs held, in publish order.
    pub closed spec fn pairs(&self) -> Seq<(Seq<u8>, Seq<u8>)> {
        local_keys(self.rows@)
    }

    /// One row per pair.
    pub closed spec fn wf(&self) -> bool {
        keys_distinct(local_keys(self.rows@))
    }

    /// The pairs held are exactly those with a local slice.
    pub proof fn lemma_pairs(&self, ctx: Seq<u8>, author: Seq<u8>)
        requires
            self.wf(),
        ensures
            self.local_of(ctx, author) is Some <==> self.pairs().contains((ctx, author)),
    {
        let keys = local_keys(self.rows@);
        if keys.contains((ctx, author)) {
            let i = choose|i: int| 0 <= i < keys.len() && keys[i] == (ctx, author);
            lemma_index_of_key(keys, (ctx, author), i);
        } else {
            lemma_index_of_absent(keys, (ctx, author));
        }
    }

    /// Nothing held.
    pub fn new() -> (s: Self)
        ensures
            s.wf(),
            s.pairs().len() == 0,
            forall|c: Seq<u8>, a: Seq<u8>| s.local_of(c, a) is None,
    {
        let s = LocalPresence { rows: Vec::new() };
        assert forall|c: Seq<u8>, a: Seq<u8>| s.local_of(c, a) is None by {
            lemma_index_of_absent(local_keys(s.rows@), (c, a));
        }
        s
    }

    fn find(&self, ctx: &[u8; 32], author: &[u8; 32]) -> (res: Option<usize>)
        requires
            self.wf(),
        ensures
            match res {
                Some(i) => i < self.rows@.len() && index_of_key(
                    local_keys(self.rows@),
                    (ctx@, author@),
                ) == i,
                None => index_of_key(local_keys(self.rows@), (ctx@, author@)) == -1,
            },
    {
        let mut i: usize = 0;
        while i < self.rows.len()
            invariant
                self.wf(),
                i <= self.rows@.len(),
                forall|j: int| 0 <= j < i ==> local_keys(self.rows@)[j] != (ctx@, author@),
            decreases self.rows@.len() - i,
        {
            if crate::bytes::bytes32_eq(&self.rows[i].ctx, ctx) && crate::bytes::bytes32_eq(
                &self.rows[i].author,
                author,
            ) {
                proof {
                    lemma_index_of_key(local_keys(self.rows@), (ctx@, author@), i as int);
                }
                return Some(i);
            }
            i = i + 1;
        }
        proof {
            lemma_index_of_absent(local_keys(self.rows@), (ctx@, author@));
        }
        None
    }

    /// Record `slice` as the local presence for `(ctx, author)`, bumping its
    /// sequence number (1 for a new pair); returns the new sequence number.
    fn bump_and_set(&mut self, ctx: [u8; 32], author: [u8; 32], slice: Vec<u8>) -> (seq: u64)
        requires
            old(self).wf(),
        ensures
            final(self).wf(),
            seq == bumped(
                match old(self).local_of(ctx@, author@) {
                    Some(p) => p.0,
                    None => 0,
                },
            ),
            final(self).local_of(ctx@, author@) == Some((seq, slice@)),
            forall|c: Seq<u8>, a: Seq<u8>|
                (c, a) != (ctx@, author@) ==> final(self).local_of(c, a) == old(self).local_of(
                    c,
                    a,
                ),
            old(self).local_of(ctx@, author@) is Some ==> final(self).pairs() == old(self).pairs(),
            old(self).local_of(ctx@, author@) is None ==> final(self).pairs() == old(
                self,
            ).pairs().push((ctx@, author@)),
    {
        let ghost old_rows = self.rows@;
        match self.find(&ctx, &author) {
            Some(i) => {
                let row = self.rows.remove(i);
                let seq = if row.seq == u64::MAX {
                    row.seq
                } else {
                    row.seq + 1
                };
                self.rows.insert(i, LocalRow { ctx, author, seq, slice });
                proof {
                    let new_rows = self.rows@;
                    lemma_index_of_present(local_keys(old_rows), (ctx@, author@));
                    assert(local_keys(new_rows) =~= local_keys(old_rows));
                    lemma_index_of_key(local_keys(new_rows), (ctx@, author@), i as int);
                    assert forall|c: Seq<u8>, a: Seq<u8>| (c, a) != (ctx@, author@) implies index_of_key(
                        local_keys(new_rows),
                        (c, a),
                    ) == index_of_key(local_keys(old_rows), (c, a)) && (index_of_key(
                        local_keys(old_rows),
                        (c, a),
                    ) >= 0 ==> new_rows[index_of_key(local_keys(old_rows), (c, a))]
                        == old_rows[index_of_key(local_keys(old_rows), (c, a))]) by {
                        let oi = index_of_key(local_keys(old_rows), (c, a));
                        if oi >= 0 {
                            lemma_index_of_present(local_keys(old_rows), (c, a));
                        }
                    }
                }
                seq
            },
            None => {
                self.rows.push(LocalRow { ctx, author, seq: 1, slice });
                proof {
                    let new_rows = self.rows@;
                    let ok = local_keys(old_rows);
                    let nk = local_keys(new_rows);
                    assert(nk =~= ok.push((ctx@, author@)));
                    assert forall|x: int| 0 <= x < ok.len() implies ok[x] != (ctx@, author@) by {
                        if ok[x] == (ctx@, author@) {
                            assert(exists|y: int| 0 <= y < ok.len() && ok[y] == (ctx@, author@));
                        }
                    }
                    lemma_index_of_key(nk, (ctx@, author@), ok.len() as int);
                    assert forall|c: Seq<u8>, a: Seq<u8>| (c, a) != (ctx@, author@) implies index_of_key(
                        nk,
                        (c, a),
                    ) == index_of_key(ok, (c, a)) by {
                        let oi = index_of_key(ok, (c, a));
                        if oi >= 0 {
                            lemma_index_of_present(ok, (c, a));
                            lemma_index_of_key(nk, (c, a), oi);
                        } else {
                            assert forall|x: int| 0 <= x < nk.len() implies nk[x] != (c, a) by {
                                if x < ok.len() && nk[x] == (c, a) {
                                    assert(exists|y: int| 0 <= y < ok.len() && ok[y] == (c, a));
                                }
                            }
                            lemma_index_of_absent(nk, (c, a));
                        }
                    }
                }
                1
            },
        }
    }
}

/// Set the local node's presence slice for `context_id`.
///
/// Refuses a slice longer than [`EPHEMERAL_MAX_BYTES`] (nothing changes);
/// otherwise bumps the `(context, author)` sequence counter, records the
/// slice, applies it to the local awareness store (the echo is the store's
/// diff) and returns what is to be published.
pub fn set_local_ephemeral(
    local: &mut LocalPresence,
    store: &mut AwarenessStore,
    context_id: [u8; 32],
    author: [u8; 32],
    slice: Vec<u8>,
    now_ms: u64,
) -> (res: Result<LocalSet, EphemeralOutboundError>)
    requires
        old(local).wf(),
        old(store).wf(),
    ensures
        final(local).wf(),
        final(store).wf(),
        slice@.len() > EPHEMERAL_MAX_BYTES ==> {
            &&& res == Err::<LocalSet, _>(EphemeralOutboundError::SliceTooLarge(slice@.len() as usize))
            &&& *final(local) == *old(local)
            &&& *final(store) == *old(store)
        },
        slice@.len() <= EPHEMERAL_MAX_BYTES ==> (res matches Ok(set) && {
            &&& set.seq == bumped(
                match old(local).local_of(context_id@, author@) {
                    Some(p) => p.0,
                    None => 0,
                },
            )
            &&& set.slice@ == slice@
            &&& final(local).local_of(context_id@, author@) == Some((set.seq, slice@))
            &&& forall|c: Seq<u8>, a: Seq<u8>|
                (c, a) != (context_id@, author@) ==> final(local).local_of(c, a) == old(
                    local,
                ).local_of(c, a)
            &&& forall|k: Seq<u8>|
                k != context_id@ ==> final(store).entries_of(k) == old(store).entries_of(k)
            &&& applied(
                old(store).entries_of(context_id@),
                final(store).entries_of(context_id@),
                match set.echo {
                    Some(d) => Some(d@),
                    None => None,
                },
                author@,
                set.seq,
                slice@,
                now_ms,
            )
        }),
{
    if slice.len() > EPHEMERAL_MAX_BYTES {
        return Err(EphemeralOutboundError::SliceTooLarge(slice.len()));
    }
    let for_store = copy_bytes(&slice);
    let for_publish = copy_bytes(&slice);
    let seq = local.bump_and_set(context_id, author, slice);
    let echo = store.apply(context_id, author, seq, for_store, now_ms);
    Ok(LocalSet { seq, echo, slice: for_publish })
}

/// The diffs of one context's sweep.
pub struct ContextRemovals {
    pub context_id: [u8; 32],
    pub diffs: Vec<Diff>,
}

/// What one heartbeat tick does: the removals of each swept context and the
/// publishes, one per local slice.
pub struct HeartbeatTick {
    pub removals: Vec<ContextRemovals>,
    pub publishes: Vec<PresencePublish>,
}

/// Heartbeat tick: bump every local sequence counter, touch each local
/// author's own entry at `now_ms` (a node never receives its own gossip, so
/// nothing else keeps its entries alive), sweep every context the store holds
/// with [`PRESENCE_TTL_MS`] (once each, receive-only contexts included), and
/// return the re-publishes, one per local slice, in publish order.
pub fn heartbeat_tick(local: &mut LocalPresence, store: &mut AwarenessStore, now_ms: u64) -> (res:
    HeartbeatTick)
    requires
        old(local).wf(),
        old(store).wf(),
    ensures
        final(local).wf(),
        final(store).wf(),
        final(local).pairs() == old(local).pairs(),
        forall|c: Seq<u8>, a: Seq<u8>|
            #![trigger final(local).local_of(c, a)]
            old(local).local_of(c, a) is Some ==> final(local).local_of(c, a) == bump_local(
                old(local).local_of(c, a),
            ),
        forall|c: Seq<u8>, a: Seq<u8>|
            old(local).local_of(c, a) is None ==> final(local).local_of(c, a) is None,
        res.publishes@.len() == old(local).pairs().len(),
        forall|i: int|
            0 <= i < res.publishes@.len() ==> {
                let (c, a) = old(local).pairs()[i];
                &&& (#[trigger] res.publishes@[i]).context_id@ == c
                &&& res.publishes@[i].author@ == a
                &&& final(local).local_of(c, a) == Some(
                    (res.publishes@[i].seq, res.publishes@[i].slice@),
                )
            },
        forall|k: Seq<u8>|
            #![trigger final(store).entries_of(k)]
            final(store).entries_of(k) == live_entries(
                touched_all(old(store).entries_of(k), old(local).pairs(), k, now_ms),
                PRESENCE_TTL_MS,
                now_ms,
            ),
        forall|c: Seq<u8>, a: Seq<u8>|
            #![trigger old(local).local_of(c, a), old(store).entries_of(c)]
            old(local).local_of(c, a) is Some && has_author(old(store).entries_of(c), a) ==> {
                let es = final(store).entries_of(c);
                &&& has_author(es, a)
                &&& es[author_pos(es, a)].last_seen_ms == now_ms
            },
        forall|i: int, j: int|
            0 <= i < j < res.removals@.len() ==> res.removals@[i].context_id@
                != res.removals@[j].context_id@,
        forall|k: Seq<u8>|
            #![trigger swept_has(res.removals@, k)]
            swept_has(res.removals@, k) <==> old(store).entries_of(k).len() > 0,
        forall|j: int|
            0 <= j < res.removals@.len() ==> (#[trigger] res.removals@[j]).diffs@.map_values(
                |d: Diff| d@,
            ) == removals(
                touched_all(
                    old(store).entries_of(res.removals@[j].context_id@),
                    old(local).pairs(),
                    res.removals@[j].context_id@,
                    now_ms,
                ).filter(|e: PresenceEntry| expired(e, PRESENCE_TTL_MS, now_ms)),
            ),
{
    let ghost old_rows = local.rows@;
    let ghost old_local = *local;
    let ghost old_store = *store;
    let ghost pairs = local_keys(old_rows);
    // 1. bump every counter.
    let mut bumped_rows: Vec<LocalRow> = Vec::new();
    let mut publishes: Vec<PresencePublish> = Vec::new();
    let mut i: usize = 0;
    while i < local.rows.len()
        invariant
            local.rows@ == old_rows,
            pairs == local_keys(old_rows),
            i <= old_rows.len(),
            bumped_rows@.len() == i,
            publishes@.len() == i,
            forall|j: int|
                0 <= j < i ==> {
                    &&& (#[trigger] bumped_rows@[j]).ctx == old_rows[j].ctx
                    &&& bumped_rows@[j].author == old_rows[j].author
                    &&& bumped_rows@[j].seq == bumped(old_rows[j].seq)
                    &&& bumped_rows@[j].slice@ == old_rows[j].slice@
                    &&& publishes@[j].context_id == old_rows[j].ctx
                    &&& publishes@[j].author == old_rows[j].author
                    &&& publishes@[j].seq == bumped(old_rows[j].seq)
                    &&& publishes@[j].slice@ == old_rows[j].slice@
                },
        decreases old_rows.len() - i,
    {
        let row = &local.rows[i];
        let seq = if row.seq == u64::MAX {
            row.seq
        } else {
            row.seq + 1
        };
        bumped_rows.push(LocalRow { ctx: row.ctx, author: row.author, seq, slice: copy_bytes(&row.slice) });
        publishes.push(PresencePublish { context_id: row.ctx, author: row.author, seq, slice: copy_bytes(&row.slice) });
        i = i + 1;
    }
    local.rows = bumped_rows;
    proof {
        assert(local_keys(local.rows@) =~= pairs);
    }
    // 2. touch every local author's own entry, so that its own sweep does
    //    not evict it.
    let mut t: usize = 0;
    while t < local.rows.len()
        invariant
            local.wf(),
            local_keys(local.rows@) == pairs,
            t <= pairs.len(),
            store.wf(),
            forall|k: Seq<u8>|
                #![trigger store.entries_of(k)]
                store.entries_of(k) == touched_all(
                    old_store.entries_of(k),
                    pairs.take(t as int),
                    k,
                    now_ms,
                ),
        decreases pairs.len() - t,
    {
        let c = local.rows[t].ctx;
        let a = local.rows[t].author;
        let ghost before = *store;
        store.touch(c, a, now_ms);
        proof {
            assert(pairs[t as int] == (c@, a@));
            let p0 = pairs.take(t as int);
            let p1 = pairs.take(t as int + 1);
            assert(p1 =~= p0.push((c@, a@)));
            before.lemma_wf_entries(c@);
            lemma_touched_entrywise(before.entries_of(c@), a@, now_ms);
            assert forall|k: Seq<u8>| #![trigger store.entries_of(k)]
                store.entries_of(k) == touched_all(old_store.entries_of(k), p1, k, now_ms) by {
                let o = old_store.entries_of(k);
                assert forall|x: Seq<u8>| #[trigger] p1.contains((k, x)) == (p0.contains((k, x)) || (
                k, x) == (c@, a@)) by {
                    if p1.contains((k, x)) {
                        let w = choose|w: int| 0 <= w < p1.len() && p1[w] == (k, x);
                        if w < p0.len() {
                            assert(p0[w] == (k, x));
                        }
                    }
                    if p0.contains((k, x)) {
                        let w = choose|w: int| 0 <= w < p0.len() && p0[w] == (k, x);
                        assert(p1[w] == (k, x));
                    }
                    if (k, x) == (c@, a@) {
                        assert(p1[p0.len() as int] == (k, x));
                    }
                }
                if k == c@ {
                    assert(store.entries_of(k) =~= touched_all(o, p1, k, now_ms));
                } else {
                    assert(store.entries_of(k) =~= touched_all(o, p1, k, now_ms));
                }
            }
        }
        t = t + 1;
    }
    proof {
        assert(pairs.take(pairs.len() as int) =~= pairs);
        assert forall|k: Seq<u8>| #![trigger store.entries_of(k)]
            store.entries_of(k) == touched_all(old_store.entries_of(k), pairs, k, now_ms) by {
            assert(store.entries_of(k) == touched_all(
                old_store.entries_of(k),
                pairs.take(pairs.len() as int),
                k,
                now_ms,
            ));
        }
    }
    // 3. sweep every context the store holds, once each.
    let ghost mid = *store;
    let cs = store.contexts();
    let mut swept: Vec<ContextRemovals> = Vec::new();
    let mut y: usize = 0;
    while y < cs.len()
        invariant
            store.wf(),
            y <= cs@.len(),
            swept@.len() == y,
            forall|k: Seq<u8>|
                #![trigger mid.entries_of(k)]
                mid.entries_of(k) == touched_all(old_store.entries_of(k), pairs, k, now_ms),
            forall|k: Seq<u8>|
                (exists|i: int| 0 <= i < cs@.len() && cs@[i]@ == k) <==> mid.entries_of(k).len() > 0,
            forall|i: int, j: int| 0 <= i < j < cs@.len() ==> cs@[i]@ != cs@[j]@,
            forall|x: int| 0 <= x < y ==> (#[trigger] swept@[x]).context_id == cs@[x],
            forall|x: int|
                0 <= x < y ==> (#[trigger] swept@[x]).diffs@.map_values(|d: Diff| d@) == removals(
                    mid.entries_of(cs@[x]@).filter(
                        |e: PresenceEntry| expired(e, PRESENCE_TTL_MS, now_ms),
                    ),
                ),
            forall|k: Seq<u8>|
                #![trigger store.entries_of(k)]
                listed_before(cs@, y as int, k) ==> store.entries_of(k) == live_entries(
                    mid.entries_of(k),
                    PRESENCE_TTL_MS,
                    now_ms,
                ),
            forall|k: Seq<u8>|
                #![trigger store.entries_of(k)]
                !listed_before(cs@, y as int, k) ==> store.entries_of(k) == mid.entries_of(k),
        decreases cs@.len() - y,
    {
        let k0 = cs[y];
        let ghost before = *store;
        proof {
            if listed_before(cs@, y as int, k0@) {
                let w = choose|w: int| 0 <= w < y && cs@[w]@ == k0@;
                assert(cs@[w]@ != cs@[y as int]@);
            }
        }
        let diffs = store.sweep(k0, PRESENCE_TTL_MS, now_ms);
        swept.push(ContextRemovals { context_id: k0, diffs });
        proof {
            assert forall|k: Seq<u8>| #![trigger store.entries_of(k)]
                listed_before(cs@, y as int + 1, k) implies store.entries_of(k) == live_entries(
                mid.entries_of(k),
                PRESENCE_TTL_MS,
                now_ms,
            ) by {
                if k != k0@ {
                    let w = choose|w: int| 0 <= w < y + 1 && cs@[w]@ == k;
                    assert(w != y);
                    assert(listed_before(cs@, y as int, k));
                }
            }
            assert forall|k: Seq<u8>| #![trigger store.entries_of(k)]
                !listed_before(cs@, y as int + 1, k) implies store.entries_of(k) == mid.entries_of(k) by {
                assert(k != k0@ || cs@[y as int]@ == k0@);
                if k == k0@ {
                    assert(listed_before(cs@, y as int + 1, k));
                }
                if listed_before(cs@, y as int, k) {
                    let w = choose|w: int| 0 <= w < y && cs@[w]@ == k;
                    assert(listed_before(cs@, y as int + 1, k));
                }
            }
        }
        y = y + 1;
    }
    proof {
        assert forall|k: Seq<u8>| #![trigger store.entries_of(k)]
            store.entries_of(k) == live_entries(
                touched_all(old_store.entries_of(k), pairs, k, now_ms),
                PRESENCE_TTL_MS,
                now_ms,
            ) by {
            let m = mid.entries_of(k);
            if !listed_before(cs@, cs@.len() as int, k) {
                if m.len() > 0 {
                    let i = choose|i: int| 0 <= i < cs@.len() && cs@[i]@ == k;
                    assert(listed_before(cs@, cs@.len() as int, k));
                }
                assert(m =~= Seq::<PresenceEntry>::empty());
                m.lemma_filter_len(|e: PresenceEntry| !expired(e, PRESENCE_TTL_MS, now_ms));
                assert(live_entries(m, PRESENCE_TTL_MS, now_ms) =~= m);
            }
        }
        assert forall|c: Seq<u8>, a: Seq<u8>|
            #![trigger old_local.local_of(c, a), old_store.entries_of(c)]
            old_local.local_of(c, a) is Some && has_author(old_store.entries_of(c), a) implies {
                let es = store.entries_of(c);
                &&& has_author(es, a)
                &&& es[author_pos(es, a)].last_seen_ms == now_ms
            } by {
            old_local.lemma_pairs(c, a);
            lemma_touched_author_survives_sweep(old_store, pairs, c, a, PRESENCE_TTL_MS, now_ms);
        }
        assert forall|k: Seq<u8>| #![trigger swept_has(swept@, k)]
            swept_has(swept@, k) <==> old_store.entries_of(k).len() > 0 by {
            assert(mid.entries_of(k).len() == old_store.entries_of(k).len());
            if swept_has(swept@, k) {
                let w = choose|w: int| 0 <= w < swept@.len() && swept@[w].context_id@ == k;
                assert(cs@[w]@ == k);
            }
            if mid.entries_of(k).len() > 0 {
                let i = choose|i: int| 0 <= i < cs@.len() && cs@[i]@ == k;
                assert(swept@[i].context_id@ == k);
            }
        }
        assert forall|i: int, j: int| 0 <= i < j < swept@.len() implies swept@[i].context_id@
            != swept@[j].context_id@ by {
            assert(swept@[i].context_id == cs@[i]);
            assert(swept@[j].context_id == cs@[j]);
        }
    }
    proof {
        assert forall|c: Seq<u8>, a: Seq<u8>| #![trigger local.local_of(c, a)]
            old_local.local_of(c, a) is Some implies local.local_of(
            c,
            a,
        ) == bump_local(old_local.local_of(c, a)) by {
            lemma_index_of_present(pairs, (c, a));
        }
        assert forall|x: int| 0 <= x < publishes@.len() implies {
            let (c, a) = pairs[x];
            local.local_of(c, a) == Some(((#[trigger] publishes@[x]).seq, publishes@[x].slice@))
        } by {
            let (c, a) = pairs[x];
            lemma_index_of_key(pairs, (c, a), x);
        }
    }
    HeartbeatTick { removals: swept, publishes }
}

} // verus!
