//! In-memory awareness store: last-writer-wins by `(author, seq)` with TTL
//! expiry. Time is always passed in as `now_ms`; nothing here reads a clock.
use vstd::prelude::*;

use crate::bytes::{bytes_eq, bytes32_eq, copy_bytes, bytes32_lt, lemma_seq_lt_total, lemma_seq_lt_transitive, seq_lt};
use crate::keyed::{index_of_key, keys_distinct, lemma_index_of_absent, lemma_index_of_key};

verus! {

broadcast use vstd::seq_lib::group_seq_properties;

/// Maximum number of distinct authors held for a single context: a new
/// author is refused once a context holds this many, an author already
/// present always updates.
pub const MAX_AUTHORS_PER_CONTEXT: usize = 512;

/// A single diff produced by a mutating operation on the store.
#[derive(Debug, PartialEq, Eq)]
pub enum Diff {
    Upsert { author: [u8; 32], slice: Vec<u8> },
    Remove { author: [u8; 32] },
}

/// The mathematical content of a [`Diff`].
pub enum DiffView {
    Upsert { author: Seq<u8>, slice: Seq<u8> },
    Remove { author: Seq<u8> },
}

impl View for Diff {
    type V = DiffView;

    open spec fn view(&self) -> DiffView {
        match self {
            Diff::Upsert { author, slice } => DiffView::Upsert { author: author@, slice: slice@ },
            Diff::Remove { author } => DiffView::Remove { author: author@ },
        }
    }
}

/// What the store holds for one author of one context.
pub struct PresenceEntry {
    pub author: Seq<u8>,
    pub slice: Seq<u8>,
    pub seq: u64,
    pub last_seen_ms: u64,
}

struct Entry {
    author: [u8; 32],
    slice: Vec<u8>,
    seq: u64,
    last_seen_ms: u64,
}

impl View for Entry {
    type V = PresenceEntry;

    closed spec fn view(&self) -> PresenceEntry {
        PresenceEntry {
            author: self.author@,
            slice: self.slice@,
            seq: self.seq,
            last_seen_ms: self.last_seen_ms,
        }
    }
}

struct ContextRow {
    ctx: [u8; 32],
    entries: Vec<Entry>,
}

/// Per-context map of `author -> {slice, seq, last_seen_ms}`.
pub struct AwarenessStore {
    rows: Vec<ContextRow>,
}

// ---------------------------------------------------------------------------
// Specification
// ---------------------------------------------------------------------------

/// Authors strictly increasing (byte order) along the sequence.
pub open spec fn sorted_by_author(es: Seq<PresenceEntry>) -> bool {
    forall|i: int, j: int| 0 <= i < j < es.len() ==> seq_lt(es[i].author, es[j].author)
}

/// `es` holds an entry for `author`.
pub open spec fn has_author(es: Seq<PresenceEntry>, author: Seq<u8>) -> bool {
    exists|i: int| 0 <= i < es.len() && es[i].author == author
}

/// The position of `author` in `es` (meaningful when `has_author`).
pub open spec fn author_pos(es: Seq<PresenceEntry>, author: Seq<u8>) -> int {
    choose|i: int| 0 <= i < es.len() && es[i].author == author
}

/// `p` is where `author` goes to keep `es` sorted.
pub open spec fn is_insert_point(es: Seq<PresenceEntry>, author: Seq<u8>, p: int) -> bool {
    &&& 0 <= p <= es.len()
    &&& forall|i: int| 0 <= i < p ==> seq_lt(es[i].author, author)
    &&& forall|i: int| p <= i < es.len() ==> seq_lt(author, es[i].author)
}

/// `now - last_seen` saturating at zero.
pub open spec fn age(now_ms: u64, last_seen_ms: u64) -> u64 {
    if now_ms >= last_seen_ms {
        (now_ms - last_seen_ms) as u64
    } else {
        0
    }
}

/// An entry the sweep with `ttl_ms` at `now_ms` drops.
pub open spec fn expired(e: PresenceEntry, ttl_ms: u64, now_ms: u64) -> bool {
    age(now_ms, e.last_seen_ms) >= ttl_ms
}

/// The entries a sweep with `ttl_ms` at `now_ms` keeps, in their order.
pub open spec fn live_entries(es: Seq<PresenceEntry>, ttl_ms: u64, now_ms: u64) -> Seq<PresenceEntry> {
    es.filter(|e: PresenceEntry| !expired(e, ttl_ms, now_ms))
}

/// The relation between one context's entries before (`old`) and after
/// (`new`) `apply(author, seq, slice, now_ms)`, and the diff it returns.
///
/// - an author already present with `seq` at least the incoming one: no-op;
/// - an author already present with a lower seq: the entry takes the new
///   slice, seq and `now_ms`; an `Upsert` only if the slice bytes changed;
/// - a new author into a context at the cap: refused, no-op;
/// - otherwise: inserted in author order, with an `Upsert`.
pub open spec fn applied(
    old: Seq<PresenceEntry>,
    new: Seq<PresenceEntry>,
    res: Option<DiffView>,
    author: Seq<u8>,
    seq: u64,
    slice: Seq<u8>,
    now_ms: u64,
) -> bool {
    let fresh_entry = PresenceEntry { author, slice, seq, last_seen_ms: now_ms };
    if has_author(old, author) {
        let i = author_pos(old, author);
        if seq <= old[i].seq {
            new == old && res is None
        } else {
            &&& new == old.update(i, fresh_entry)
            &&& res == (if old[i].slice == slice {
                None::<DiffView>
            } else {
                Some(DiffView::Upsert { author, slice })
            })
        }
    } else if old.len() >= MAX_AUTHORS_PER_CONTEXT {
        new == old && res is None
    } else {
        &&& exists|p: int| is_insert_point(old, author, p) && new == old.insert(p, fresh_entry)
        &&& res == Some(DiffView::Upsert { author, slice })
    }
}

/// The entries that `touch(author, now_ms)` leaves.
pub open spec fn touched(old: Seq<PresenceEntry>, author: Seq<u8>, now_ms: u64) -> Seq<
    PresenceEntry,
> {
    if has_author(old, author) {
        let i = author_pos(old, author);
        old.update(i, PresenceEntry { last_seen_ms: now_ms, ..old[i] })
    } else {
        old
    }
}

/// The entries of `ctx` once every author that `pairs` pairs with `ctx`
/// has been touched at `now_ms`.
pub open spec fn touched_all(
    es: Seq<PresenceEntry>,
    pairs: Seq<(Seq<u8>, Seq<u8>)>,
    ctx: Seq<u8>,
    now_ms: u64,
) -> Seq<PresenceEntry> {
    es.map_values(
        |e: PresenceEntry|
            if pairs.contains((ctx, e.author)) {
                PresenceEntry { last_seen_ms: now_ms, ..e }
            } else {
                e
            },
    )
}

/// The diffs a sweep reports for the dropped entries, in author order.
pub open spec fn removals(es: Seq<PresenceEntry>) -> Seq<DiffView> {
    es.map_values(|e: PresenceEntry| DiffView::Remove { author: e.author })
}

spec fn row_entries(r: ContextRow) -> Seq<PresenceEntry> {
    r.entries@.map_values(|e: Entry| e@)
}

spec fn row_keys(rows: Seq<ContextRow>) -> Seq<Seq<u8>> {
    rows.map_values(|r: ContextRow| r.ctx@)
}

spec fn entries_in(rows: Seq<ContextRow>, ctx: Seq<u8>) -> Seq<PresenceEntry> {
    let i = index_of_key(row_keys(rows), ctx);
    if i >= 0 {
        row_entries(rows[i])
    } else {
        Seq::empty()
    }
}

impl AwarenessStore {
    /// The entries held for `ctx`, sorted by author; empty when none.
    pub closed spec fn entries_of(&self, ctx: Seq<u8>) -> Seq<PresenceEntry> {
        entries_in(self.rows@, ctx)
    }

    /// Internal consistency: one row per context, every row non-empty, sorted
    /// by author and within the cap.
    pub closed spec fn wf(&self) -> bool {
        &&& keys_distinct(row_keys(self.rows@))
        &&& forall|i: int|
            0 <= i < self.rows@.len() ==> {
                let es = #[trigger] row_entries(self.rows@[i]);
                &&& es.len() > 0
                &&& es.len() <= MAX_AUTHORS_PER_CONTEXT
                &&& sorted_by_author(es)
            }
    }

    /// Every context's entries are sorted by author and within the cap.
    pub proof fn lemma_wf_entries(&self, ctx: Seq<u8>)
        requires
            self.wf(),
        ensures
            sorted_by_author(self.entries_of(ctx)),
            self.entries_of(ctx).len() <= MAX_AUTHORS_PER_CONTEXT,
    {
        let i = index_of_key(row_keys(self.rows@), ctx);
        if i >= 0 {
            assert(row_keys(self.rows@)[i] == ctx);
            let es = row_entries(self.rows@[i]);
        }
    }

    /// Create an empty store.
    pub fn new() -> (s: Self)
        ensures
            s.wf(),
            forall|ctx: Seq<u8>| s.entries_of(ctx) == Seq::<PresenceEntry>::empty(),
    {
        let s = AwarenessStore { rows: Vec::new() };
        assert forall|ctx: Seq<u8>| s.entries_of(ctx) == Seq::<PresenceEntry>::empty() by {
            lemma_index_of_absent(row_keys(s.rows@), ctx);
        }
        s
    }

    fn find_row(&self, ctx: &[u8; 32]) -> (res: Option<usize>)
        requires
            self.wf(),
        ensures
            match res {
                Some(i) => i < self.rows@.len() && self.rows@[i as int].ctx@ == ctx@ && index_of_key(
                    row_keys(self.rows@),
                    ctx@,
                ) == i,
                None => index_of_key(row_keys(self.rows@), ctx@) == -1 && forall|i: int|
                    0 <= i < self.rows@.len() ==> self.rows@[i].ctx@ != ctx@,
            },
    {
        let mut i: usize = 0;
        while i < self.rows.len()
            invariant
                self.wf(),
                i <= self.rows@.len(),
                forall|j: int| 0 <= j < i ==> self.rows@[j].ctx@ != ctx@,
            decreases self.rows@.len() - i,
        {
            if bytes32_eq(&self.rows[i].ctx, ctx) {
                proof {
                    assert(row_keys(self.rows@)[i as int] == ctx@);
                    lemma_index_of_key(row_keys(self.rows@), ctx@, i as int);
                }
                return Some(i);
            }
            i = i + 1;
        }
        proof {
            assert forall|j: int| 0 <= j < row_keys(self.rows@).len() implies row_keys(
                self.rows@,
            )[j] != ctx@ by {
                assert(row_keys(self.rows@)[j] == self.rows@[j].ctx@);
            }
            lemma_index_of_absent(row_keys(self.rows@), ctx@);
        }
        None
    }

    /// Apply an incoming awareness slice for `author` in `ctx`, last writer
    /// wins by `seq` (see [`applied`]). Other contexts are untouched.
    pub fn apply(&mut self, ctx: [u8; 32], author: [u8; 32], seq: u64, slice: Vec<u8>, now_ms: u64) -> (res:
        Option<Diff>)
        requires
            old(self).wf(),
        ensures
            final(self).wf(),
            forall|k: Seq<u8>| k != ctx@ ==> final(self).entries_of(k) == old(self).entries_of(k),
            applied(
                old(self).entries_of(ctx@),
                final(self).entries_of(ctx@),
                match res {
                    Some(d) => Some(d@),
                    None => None,
                },
                author@,
                seq,
                slice@,
                now_ms,
            ),
    {
        let ghost old_rows = self.rows@;
        match self.find_row(&ctx) {
            None => {
                let diff_slice = copy_bytes(&slice);
                let entry = Entry { author, slice, seq, last_seen_ms: now_ms };
                let mut entries: Vec<Entry> = Vec::new();
                entries.push(entry);
                let row = ContextRow { ctx, entries };
                self.rows.push(row);
                proof {
                    let new_rows = self.rows@;
                    assert(row_keys(new_rows) =~= row_keys(old_rows).push(ctx@));
                    assert forall|k: Seq<u8>| k != ctx@ implies self.entries_of(k) == entries_in(old_rows, k) by {
                        let oi = index_of_key(row_keys(old_rows), k);
                        if oi >= 0 {
                            assert(row_keys(old_rows)[oi] == k);
                            assert(row_keys(new_rows)[oi] == k);
                            lemma_index_of_key(row_keys(new_rows), k, oi);
                        } else {
                            assert forall|j: int| 0 <= j < row_keys(new_rows).len() implies row_keys(
                                new_rows,
                            )[j] != k by {
                                if j < old_rows.len() {
                                    if row_keys(old_rows)[j] == k {
                                        assert(exists|x: int|
                                            0 <= x < row_keys(old_rows).len() && row_keys(
                                                old_rows,
                                            )[x] == k);
                                    }
                                }
                            }
                            lemma_index_of_absent(row_keys(new_rows), k);
                        }
                    }
                    lemma_index_of_key(row_keys(new_rows), ctx@, old_rows.len() as int);
                    let es = row_entries(new_rows[old_rows.len() as int]);
                    assert(es =~= seq![PresenceEntry { author: author@, slice: slice@, seq, last_seen_ms: now_ms }]);
                    assert(is_insert_point(Seq::<PresenceEntry>::empty(), author@, 0));
                    assert(es =~= Seq::<PresenceEntry>::empty().insert(0, PresenceEntry { author: author@, slice: slice@, seq, last_seen_ms: now_ms }));
                }
                Some(Diff::Upsert { author, slice: diff_slice })
            },
            Some(r) => {
                let ContextRow { ctx: row_ctx, entries } = self.rows.remove(r);
                let ghost old_es = row_entries(ContextRow { ctx: row_ctx, entries });
                let mut entries = entries;
                proof {
                    assert(old_es == entries_in(old_rows, ctx@));
                    assert(row_entries(old_rows[r as int]) == old_es);
                }
                // Find the first position whose author is not below `author`.
                let mut p: usize = 0;
                while p < entries.len() && bytes32_lt(&entries[p].author, &author)
                    invariant
                        p <= entries@.len(),
                        old_es == entries@.map_values(|e: Entry| e@),
                        forall|i: int| 0 <= i < p ==> seq_lt(old_es[i].author, author@),
                    decreases entries@.len() - p,
                {
                    p = p + 1;
                }
                let found = p < entries.len() && bytes32_eq(&entries[p as usize].author, &author);
                let ghost fresh_entry = PresenceEntry {
                    author: author@,
                    slice: slice@,
                    seq,
                    last_seen_ms: now_ms,
                };
                let res: Option<Diff>;
                if found {
                    proof {
                        assert(old_es[p as int].author == author@);
                        assert(has_author(old_es, author@));
                        let q = author_pos(old_es, author@);
                        if q != p {
                            if q < p {
                                assert(seq_lt(old_es[q].author, old_es[p as int].author));
                            } else {
                                assert(seq_lt(old_es[p as int].author, old_es[q].author));
                            }
                            lemma_seq_lt_total(author@, author@);
                        }
                    }
                    if seq <= entries[p].seq {
                        res = None;
                    } else {
                        let changed = !bytes_eq(entries[p].slice.as_slice(), slice.as_slice());
                        let diff_slice = copy_bytes(&slice);
                        let new_entry = Entry { author, slice, seq, last_seen_ms: now_ms };
                        entries.set(p, new_entry);
                        if changed {
                            res = Some(Diff::Upsert { author, slice: diff_slice });
                        } else {
                            res = None;
                        }
                        proof {
                            assert(entries@.map_values(|e: Entry| e@) =~= old_es.update(
                                p as int,
                                fresh_entry,
                            ));
                        }
                    }
                } else {
                    proof {
                        assert forall|i: int| p <= i < old_es.len() implies seq_lt(
                            author@,
                            old_es[i].author,
                        ) by {
                            let e = old_es[p as int].author;
                            lemma_seq_lt_total(e, author@);
                            if i > p {
                                assert(seq_lt(e, old_es[i].author));
                                lemma_seq_lt_transitive(author@, e, old_es[i].author);
                            }
                        }
                        assert(is_insert_point(old_es, author@, p as int));
                        assert(!has_author(old_es, author@)) by {
                            if has_author(old_es, author@) {
                                let q = choose|q: int| 0 <= q < old_es.len() && old_es[q].author == author@;
                                lemma_seq_lt_total(author@, author@);
                                if q < p {
                                } else {
                                }
                            }
                        }
                    }
                    if entries.len() >= MAX_AUTHORS_PER_CONTEXT {
                        res = None;
                    } else {
                        let diff_slice = copy_bytes(&slice);
                        let new_entry = Entry { author, slice, seq, last_seen_ms: now_ms };
                        entries.insert(p, new_entry);
                        res = Some(Diff::Upsert { author, slice: diff_slice });
                        proof {
                            assert(entries@.map_values(|e: Entry| e@) =~= old_es.insert(
                                p as int,
                                fresh_entry,
                            ));
                        }
                    }
                }
                let ghost new_es = entries@.map_values(|e: Entry| e@);
                proof {
                    assert(sorted_by_author(new_es)) by {
                        assert forall|i: int, j: int| 0 <= i < j < new_es.len() implies seq_lt(
                            new_es[i].author,
                            new_es[j].author,
                        ) by {
                            if !found && new_es.len() != old_es.len() {
                                // inserted at p
                                if i < p && j == p {
                                } else if i == p && j > p {
                                } else if i < p && j > p {
                                    assert(new_es[j] == old_es[j - 1]);
                                    lemma_seq_lt_transitive(
                                        old_es[i].author,
                                        author@,
                                        old_es[j - 1].author,
                                    );
                                } else if i > p {
                                    assert(new_es[i] == old_es[i - 1]);
                                    assert(new_es[j] == old_es[j - 1]);
                                } else {
                                    assert(new_es[i] == old_es[i]);
                                    assert(new_es[j] == old_es[j]);
                                }
                            } else {
                                assert(new_es[i].author == old_es[i].author);
                                assert(new_es[j].author == old_es[j].author);
                            }
                        }
                    }
                }
                self.rows.insert(r, ContextRow { ctx: row_ctx, entries });
                proof {
                    let new_rows = self.rows@;
                    assert(new_rows =~= old_rows.update(r as int, new_rows[r as int]));
                    assert(row_keys(new_rows) =~= row_keys(old_rows));
                    lemma_index_of_key(row_keys(new_rows), ctx@, r as int);
                    assert(row_entries(new_rows[r as int]) == new_es);
                    assert forall|k: Seq<u8>| k != ctx@ implies self.entries_of(k) == entries_in(old_rows, k) by {
                        let oi = index_of_key(row_keys(old_rows), k);
                        if oi >= 0 {
                            assert(row_keys(old_rows)[oi] == k);
                        }
                    }
                    assert forall|i: int| 0 <= i < new_rows.len() implies {
                        let es = #[trigger] row_entries(new_rows[i]);
                        &&& es.len() > 0
                        &&& es.len() <= MAX_AUTHORS_PER_CONTEXT
                        &&& sorted_by_author(es)
                    } by {
                        if i != r {
                            assert(new_rows[i] == old_rows[i]);
                        }
                    }
                }
                res
            },
        }
    }
}

impl AwarenessStore {
    /// Position of `author` among a row's entries, when present.
    fn find_entry(entries: &Vec<Entry>, author: &[u8; 32]) -> (res: Option<usize>)
        requires
            sorted_by_author(entries@.map_values(|e: Entry| e@)),
        ensures
            match res {
                Some(p) => p < entries@.len() && has_author(
                    entries@.map_values(|e: Entry| e@),
                    author@,
                ) && author_pos(entries@.map_values(|e: Entry| e@), author@) == p,
                None => !has_author(entries@.map_values(|e: Entry| e@), author@),
            },
    {
        let ghost es = entries@.map_values(|e: Entry| e@);
        let mut i: usize = 0;
        while i < entries.len()
            invariant
                i <= entries@.len(),
                es == entries@.map_values(|e: Entry| e@),
                sorted_by_author(es),
                forall|j: int| 0 <= j < i ==> es[j].author != author@,
            decreases entries@.len() - i,
        {
            if bytes32_eq(&entries[i].author, author) {
                proof {
                    assert(es[i as int].author == author@);
                    let q = author_pos(es, author@);
                    if q != i {
                        if q < i {
                            assert(seq_lt(es[q].author, es[i as int].author));
                        } else {
                            assert(seq_lt(es[i as int].author, es[q].author));
                        }
                        lemma_seq_lt_total(author@, author@);
                    }
                }
                return Some(i);
            }
            i = i + 1;
        }
        None
    }

    /// Refresh liveness for `author` in `ctx` without changing the slice; a
    /// missing entry is ignored.
    pub fn touch(&mut self, ctx: [u8; 32], author: [u8; 32], now_ms: u64)
        requires
            old(self).wf(),
        ensures
            final(self).wf(),
            forall|k: Seq<u8>| k != ctx@ ==> final(self).entries_of(k) == old(self).entries_of(k),
            final(self).entries_of(ctx@) == touched(old(self).entries_of(ctx@), author@, now_ms),
    {
        let ghost old_rows = self.rows@;
        if let Some(r) = self.find_row(&ctx) {
            proof {
                assert(row_entries(old_rows[r as int]) == entries_in(old_rows, ctx@));
            }
            match Self::find_entry(&self.rows[r].entries, &author) {
                None => {},
                Some(p) => {
                    let ContextRow { ctx: row_ctx, entries } = self.rows.remove(r);
                    let ghost old_es = entries@.map_values(|e: Entry| e@);
                    let mut entries = entries;
                    let slice = copy_bytes(&entries[p].slice);
                    let seq = entries[p].seq;
                    entries.set(p, Entry { author, slice, seq, last_seen_ms: now_ms });
                    let ghost new_es = entries@.map_values(|e: Entry| e@);
                    proof {
                        assert(new_es =~= old_es.update(
                            p as int,
                            PresenceEntry { last_seen_ms: now_ms, ..old_es[p as int] },
                        ));
                        assert forall|i: int, j: int| 0 <= i < j < new_es.len() implies seq_lt(
                            new_es[i].author,
                            new_es[j].author,
                        ) by {
                            assert(new_es[i].author == old_es[i].author);
                            assert(new_es[j].author == old_es[j].author);
                        }
                    }
                    self.rows.insert(r, ContextRow { ctx: row_ctx, entries });
                    proof {
                        let new_rows = self.rows@;
                        assert(new_rows =~= old_rows.update(r as int, new_rows[r as int]));
                        assert(row_keys(new_rows) =~= row_keys(old_rows));
                        lemma_index_of_key(row_keys(new_rows), ctx@, r as int);
                        assert forall|k: Seq<u8>| k != ctx@ implies entries_in(new_rows, k)
                            == entries_in(old_rows, k) by {
                            let oi = index_of_key(row_keys(old_rows), k);
                            if oi >= 0 {
                                assert(row_keys(old_rows)[oi] == k);
                            }
                        }
                        assert forall|i: int| 0 <= i < new_rows.len() implies {
                            let es = #[trigger] row_entries(new_rows[i]);
                            &&& es.len() > 0
                            &&& es.len() <= MAX_AUTHORS_PER_CONTEXT
                            &&& sorted_by_author(es)
                        } by {
                            if i != r {
                                assert(new_rows[i] == old_rows[i]);
                            }
                        }
                    }
                },
            }
        }
    }

    /// Remove row `r`, whose entries became empty.
    proof fn lemma_drop_row(old_rows: Seq<ContextRow>, r: int, ctx: Seq<u8>)
        requires
            keys_distinct(row_keys(old_rows)),
            0 <= r < old_rows.len(),
            old_rows[r].ctx@ == ctx,
        ensures
            keys_distinct(row_keys(old_rows.remove(r))),
            entries_in(old_rows.remove(r), ctx) == Seq::<PresenceEntry>::empty(),
            forall|k: Seq<u8>|
                k != ctx ==> entries_in(old_rows.remove(r), k) == entries_in(old_rows, k),
    {
        let new_rows = old_rows.remove(r);
        let nk = row_keys(new_rows);
        let ok = row_keys(old_rows);
        assert(ok[r] == ctx);
        assert(nk =~= ok.remove(r));
        assert forall|j: int| 0 <= j < nk.len() implies nk[j] != ctx by {
            if j < r {
                assert(nk[j] == ok[j]);
            } else {
                assert(nk[j] == ok[j + 1]);
            }
        }
        lemma_index_of_absent(nk, ctx);
        assert forall|k: Seq<u8>| k != ctx implies entries_in(new_rows, k) == entries_in(
            old_rows,
            k,
        ) by {
            let oi = index_of_key(ok, k);
            if oi >= 0 {
                assert(ok[oi] == k);
                if oi < r {
                    assert(nk[oi] == k);
                    lemma_index_of_key(nk, k, oi);
                } else {
                    assert(oi != r);
                    assert(nk[oi - 1] == k);
                    lemma_index_of_key(nk, k, oi - 1);
                }
            } else {
                assert forall|j: int| 0 <= j < nk.len() implies nk[j] != k by {
                    if j < r {
                        assert(nk[j] == ok[j]);
                    } else {
                        assert(nk[j] == ok[j + 1]);
                    }
                    if nk[j] == k {
                        assert(exists|x: int| 0 <= x < ok.len() && ok[x] == k);
                    }
                }
                lemma_index_of_absent(nk, k);
            }
        }
    }

    /// Replace row `r` by one with the same context and entries `new_es`.
    proof fn lemma_replace_row(old_rows: Seq<ContextRow>, new_rows: Seq<ContextRow>, r: int, ctx: Seq<u8>)
        requires
            keys_distinct(row_keys(old_rows)),
            0 <= r < old_rows.len(),
            old_rows[r].ctx@ == ctx,
            new_rows.len() == old_rows.len(),
            new_rows[r].ctx@ == ctx,
            forall|i: int| 0 <= i < old_rows.len() && i != r ==> new_rows[i] == old_rows[i],
        ensures
            keys_distinct(row_keys(new_rows)),
            entries_in(new_rows, ctx) == row_entries(new_rows[r]),
            forall|k: Seq<u8>| k != ctx ==> entries_in(new_rows, k) == entries_in(old_rows, k),
    {
        assert(row_keys(new_rows) =~= row_keys(old_rows));
        lemma_index_of_key(row_keys(new_rows), ctx, r);
        assert forall|k: Seq<u8>| k != ctx implies entries_in(new_rows, k) == entries_in(
            old_rows,
            k,
        ) by {
            let oi = index_of_key(row_keys(old_rows), k);
            if oi >= 0 {
                assert(row_keys(old_rows)[oi] == k);
            }
        }
    }

    /// Drop the entries of `ctx` whose `last_seen_ms` is at least `ttl_ms`
    /// older than `now_ms`; one `Remove` per dropped entry, in author order.
    pub fn sweep(&mut self, ctx: [u8; 32], ttl_ms: u64, now_ms: u64) -> (res: Vec<Diff>)
        requires
            old(self).wf(),
        ensures
            final(self).wf(),
            forall|k: Seq<u8>| k != ctx@ ==> final(self).entries_of(k) == old(self).entries_of(k),
            final(self).entries_of(ctx@) == live_entries(old(self).entries_of(ctx@), ttl_ms, now_ms),
            res@.map_values(|d: Diff| d@) == removals(
                old(self).entries_of(ctx@).filter(|e: PresenceEntry| expired(e, ttl_ms, now_ms)),
            ),
    {
        let ghost old_rows = self.rows@;
        let ghost keep = |e: PresenceEntry| !expired(e, ttl_ms, now_ms);
        let ghost drop = |e: PresenceEntry| expired(e, ttl_ms, now_ms);
        let mut removed: Vec<Diff> = Vec::new();
        match self.find_row(&ctx) {
            None => {
                proof {
                    let e = entries_in(old_rows, ctx@);
                    assert(e =~= Seq::<PresenceEntry>::empty());
                    assert(e.filter(keep) =~= e);
                    assert(e.filter(drop) =~= e);
                    assert(removed@.map_values(|d: Diff| d@) =~= removals(e.filter(drop)));
                }
                removed
            },
            Some(r) => {
                let ContextRow { ctx: row_ctx, entries } = self.rows.remove(r);
                let ghost old_es = entries@.map_values(|e: Entry| e@);
                proof {
                    assert(row_entries(old_rows[r as int]) == entries_in(old_rows, ctx@));
                    assert(old_es == row_entries(old_rows[r as int]));
                }
                let mut kept: Vec<Entry> = Vec::new();
                let mut i: usize = 0;
                while i < entries.len()
                    invariant
                        i <= entries@.len(),
                        old_es == entries@.map_values(|e: Entry| e@),
                        sorted_by_author(old_es),
                        old_es.len() <= MAX_AUTHORS_PER_CONTEXT,
                        keep == (|e: PresenceEntry| !expired(e, ttl_ms, now_ms)),
                        drop == (|e: PresenceEntry| expired(e, ttl_ms, now_ms)),
                        kept@.map_values(|e: Entry| e@) == old_es.take(i as int).filter(keep),
                        removed@.map_values(|d: Diff| d@) == removals(
                            old_es.take(i as int).filter(drop),
                        ),
                        forall|j: int|
                            0 <= j < kept@.len() ==> exists|k: int|
                                0 <= k < i && (#[trigger] kept@[j]@).author == old_es[k].author,
                    decreases entries@.len() - i,
                {
                    let last_seen = entries[i].last_seen_ms;
                    let age_now = if now_ms >= last_seen {
                        now_ms - last_seen
                    } else {
                        0
                    };
                    let ghost kept_before = kept@;
                    proof {
                        assert(old_es.take(i as int + 1) =~= old_es.take(i as int).push(old_es[i as int]));
                        old_es.take(i as int).lemma_filter_push(old_es[i as int], keep);
                        old_es.take(i as int).lemma_filter_push(old_es[i as int], drop);
                    }
                    if age_now >= ttl_ms {
                        let ghost removed_before = removed@;
                        removed.push(Diff::Remove { author: entries[i].author });
                        proof {
                            assert(old_es.take(i as int + 1).filter(drop) == old_es.take(
                                i as int,
                            ).filter(drop).push(old_es[i as int]));
                            assert(removed@ == removed_before.push(Diff::Remove { author: entries@[i as int].author }));
                            let f0 = old_es.take(i as int).filter(drop);
                            let dv = DiffView::Remove { author: old_es[i as int].author };
                            assert(old_es[i as int] == entries@[i as int]@);
                            assert(removals(f0.push(old_es[i as int])) =~= removals(f0).push(dv));
                            assert(removed@.map_values(|d: Diff| d@) =~= removed_before.map_values(
                                |d: Diff| d@,
                            ).push(dv));
                            assert(removed@.map_values(|d: Diff| d@) =~= removals(
                                old_es.take(i as int + 1).filter(drop),
                            ));
                        }
                    } else {
                        let slice = copy_bytes(&entries[i].slice);
                        let e = Entry {
                            author: entries[i].author,
                            slice,
                            seq: entries[i].seq,
                            last_seen_ms: last_seen,
                        };
                        kept.push(e);
                        proof {
                            assert(kept@.map_values(|e: Entry| e@) =~= old_es.take(i as int + 1).filter(
                                keep,
                            ));
                            assert forall|j: int| 0 <= j < kept@.len() implies exists|k: int|
                                0 <= k < i + 1 && (#[trigger] kept@[j]@).author
                                    == old_es[k].author by {
                                if j < kept_before.len() {
                                    assert(kept@[j] == kept_before[j]);
                                } else {
                                    assert(kept@[j]@.author == old_es[i as int].author);
                                }
                            }
                        }
                    }
                    i = i + 1;
                }
                proof {
                    assert(old_es.take(old_es.len() as int) =~= old_es);
                }
                let ghost new_es = kept@.map_values(|e: Entry| e@);
                proof {
                    assert(sorted_by_author(new_es)) by {
                        // kept is the order-preserving filter of a sorted sequence
                        lemma_filter_sorted(old_es, keep);
                    }
                    old_es.lemma_filter_len(keep);
                }
                if kept.len() == 0 {
                    proof {
                        Self::lemma_drop_row(old_rows, r as int, ctx@);
                        assert(self.rows@ =~= old_rows.remove(r as int));
                        assert(new_es =~= Seq::<PresenceEntry>::empty());
                        assert forall|x: int| 0 <= x < self.rows@.len() implies {
                            let es = #[trigger] row_entries(self.rows@[x]);
                            &&& es.len() > 0
                            &&& es.len() <= MAX_AUTHORS_PER_CONTEXT
                            &&& sorted_by_author(es)
                        } by {
                            if x < r {
                                assert(self.rows@[x] == old_rows[x]);
                            } else {
                                assert(self.rows@[x] == old_rows[x + 1]);
                            }
                        }
                    }
                } else {
                    self.rows.insert(r, ContextRow { ctx: row_ctx, entries: kept });
                    proof {
                        let new_rows = self.rows@;
                        Self::lemma_replace_row(old_rows, new_rows, r as int, ctx@);
                        assert forall|x: int| 0 <= x < new_rows.len() implies {
                            let es = #[trigger] row_entries(new_rows[x]);
                            &&& es.len() > 0
                            &&& es.len() <= MAX_AUTHORS_PER_CONTEXT
                            &&& sorted_by_author(es)
                        } by {
                            if x != r {
                                assert(new_rows[x] == old_rows[x]);
                            } else {
                                assert(row_entries(new_rows[x]) == new_es);
                            }
                        }
                    }
                }
                removed
            },
        }
    }

    /// Live slices for `ctx` in author order, each with how long ago its
    /// author was last heard from (`now_ms - last_seen_ms`, saturating).
    pub fn snapshot(&self, ctx: [u8; 32], now_ms: u64) -> (res: Vec<([u8; 32], Vec<u8>, u64)>)
        requires
            self.wf(),
        ensures
            res@.len() == self.entries_of(ctx@).len(),
            forall|i: int|
                0 <= i < res@.len() ==> {
                    let e = self.entries_of(ctx@)[i];
                    &&& (#[trigger] res@[i]).0@ == e.author
                    &&& res@[i].1@ == e.slice
                    &&& res@[i].2 == age(now_ms, e.last_seen_ms)
                },
    {
        let mut out: Vec<([u8; 32], Vec<u8>, u64)> = Vec::new();
        match self.find_row(&ctx) {
            None => {
                out
            },
            Some(r) => {
                let entries = &self.rows[r].entries;
                let ghost es = entries@.map_values(|e: Entry| e@);
                proof {
                    assert(es == self.entries_of(ctx@));
                }
                let mut i: usize = 0;
                while i < entries.len()
                    invariant
                        i <= entries@.len(),
                        es == entries@.map_values(|e: Entry| e@),
                        out@.len() == i,
                        forall|j: int|
                            0 <= j < i ==> {
                                let e = es[j];
                                &&& (#[trigger] out@[j]).0@ == e.author
                                &&& out@[j].1@ == e.slice
                                &&& out@[j].2 == age(now_ms, e.last_seen_ms)
                            },
                    decreases entries@.len() - i,
                {
                    let last = entries[i].last_seen_ms;
                    let a = if now_ms >= last {
                        now_ms - last
                    } else {
                        0
                    };
                    out.push((entries[i].author, copy_bytes(&entries[i].slice), a));
                    i = i + 1;
                }
                out
            },
        }
    }

    /// Every context currently holding at least one entry, each once.
    pub fn contexts(&self) -> (res: Vec<[u8; 32]>)
        requires
            self.wf(),
        ensures
            forall|k: Seq<u8>|
                (exists|i: int| 0 <= i < res@.len() && res@[i]@ == k) <==> self.entries_of(k).len()
                    > 0,
            forall|i: int, j: int| 0 <= i < j < res@.len() ==> res@[i]@ != res@[j]@,
    {
        let mut out: Vec<[u8; 32]> = Vec::new();
        let mut i: usize = 0;
        while i < self.rows.len()
            invariant
                self.wf(),
                i <= self.rows@.len(),
                out@.len() == i,
                forall|j: int| 0 <= j < i ==> (#[trigger] out@[j])@ == self.rows@[j].ctx@,
            decreases self.rows@.len() - i,
        {
            out.push(self.rows[i].ctx);
            i = i + 1;
        }
        proof {
            let keys = row_keys(self.rows@);
            assert forall|k: Seq<u8>| (exists|i: int| 0 <= i < out@.len() && out@[i]@ == k)
                <==> self.entries_of(k).len() > 0 by {
                if exists|i: int| 0 <= i < out@.len() && out@[i]@ == k {
                    let i = choose|i: int| 0 <= i < out@.len() && out@[i]@ == k;
                    assert(keys[i] == k);
                    lemma_index_of_key(keys, k, i);
                    assert(row_entries(self.rows@[i]).len() > 0);
                } else {
                    assert forall|j: int| 0 <= j < keys.len() implies keys[j] != k by {
                        assert(out@[j]@ == keys[j]);
                    }
                    lemma_index_of_absent(keys, k);
                }
            }
            assert forall|i: int, j: int| 0 <= i < j < out@.len() implies out@[i]@ != out@[j]@ by {
                assert(keys[i] == out@[i]@);
                assert(keys[j] == out@[j]@);
            }
        }
        out
    }

    /// Explicitly remove `author` from `ctx`: `Some(Remove)` when it was
    /// present, `None` (and no change) otherwise.
    pub fn remove_author(&mut self, ctx: [u8; 32], author: [u8; 32]) -> (res: Option<Diff>)
        requires
            old(self).wf(),
        ensures
            final(self).wf(),
            forall|k: Seq<u8>| k != ctx@ ==> final(self).entries_of(k) == old(self).entries_of(k),
            has_author(old(self).entries_of(ctx@), author@) ==> {
                &&& final(self).entries_of(ctx@) == old(self).entries_of(ctx@).remove(
                    author_pos(old(self).entries_of(ctx@), author@),
                )
                &&& res matches Some(d) && d@ == DiffView::Remove { author: author@ }
            },
            !has_author(old(self).entries_of(ctx@), author@) ==> {
                &&& final(self).entries_of(ctx@) == old(self).entries_of(ctx@)
                &&& res is None
            },
    {
        let ghost old_rows = self.rows@;
        match self.find_row(&ctx) {
            None => {
                proof {
                    assert(entries_in(old_rows, ctx@) =~= Seq::<PresenceEntry>::empty());
                }
                None
            },
            Some(r) => {
                proof {
                    assert(row_entries(old_rows[r as int]) == entries_in(old_rows, ctx@));
                }
                match Self::find_entry(&self.rows[r].entries, &author) {
                    None => None,
                    Some(p) => {
                        let ContextRow { ctx: row_ctx, entries } = self.rows.remove(r);
                        let ghost old_es = entries@.map_values(|e: Entry| e@);
                        let mut entries = entries;
                        let _gone = entries.remove(p);
                        let ghost new_es = entries@.map_values(|e: Entry| e@);
                        proof {
                            assert(new_es =~= old_es.remove(p as int));
                            assert forall|i: int, j: int| 0 <= i < j < new_es.len() implies seq_lt(
                                new_es[i].author,
                                new_es[j].author,
                            ) by {
                                if j < p {
                                } else if i < p {
                                    assert(new_es[j] == old_es[j + 1]);
                                } else {
                                    assert(new_es[i] == old_es[i + 1]);
                                    assert(new_es[j] == old_es[j + 1]);
                                }
                            }
                        }
                        if entries.len() == 0 {
                            proof {
                                Self::lemma_drop_row(old_rows, r as int, ctx@);
                                assert(self.rows@ =~= old_rows.remove(r as int));
                                assert(new_es =~= Seq::<PresenceEntry>::empty());
                                assert forall|x: int| 0 <= x < self.rows@.len() implies {
                                    let es = #[trigger] row_entries(self.rows@[x]);
                                    &&& es.len() > 0
                                    &&& es.len() <= MAX_AUTHORS_PER_CONTEXT
                                    &&& sorted_by_author(es)
                                } by {
                                    if x < r {
                                        assert(self.rows@[x] == old_rows[x]);
                                    } else {
                                        assert(self.rows@[x] == old_rows[x + 1]);
                                    }
                                }
                            }
                        } else {
                            self.rows.insert(r, ContextRow { ctx: row_ctx, entries });
                            proof {
                                let new_rows = self.rows@;
                                Self::lemma_replace_row(old_rows, new_rows, r as int, ctx@);
                                assert forall|x: int| 0 <= x < new_rows.len() implies {
                                    let es = #[trigger] row_entries(new_rows[x]);
                                    &&& es.len() > 0
                                    &&& es.len() <= MAX_AUTHORS_PER_CONTEXT
                                    &&& sorted_by_author(es)
                                } by {
                                    if x != r {
                                        assert(new_rows[x] == old_rows[x]);
                                    } else {
                                        assert(row_entries(new_rows[x]) == new_es);
                                    }
                                }
                            }
                        }
                        Some(Diff::Remove { author })
                    },
                }
            },
        }
    }
}

impl Default for AwarenessStore {
    fn default() -> (s: Self)
        ensures
            s.wf(),
            forall|ctx: Seq<u8>| s.entries_of(ctx) == Seq::<PresenceEntry>::empty(),
    {
        Self::new()
    }
}

// ---------------------------------------------------------------------------
// Laws
// ---------------------------------------------------------------------------

/// In entries sorted by author, an author occurs at one position only.
proof fn lemma_author_unique(es: Seq<PresenceEntry>, i: int, j: int)
    requires
        sorted_by_author(es),
        0 <= i < es.len(),
        0 <= j < es.len(),
        es[i].author == es[j].author,
    ensures
        i == j,
{
    if i < j {
        assert(seq_lt(es[i].author, es[j].author));
    } else if j < i {
        assert(seq_lt(es[j].author, es[i].author));
    }
}

/// A write is read back: when `apply` takes an update (a seq above the one
/// held for `author`, or a new author in a context below the cap), the
/// context then holds one entry for `author`, with the written slice and seq
/// and `now_ms` as its last-seen time.
pub proof fn lemma_apply_then_read(
    before: AwarenessStore,
    after: AwarenessStore,
    ctx: Seq<u8>,
    res: Option<DiffView>,
    author: Seq<u8>,
    seq: u64,
    slice: Seq<u8>,
    now_ms: u64,
)
    requires
        before.wf(),
        after.wf(),
        applied(before.entries_of(ctx), after.entries_of(ctx), res, author, seq, slice, now_ms),
        has_author(before.entries_of(ctx), author) ==> before.entries_of(ctx)[author_pos(
            before.entries_of(ctx),
            author,
        )].seq < seq,
        !has_author(before.entries_of(ctx), author) ==> before.entries_of(ctx).len()
            < MAX_AUTHORS_PER_CONTEXT,
    ensures
        has_author(after.entries_of(ctx), author),
        after.entries_of(ctx)[author_pos(after.entries_of(ctx), author)] == (PresenceEntry {
            author,
            slice,
            seq,
            last_seen_ms: now_ms,
        }),
{
    let old_es = before.entries_of(ctx);
    let new_es = after.entries_of(ctx);
    before.lemma_wf_entries(ctx);
    after.lemma_wf_entries(ctx);
    let w: int = if has_author(old_es, author) {
        author_pos(old_es, author)
    } else {
        choose|p: int|
            is_insert_point(old_es, author, p) && new_es == old_es.insert(
                p,
                PresenceEntry { author, slice, seq, last_seen_ms: now_ms },
            )
    };
    assert(new_es[w].author == author);
    assert(has_author(new_es, author));
    let j = author_pos(new_es, author);
    lemma_author_unique(new_es, j, w);
}

/// Last writer wins: an update whose seq is not above the one held for its
/// author changes nothing and reports nothing.
pub proof fn lemma_stale_apply_is_ignored(
    before: Seq<PresenceEntry>,
    after: Seq<PresenceEntry>,
    res: Option<DiffView>,
    author: Seq<u8>,
    seq: u64,
    slice: Seq<u8>,
    now_ms: u64,
)
    requires
        applied(before, after, res, author, seq, slice, now_ms),
        has_author(before, author),
        seq <= before[author_pos(before, author)].seq,
    ensures
        after == before,
        res is None,
{
}

/// Re-sending the same bytes under a higher seq pushes no diff; the entry's
/// seq and last-seen time still move forward (see [`lemma_apply_then_read`]).
pub proof fn lemma_same_bytes_no_diff(
    before: Seq<PresenceEntry>,
    after: Seq<PresenceEntry>,
    res: Option<DiffView>,
    author: Seq<u8>,
    seq: u64,
    slice: Seq<u8>,
    now_ms: u64,
)
    requires
        applied(before, after, res, author, seq, slice, now_ms),
        has_author(before, author),
        before[author_pos(before, author)].seq < seq,
        before[author_pos(before, author)].slice == slice,
    ensures
        res is None,
        after == before.update(
            author_pos(before, author),
            PresenceEntry { author, slice, seq, last_seen_ms: now_ms },
        ),
{
}

/// A context never grows past the cap: `apply` on a context at the cap
/// leaves its number of authors unchanged.
pub proof fn lemma_apply_respects_cap(
    before: Seq<PresenceEntry>,
    after: Seq<PresenceEntry>,
    res: Option<DiffView>,
    author: Seq<u8>,
    seq: u64,
    slice: Seq<u8>,
    now_ms: u64,
)
    requires
        applied(before, after, res, author, seq, slice, now_ms),
        before.len() <= MAX_AUTHORS_PER_CONTEXT,
    ensures
        after.len() <= MAX_AUTHORS_PER_CONTEXT,
        before.len() == MAX_AUTHORS_PER_CONTEXT ==> after.len() == before.len(),
{
    if !has_author(before, author) && before.len() < MAX_AUTHORS_PER_CONTEXT {
        let p = choose|p: int|
            is_insert_point(before, author, p) && after == before.insert(
                p,
                PresenceEntry { author, slice, seq, last_seen_ms: now_ms },
            );
        assert(after.len() == before.len() + 1);
    }
}

/// Removal diffs once: after `remove_author` took `author` out of `ctx`,
/// the context no longer holds it, so a second removal reports nothing.
pub proof fn lemma_remove_author_diffs_once(
    before: AwarenessStore,
    after: AwarenessStore,
    ctx: Seq<u8>,
    author: Seq<u8>,
)
    requires
        before.wf(),
        has_author(before.entries_of(ctx), author),
        after.entries_of(ctx) == before.entries_of(ctx).remove(
            author_pos(before.entries_of(ctx), author),
        ),
    ensures
        !has_author(after.entries_of(ctx), author),
{
    let es = before.entries_of(ctx);
    let p = author_pos(es, author);
    before.lemma_wf_entries(ctx);
    if has_author(after.entries_of(ctx), author) {
        let j = author_pos(after.entries_of(ctx), author);
        let k = if j < p {
            j
        } else {
            j + 1
        };
        assert(es[k].author == author);
        lemma_author_unique(es, k, p);
    }
}

/// Touch extends liveness: an author touched at `touched_ms` survives every
/// sweep whose `now_ms` is less than `ttl_ms` after it.
pub proof fn lemma_touch_extends_liveness(
    before: AwarenessStore,
    ctx: Seq<u8>,
    author: Seq<u8>,
    touched_ms: u64,
    ttl_ms: u64,
    now_ms: u64,
)
    requires
        before.wf(),
        has_author(before.entries_of(ctx), author),
        age(now_ms, touched_ms) < ttl_ms,
    ensures
        has_author(live_entries(touched(before.entries_of(ctx), author, touched_ms), ttl_ms, now_ms), author),
{
    let es = touched(before.entries_of(ctx), author, touched_ms);
    let keep = |e: PresenceEntry| !expired(e, ttl_ms, now_ms);
    let i = author_pos(before.entries_of(ctx), author);
    assert(es[i].author == author && es[i].last_seen_ms == touched_ms);
    assert(keep(es[i]));
    es.lemma_filter_contains(keep, i);
    let f = es.filter(keep);
    let k = choose|k: int| 0 <= k < f.len() && f[k] == es[i];
    assert(f[k].author == author);
}

/// A sweep keeps exactly the live entries: nothing it keeps has expired, and
/// every entry that has not expired is kept.
pub proof fn lemma_sweep_keeps_exactly_live(es: Seq<PresenceEntry>, ttl_ms: u64, now_ms: u64)
    ensures
        forall|i: int|
            0 <= i < live_entries(es, ttl_ms, now_ms).len() ==> !expired(
                #[trigger] live_entries(es, ttl_ms, now_ms)[i],
                ttl_ms,
                now_ms,
            ),
        forall|i: int|
            0 <= i < es.len() && !expired(es[i], ttl_ms, now_ms) ==> live_entries(
                es,
                ttl_ms,
                now_ms,
            ).contains(#[trigger] es[i]),
{
    let keep = |e: PresenceEntry| !expired(e, ttl_ms, now_ms);
    assert forall|i: int| 0 <= i < live_entries(es, ttl_ms, now_ms).len() implies !expired(
        #[trigger] live_entries(es, ttl_ms, now_ms)[i],
        ttl_ms,
        now_ms,
    ) by {
        es.lemma_filter_pred(keep, i);
    }
    assert forall|i: int| 0 <= i < es.len() && !expired(es[i], ttl_ms, now_ms) implies live_entries(
        es,
        ttl_ms,
        now_ms,
    ).contains(#[trigger] es[i]) by {
        es.lemma_filter_contains(keep, i);
    }
}

/// In sorted entries, touching refreshes exactly the entry of its author.
pub proof fn lemma_touched_entrywise(es: Seq<PresenceEntry>, author: Seq<u8>, now_ms: u64)
    requires
        sorted_by_author(es),
    ensures
        touched(es, author, now_ms) == es.map_values(
            |e: PresenceEntry|
                if e.author == author {
                    PresenceEntry { last_seen_ms: now_ms, ..e }
                } else {
                    e
                },
        ),
{
    let m = es.map_values(
        |e: PresenceEntry|
            if e.author == author {
                PresenceEntry { last_seen_ms: now_ms, ..e }
            } else {
                e
            },
    );
    if has_author(es, author) {
        let i = author_pos(es, author);
        assert forall|j: int| 0 <= j < es.len() && j != i implies es[j].author != author by {
            if es[j].author == author {
                lemma_author_unique(es, i, j);
            }
        }
        assert(touched(es, author, now_ms) =~= m);
    } else {
        assert(touched(es, author, now_ms) =~= m);
    }
}

/// An author this node publishes for, touched right before the sweep, keeps
/// its entry through that sweep (any positive TTL), stamped `now_ms`.
pub proof fn lemma_touched_author_survives_sweep(
    before: AwarenessStore,
    pairs: Seq<(Seq<u8>, Seq<u8>)>,
    ctx: Seq<u8>,
    author: Seq<u8>,
    ttl_ms: u64,
    now_ms: u64,
)
    requires
        before.wf(),
        ttl_ms > 0,
        pairs.contains((ctx, author)),
        has_author(before.entries_of(ctx), author),
    ensures
        ({
            let live = live_entries(touched_all(before.entries_of(ctx), pairs, ctx, now_ms), ttl_ms, now_ms);
            &&& has_author(live, author)
            &&& live[author_pos(live, author)].last_seen_ms == now_ms
        }),
{
    let es = before.entries_of(ctx);
    before.lemma_wf_entries(ctx);
    let t = touched_all(es, pairs, ctx, now_ms);
    let keep = |e: PresenceEntry| !expired(e, ttl_ms, now_ms);
    let live = t.filter(keep);
    assert(sorted_by_author(t));
    lemma_filter_sorted(t, keep);
    let i = author_pos(es, author);
    assert(t[i].author == author && t[i].last_seen_ms == now_ms);
    assert(keep(t[i]));
    t.lemma_filter_contains(keep, i);
    let k = choose|k: int| 0 <= k < live.len() && live[k] == t[i];
    assert(live[k].author == author);
    assert(has_author(live, author));
    let p = author_pos(live, author);
    lemma_author_unique(live, p, k);
}

/// Filtering keeps a sorted sequence sorted.
proof fn lemma_filter_sorted(es: Seq<PresenceEntry>, pred: spec_fn(PresenceEntry) -> bool)
    requires
        sorted_by_author(es),
    ensures
        sorted_by_author(es.filter(pred)),
    decreases es.len(),
{
    reveal(Seq::filter);
    if es.len() > 0 {
        let init = es.drop_last();
        assert(sorted_by_author(init));
        lemma_filter_sorted(init, pred);
        assert(es =~= init.push(es.last()));
        init.lemma_filter_push(es.last(), pred);
        if pred(es.last()) {
            let f = init.filter(pred);
            assert forall|i: int| 0 <= i < f.len() implies seq_lt(f[i].author, es.last().author) by {
                assert(f.contains(f[i]));
                init.lemma_filter_contains_rev(pred, f[i]);
                let k = choose|k: int| 0 <= k < init.len() && init[k] == f[i];
                assert(init[k] == es[k]);
            }
        }
    }
}

} // verus!
