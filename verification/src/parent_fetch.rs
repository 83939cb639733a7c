//! The fetch of a delta's missing parents from the peer that sent it: the
//! requests go out breadth first, each admitted delta's own missing parents
//! joining the next round, and the fetched deltas are then added to the DAG
//! parents first; the result is the events of every delta those additions
//! cascaded, in the order of the additions.
use vstd::prelude::*;

use crate::bytes::{contains32, views32};
use crate::delta_auth::{GroupIdCheck, MembershipStatus};
use crate::delta_flow::{parent_fetch_admission, parent_fetch_verdict, queue_missing_parents, queued_after};

verus! {

/// Among the fetched deltas, the one at `a` names the one at `b` as a parent.
pub open spec fn names_parent(ids: Seq<[u8; 32]>, parents: Seq<Vec<[u8; 32]>>, a: int, b: int) -> bool {
    views32(parents[a]@).contains(ids[b]@)
}

/// `order` lists each of `0..n` exactly once.
pub open spec fn is_permutation(order: Seq<usize>, n: nat) -> bool {
    &&& order.len() == n
    &&& forall|i: int| 0 <= i < n ==> #[trigger] order[i] < n
    &&& forall|i: int, j: int| 0 <= i < j < n ==> order[i] != order[j]
}

/// The delta at position `p` of `order` names some other delta at `k..` as a
/// parent.
pub open spec fn has_parent_from(
    ids: Seq<[u8; 32]>,
    parents: Seq<Vec<[u8; 32]>>,
    order: Seq<usize>,
    k: int,
    p: int,
) -> bool {
    exists|q: int|
        k <= q < order.len() && q != p && #[trigger] names_parent(
            ids,
            parents,
            order[p] as int,
            order[q] as int,
        )
}

/// From position `k` of `order` on, every delta names another delta from
/// there on as a parent: the parent links among them go round in circles,
/// so no order of them puts every parent first.
pub open spec fn circular_from(
    ids: Seq<[u8; 32]>,
    parents: Seq<Vec<[u8; 32]>>,
    order: Seq<usize>,
    k: int,
) -> bool {
    forall|p: int| k <= p < order.len() ==> #[trigger] has_parent_from(ids, parents, order, k, p)
}

/// The delta at position `p` of `order` names none of the deltas at `k..`
/// (other than itself) as a parent.
pub open spec fn ready_at(
    ids: Seq<[u8; 32]>,
    parents: Seq<Vec<[u8; 32]>>,
    order: Seq<usize>,
    k: int,
    p: int,
) -> bool {
    forall|q: int|
        k <= q < order.len() && q != p ==> !#[trigger] names_parent(
            ids,
            parents,
            order[p] as int,
            order[q] as int,
        )
}

fn is_ready(
    ids: &Vec<[u8; 32]>,
    parents: &Vec<Vec<[u8; 32]>>,
    order: &Vec<usize>,
    k: usize,
    p: usize,
) -> (res: bool)
    requires
        ids@.len() == parents@.len(),
        is_permutation(order@, ids@.len()),
        k <= p < order@.len(),
    ensures
        res == ready_at(ids@, parents@, order@, k as int, p as int),
{
    let n = order.len();
    let mut q = k;
    while q < n
        invariant
            ids@.len() == parents@.len(),
            is_permutation(order@, ids@.len()),
            n == order@.len(),
            k <= p < n,
            k <= q <= n,
            forall|s: int|
                k <= s < q && s != p ==> !#[trigger] names_parent(
                    ids@,
                    parents@,
                    order@[p as int] as int,
                    order@[s] as int,
                ),
        decreases n - q,
    {
        if q != p && contains32(&parents[order[p]], &ids[order[q]]) {
            assert(names_parent(ids@, parents@, order@[p as int] as int, order@[q as int] as int));
            return false;
        }
        q = q + 1;
    }
    true
}

proof fn lemma_none_ready_is_circular(
    ids: Seq<[u8; 32]>,
    parents: Seq<Vec<[u8; 32]>>,
    order: Seq<usize>,
    k: int,
)
    requires
        forall|s: int| k <= s < order.len() ==> !#[trigger] ready_at(ids, parents, order, k, s),
    ensures
        circular_from(ids, parents, order, k),
{
    assert forall|x: int| k <= x < order.len() implies #[trigger] has_parent_from(
        ids,
        parents,
        order,
        k,
        x,
    ) by {
        assert(!ready_at(ids, parents, order, k, x));
        let q = choose|q: int|
            !(k <= q < order.len() && q != x ==> !names_parent(
                ids,
                parents,
                order[x] as int,
                order[q] as int,
            ));
        assert(names_parent(ids, parents, order[x] as int, order[q] as int));
    }
}

/// The order in which to add fetched deltas (`ids[i]` names the parents
/// `parents[i]`): each delta exactly once, and a delta comes before every
/// delta that names it as a parent. Where the parent links among some of
/// them go round in circles, those come last, in fetch order.
pub fn topological_add_order(ids: &Vec<[u8; 32]>, parents: &Vec<Vec<[u8; 32]>>) -> (order: Vec<
    usize,
>)
    requires
        ids@.len() == parents@.len(),
    ensures
        is_permutation(order@, ids@.len()),
        forall|i: int, j: int|
            0 <= i < j < order@.len() && names_parent(
                ids@,
                parents@,
                order@[i] as int,
                order@[j] as int,
            ) ==> exists|k: int| 0 <= k <= i && circular_from(ids@, parents@, order@, k),
{
    let n = ids.len();
    let mut order: Vec<usize> = Vec::new();
    let mut i: usize = 0;
    while i < n
        invariant
            i <= n,
            n == ids@.len(),
            order@.len() == i,
            forall|a: int| 0 <= a < i ==> order@[a] == a,
        decreases n - i,
    {
        order.push(i);
        i = i + 1;
    }
    // Positions `..k` are settled: none of them names a later delta as a parent.
    let mut k: usize = 0;
    let mut stuck = false;
    while !stuck && k < n
        invariant
            n == ids@.len(),
            n == parents@.len(),
            is_permutation(order@, n as nat),
            k <= n,
            forall|a: int, b: int|
                0 <= a < k && a < b < n ==> !#[trigger] names_parent(
                    ids@,
                    parents@,
                    order@[a] as int,
                    order@[b] as int,
                ),
            stuck ==> circular_from(ids@, parents@, order@, k as int),
        decreases n - k, if stuck {
            0int
        } else {
            1int
        },
    {
        let mut p = k;
        let mut found = false;
        while p < n && !found
            invariant
                n == ids@.len(),
                n == parents@.len(),
                is_permutation(order@, n as nat),
                k < n,
                k <= p <= n,
                found ==> p < n && ready_at(ids@, parents@, order@, k as int, p as int),
                !found ==> forall|s: int|
                    k <= s < p ==> !#[trigger] ready_at(ids@, parents@, order@, k as int, s),
            decreases n - p, if found {
                0int
            } else {
                1int
            },
        {
            if is_ready(ids, parents, &order, k, p) {
                found = true;
            } else {
                p = p + 1;
            }
        }
        if found {
            let ghost before = order@;
            let a = order[k];
            let b = order[p];
            order.set(k, b);
            order.set(p, a);
            proof {
                assert forall|x: int, y: int| 0 <= x < y < n implies order@[x] != order@[y] by {
                    assert(before[x] != before[y] || x == y);
                    if x == k as int && y == p as int {
                    } else if x == k as int {
                        assert(before[p as int] != before[y]);
                    } else if y == p as int {
                        assert(before[k as int] != before[x]);
                    } else if x == p as int {
                        assert(before[k as int] != before[y]);
                    } else if y == k as int {
                        assert(before[p as int] != before[x]);
                    }
                }
                assert forall|x: int, y: int|
                    0 <= x < k + 1 && x < y < n implies !#[trigger] names_parent(
                    ids@,
                    parents@,
                    order@[x] as int,
                    order@[y] as int,
                ) by {
                    if x == k as int {
                        if y == p as int {
                            assert(!names_parent(ids@, parents@, before[p as int] as int, before[k as int] as int));
                        } else {
                            assert(!names_parent(ids@, parents@, before[p as int] as int, before[y] as int));
                        }
                    } else {
                        if y == p as int {
                            assert(!names_parent(ids@, parents@, before[x] as int, before[k as int] as int));
                        } else if y == k as int {
                            assert(!names_parent(ids@, parents@, before[x] as int, before[p as int] as int));
                        } else {
                            assert(!names_parent(ids@, parents@, before[x] as int, before[y] as int));
                        }
                    }
                }
            }
            k = k + 1;
        } else {
            proof {
                lemma_none_ready_is_circular(ids@, parents@, order@, k as int);
            }
            stuck = true;
        }
    }
    proof {
        if !stuck {
            assert(k == n);
        }
        assert forall|i: int, j: int|
            0 <= i < j < order@.len() && names_parent(
                ids@,
                parents@,
                order@[i] as int,
                order@[j] as int,
            ) implies exists|k2: int| 0 <= k2 <= i && circular_from(ids@, parents@, order@, k2) by {
            if i < k {
                assert(!names_parent(ids@, parents@, order@[i] as int, order@[j] as int));
            } else {
                assert(circular_from(ids@, parents@, order@, k as int));
            }
        }
    }
    order
}

/// What the peer sent for the requested id, with the lookups made for it.
pub struct FetchedParent<R> {
    pub delta_id: [u8; 32],
    /// The author is the genesis sentinel: the delta is taken as it is, and
    /// its parents are not followed.
    pub genesis_sentinel: bool,
    /// The governance position's blob decoded (or there was none).
    pub position_decoded: bool,
    /// `None` for a delta without an envelope signature.
    pub signature_ok: Option<bool>,
    pub group_check: GroupIdCheck,
    pub read_only: Result<bool, ()>,
    /// The author's membership at the position, when there is one.
    pub membership: Option<Result<MembershipStatus<R>, ()>>,
    pub parents: Vec<[u8; 32]>,
    /// `held[i]`: the local delta store holds `parents[i]` already.
    pub held: Vec<bool>,
}

/// What the caller found.
pub enum FetchEvent<R> {
    Begin,
    /// The peer sent a delta for the pending request.
    Found(FetchedParent<R>),
    /// The peer does not have it, or answered something else.
    NotFound,
    /// Sending or receiving failed: the fetch stops with an error.
    StreamFailed,
    /// The addition went through; the events of the deltas it cascaded.
    Added(Vec<([u8; 32], Vec<u8>)>),
    /// The addition failed; it is skipped.
    AddFailed,
}

/// What the caller does next.
#[derive(Debug)]
pub enum FetchAction {
    /// Ask the peer for this delta.
    Request([u8; 32]),
    /// Add the fetched delta with this index (in fetch order) to the DAG.
    Add(usize),
    /// Done: the cascaded events of all additions, in the order they were
    /// added.
    Finish(Vec<([u8; 32], Vec<u8>)>),
    /// The stream failed, or an event came that answers nothing pending.
    Failed,
}

/// Where a fetch stands.
#[derive(Debug, PartialEq, Eq, Clone, Copy, Structural)]
pub enum FetchPhase {
    Start,
    Fetching,
    Adding,
    Done,
}

/// A fetch, as the contracts see it.
pub struct FetchView {
    pub phase: FetchPhase,
    /// The id of the pending request.
    pub pending: Seq<u8>,
    /// The rest of the current round of requests, front first.
    pub batch: Seq<Seq<u8>>,
    /// The next round.
    pub next: Seq<Seq<u8>>,
    /// The admitted deltas, in fetch order, and their parents.
    pub ids: Seq<[u8; 32]>,
    pub parents: Seq<Vec<[u8; 32]>>,
    /// The add order, and how many of it were added.
    pub order: Seq<usize>,
    pub added: nat,
    /// The cascaded events gathered so far.
    pub cascaded: Seq<([u8; 32], Vec<u8>)>,
}

/// An action, as the contracts see it.
pub enum FetchStep {
    Request(Seq<u8>),
    Add(usize),
    Finish(Seq<([u8; 32], Vec<u8>)>),
    Failed,
}

impl View for FetchAction {
    type V = FetchStep;

    open spec fn view(&self) -> FetchStep {
        match self {
            FetchAction::Request(id) => FetchStep::Request(id@),
            FetchAction::Add(i) => FetchStep::Add(*i),
            FetchAction::Finish(evs) => FetchStep::Finish(evs@),
            FetchAction::Failed => FetchStep::Failed,
        }
    }
}

/// Stop, handing out the gathered events.
pub open spec fn fetch_finish(m: FetchView) -> (FetchView, FetchStep) {
    (FetchView { phase: FetchPhase::Done, cascaded: Seq::empty(), ..m }, FetchStep::Finish(m.cascaded))
}

/// Stop with an error.
pub open spec fn fetch_fail(m: FetchView) -> (FetchView, FetchStep) {
    (FetchView { phase: FetchPhase::Done, ..m }, FetchStep::Failed)
}

/// The next request, or, when no request is left, the additions in `order`.
pub open spec fn fetch_advance(m: FetchView, order: Seq<usize>) -> (FetchView, FetchStep) {
    if m.batch.len() > 0 {
        (
            FetchView {
                phase: FetchPhase::Fetching,
                pending: m.batch[0],
                batch: m.batch.drop_first(),
                ..m
            },
            FetchStep::Request(m.batch[0]),
        )
    } else if m.next.len() > 0 {
        (
            FetchView {
                phase: FetchPhase::Fetching,
                pending: m.next[0],
                batch: m.next.drop_first(),
                next: Seq::empty(),
                ..m
            },
            FetchStep::Request(m.next[0]),
        )
    } else {
        let a = FetchView { phase: FetchPhase::Adding, order, added: 0, ..m };
        if order.len() == 0 {
            fetch_finish(a)
        } else {
            (a, FetchStep::Add(order[0]))
        }
    }
}

/// The transition on one event; `order` is the add order taken when the
/// requests run out (see [`topological_add_order`]).
pub open spec fn fetch_next<R>(m: FetchView, ev: FetchEvent<R>, order: Seq<usize>) -> (FetchView, FetchStep) {
    match (m.phase, ev) {
        (FetchPhase::Start, FetchEvent::Begin) => fetch_advance(m, order),
        (FetchPhase::Fetching, FetchEvent::NotFound) => fetch_advance(m, order),
        (FetchPhase::Fetching, FetchEvent::StreamFailed) => fetch_fail(m),
        (FetchPhase::Fetching, FetchEvent::Found(f)) => {
            if parent_fetch_verdict(
                f.genesis_sentinel,
                f.position_decoded,
                f.signature_ok,
                f.delta_id@ == m.pending,
                f.group_check,
                f.read_only,
                f.membership,
            ) is Ok {
                let ids = m.ids.push(f.delta_id);
                let next = if f.genesis_sentinel {
                    m.next
                } else {
                    queued_after(views32(f.parents@), f.held@, m.next, views32(ids))
                };
                fetch_advance(FetchView { ids, parents: m.parents.push(f.parents), next, ..m }, order)
            } else {
                fetch_advance(m, order)
            }
        },
        (FetchPhase::Adding, FetchEvent::Added(evs)) => {
            let a = FetchView { added: m.added + 1, cascaded: m.cascaded + evs@, ..m };
            if a.added < m.order.len() {
                (a, FetchStep::Add(m.order[a.added as int]))
            } else {
                fetch_finish(a)
            }
        },
        (FetchPhase::Adding, FetchEvent::AddFailed) => {
            let a = FetchView { added: m.added + 1, ..m };
            if a.added < m.order.len() {
                (a, FetchStep::Add(m.order[a.added as int]))
            } else {
                fetch_finish(a)
            }
        },
        _ => fetch_fail(m),
    }
}

/// While adding, a failed addition is skipped, not fatal: it moves on to
/// the next delta of the add order exactly as a successful one does (which
/// only adds its cascaded events to the result), and the fetch finishes only
/// once the whole order was offered, handing out every cascaded event
/// gathered, in add order.
pub proof fn lemma_additions_continue_past_failures<R>(
    m: FetchView,
    evs: Vec<([u8; 32], Vec<u8>)>,
    order: Seq<usize>,
)
    requires
        m.phase == FetchPhase::Adding,
    ensures
        m.added + 1 < m.order.len() ==> fetch_next(m, FetchEvent::<R>::AddFailed, order).1
            == FetchStep::Add(m.order[m.added + 1int]),
        m.added + 1 < m.order.len() ==> fetch_next(m, FetchEvent::<R>::Added(evs), order).1
            == FetchStep::Add(m.order[m.added + 1int]),
        m.added + 1 < m.order.len() ==> fetch_next(m, FetchEvent::<R>::AddFailed, order).0.added
            == m.added + 1 && fetch_next(m, FetchEvent::<R>::AddFailed, order).0.cascaded
            == m.cascaded && fetch_next(m, FetchEvent::<R>::AddFailed, order).0.phase
            == FetchPhase::Adding,
        m.added + 1 < m.order.len() ==> fetch_next(m, FetchEvent::<R>::Added(evs), order).0.cascaded
            == m.cascaded + evs@,
        m.added + 1 >= m.order.len() ==> fetch_next(m, FetchEvent::<R>::AddFailed, order).1
            == FetchStep::Finish(m.cascaded),
        m.added + 1 >= m.order.len() ==> fetch_next(m, FetchEvent::<R>::Added(evs), order).1
            == FetchStep::Finish(m.cascaded + evs@),
        fetch_next(m, FetchEvent::<R>::AddFailed, order).1 is Finish ==> m.added + 1 >= m.order.len(),
        fetch_next(m, FetchEvent::<R>::Added(evs), order).1 is Finish ==> m.added + 1 >= m.order.len(),
{
}

/// A reply to the pending request: the delta joins the fetched ones (at the
/// end, with its parents) exactly when the admission lets it through, and a
/// refused or missing one leaves the fetched deltas and the queue as they
/// were; a genesis delta's parents are never queued; the next request is the
/// front of the current round, else of the next round, and only when both
/// are empty does adding begin.
pub proof fn lemma_replies_grow_only_admitted<R>(m: FetchView, f: FetchedParent<R>, order: Seq<usize>)
    requires
        m.phase == FetchPhase::Fetching,
    ensures
        ({
            let admitted = parent_fetch_verdict(
                f.genesis_sentinel,
                f.position_decoded,
                f.signature_ok,
                f.delta_id@ == m.pending,
                f.group_check,
                f.read_only,
                f.membership,
            ) is Ok;
            let (t, a) = fetch_next(m, FetchEvent::Found(f), order);
            &&& admitted ==> t.ids == m.ids.push(f.delta_id) && t.parents == m.parents.push(f.parents)
            &&& !admitted ==> t.ids == m.ids && t.parents == m.parents
            &&& (!admitted || f.genesis_sentinel) && m.batch.len() > 0 ==> t.next == m.next
            &&& m.batch.len() > 0 ==> a == FetchStep::Request(m.batch[0]) && t.batch
                == m.batch.drop_first() && t.phase == FetchPhase::Fetching
            &&& a is Add || a is Finish ==> m.batch.len() == 0 && t.next.len() == 0
        }),
        ({
            let (t, a) = fetch_next(m, FetchEvent::<R>::NotFound, order);
            &&& t.ids == m.ids && t.parents == m.parents
            &&& m.batch.len() > 0 ==> a == FetchStep::Request(m.batch[0])
            &&& m.batch.len() == 0 && m.next.len() > 0 ==> a == FetchStep::Request(m.next[0])
                && t.batch == m.next.drop_first() && t.next.len() == 0
        }),
        fetch_next(m, FetchEvent::<R>::StreamFailed, order).1 == FetchStep::Failed,
{
}

/// While adding, the order lists each fetched delta once, parents first as
/// far as the parent links allow.
pub open spec fn add_order_ok(ids: Seq<[u8; 32]>, parents: Seq<Vec<[u8; 32]>>, order: Seq<usize>) -> bool {
    &&& is_permutation(order, ids.len())
    &&& forall|i: int, j: int|
        0 <= i < j < order.len() && names_parent(ids, parents, order[i] as int, order[j] as int)
            ==> exists|k: int| 0 <= k <= i && circular_from(ids, parents, order, k)
}

/// A fetch of missing parents.
pub struct ParentFetch {
    phase: FetchPhase,
    pending: [u8; 32],
    batch: Vec<[u8; 32]>,
    next: Vec<[u8; 32]>,
    ids: Vec<[u8; 32]>,
    parents: Vec<Vec<[u8; 32]>>,
    order: Vec<usize>,
    added: usize,
    cascaded: Vec<([u8; 32], Vec<u8>)>,
}

impl View for ParentFetch {
    type V = FetchView;

    closed spec fn view(&self) -> FetchView {
        FetchView {
            phase: self.phase,
            pending: self.pending@,
            batch: views32(self.batch@),
            next: views32(self.next@),
            ids: self.ids@,
            parents: self.parents@,
            order: self.order@,
            added: self.added as nat,
            cascaded: self.cascaded@,
        }
    }
}

impl ParentFetch {
    /// Well formed: one parent list per fetched delta; while adding, the
    /// order is a valid add order and at most all of it was added.
    pub closed spec fn wf(&self) -> bool {
        &&& self.ids@.len() == self.parents@.len()
        &&& self.phase == FetchPhase::Adding ==> add_order_ok(self.ids@, self.parents@, self.order@)
            && self.added < self.order@.len()
    }

    /// A fetch of the `missing` parents, not begun.
    pub fn new(missing: Vec<[u8; 32]>) -> (f: Self)
        ensures
            f.wf(),
            f@.phase == FetchPhase::Start,
            f@.batch == views32(missing@),
            f@.next.len() == 0,
            f@.ids.len() == 0,
            f@.cascaded.len() == 0,
    {
        ParentFetch {
            phase: FetchPhase::Start,
            pending: [0u8; 32],
            batch: missing,
            next: Vec::new(),
            ids: Vec::new(),
            parents: Vec::new(),
            order: Vec::new(),
            added: 0,
            cascaded: Vec::new(),
        }
    }

    /// How many fetched deltas were admitted so far.
    pub fn fetched_count(&self) -> (n: usize)
        ensures
            n == self@.ids.len(),
    {
        self.ids.len()
    }

    fn finish(&mut self) -> (a: FetchAction)
        ensures
            (final(self)@, a@) == fetch_finish(old(self)@),
            final(self).ids@ == old(self).ids@,
            final(self).parents@ == old(self).parents@,
            final(self).phase == FetchPhase::Done,
    {
        let mut out: Vec<([u8; 32], Vec<u8>)> = Vec::new();
        std::mem::swap(&mut out, &mut self.cascaded);
        self.phase = FetchPhase::Done;
        proof {
            assert(views32(self.batch@) == old(self)@.batch);
        }
        FetchAction::Finish(out)
    }

    fn advance(&mut self) -> (a: FetchAction)
        requires
            old(self).ids@.len() == old(self).parents@.len(),
        ensures
            final(self).wf(),
            (final(self)@, a@) == fetch_advance(old(self)@, final(self)@.order),
    {
        if self.batch.len() > 0 {
            let ghost b = self.batch@;
            let id = self.batch.remove(0);
            proof {
                assert(views32(self.batch@) =~= views32(b).drop_first());
            }
            self.pending = id;
            self.phase = FetchPhase::Fetching;
            FetchAction::Request(id)
        } else if self.next.len() > 0 {
            let mut round: Vec<[u8; 32]> = Vec::new();
            std::mem::swap(&mut round, &mut self.next);
            let ghost b = round@;
            let id = round.remove(0);
            proof {
                assert(views32(round@) =~= views32(b).drop_first());
                assert(views32(self.next@) =~= Seq::<Seq<u8>>::empty());
            }
            self.batch = round;
            self.pending = id;
            self.phase = FetchPhase::Fetching;
            FetchAction::Request(id)
        } else {
            self.order = topological_add_order(&self.ids, &self.parents);
            self.added = 0;
            self.phase = FetchPhase::Adding;
            if self.order.len() == 0 {
                self.finish()
            } else {
                FetchAction::Add(self.order[0])
            }
        }
    }

    /// Take what the caller found and say what to do next.
    pub fn step<R>(&mut self, ev: FetchEvent<R>) -> (a: FetchAction)
        requires
            old(self).wf(),
            ev matches FetchEvent::Found(f) ==> f.held@.len() == f.parents@.len(),
        ensures
            final(self).wf(),
            (final(self)@, a@) == fetch_next(old(self)@, ev, final(self)@.order),
    {
        match ev {
            FetchEvent::Begin => {
                if self.phase == FetchPhase::Start {
                    self.advance()
                } else {
                    self.fail()
                }
            },
            FetchEvent::NotFound => {
                if self.phase == FetchPhase::Fetching {
                    self.advance()
                } else {
                    self.fail()
                }
            },
            FetchEvent::StreamFailed => self.fail(),
            FetchEvent::Found(f) => {
                if self.phase != FetchPhase::Fetching {
                    return self.fail();
                }
                let FetchedParent {
                    delta_id,
                    genesis_sentinel,
                    position_decoded,
                    signature_ok,
                    group_check,
                    read_only,
                    membership,
                    parents,
                    held,
                } = f;
                let id_matches = crate::bytes::bytes32_eq(&delta_id, &self.pending);
                let verdict = parent_fetch_admission(
                    genesis_sentinel,
                    position_decoded,
                    signature_ok,
                    id_matches,
                    group_check,
                    read_only,
                    membership,
                );
                if verdict.is_ok() {
                    self.ids.push(delta_id);
                    if !genesis_sentinel {
                        queue_missing_parents(&parents, &held, &mut self.next, &self.ids);
                    }
                    self.parents.push(parents);
                }
                self.advance()
            },
            FetchEvent::Added(evs) => {
                if self.phase != FetchPhase::Adding {
                    return self.fail();
                }
                let mut evs = evs;
                self.cascaded.append(&mut evs);
                self.next_addition()
            },
            FetchEvent::AddFailed => {
                if self.phase != FetchPhase::Adding {
                    return self.fail();
                }
                self.next_addition()
            },
        }
    }

    fn next_addition(&mut self) -> (a: FetchAction)
        requires
            old(self).wf(),
            old(self).phase == FetchPhase::Adding,
        ensures
            final(self).wf(),
            final(self)@.order == old(self)@.order,
            ({
                let m = FetchView { added: old(self)@.added + 1, ..old(self)@ };
                (final(self)@, a@) == (if m.added < m.order.len() {
                    (m, FetchStep::Add(m.order[m.added as int]))
                } else {
                    fetch_finish(m)
                })
            }),
    {
        let n = self.order.len();
        self.added = self.added + 1;
        if self.added < n {
            FetchAction::Add(self.order[self.added])
        } else {
            self.finish()
        }
    }

    fn fail(&mut self) -> (a: FetchAction)
        requires
            old(self).wf(),
        ensures
            final(self).wf(),
            (final(self)@, a@) == fetch_fail(old(self)@),
    {
        self.phase = FetchPhase::Done;
        FetchAction::Failed
    }
}

} // verus!
