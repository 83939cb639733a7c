//! Fail-over planning for TEE triggers: the order in which the TEE
//! authorities of a context fire a trigger, and when each of them does.
//!
//! Durations are in milliseconds.
use vstd::prelude::*;

use vstd::string::StringSliceAdditionalSpecFns;

use crate::bytes::{views32, bytes32_eq, bytes32_lt, lemma_seq_lt_total, lemma_seq_lt_transitive, seq_lt};
use crate::topics::{has_prefix, starts_with};

verus! {

/// One turn of the fail-over order.
pub const TEE_FAILOVER_GRACE_MS: u64 = 15_000;

/// What a TEE authority does with one TEE handler.
#[derive(Debug, PartialEq, Eq, Clone, Copy)]
pub enum TeePlan {
    /// This node is no TEE authority for the context.
    NotOurs,
    /// Some authority fired it already.
    AlreadyFired,
    /// Fire it now.
    Now,
    /// Fire it after this many milliseconds, unless a firing arrives first.
    After(u64),
}

/// A delta is fresh when its age is known and at most one turn.
pub open spec fn cause_is_fresh(cause_age_ms: Option<u64>, grace_ms: u64) -> bool {
    match cause_age_ms {
        Some(age) => age <= grace_ms,
        None => false,
    }
}

/// The number of turns the authority ranked `rank` waits: `rank`, plus one
/// more unless the cause is fresh, saturating at `usize::MAX`.
pub open spec fn firing_turns(rank: nat, cause_age_ms: Option<u64>, grace_ms: u64) -> nat {
    let raw = rank + if cause_is_fresh(cause_age_ms, grace_ms) {
        0nat
    } else {
        1nat
    };
    if raw > usize::MAX {
        usize::MAX as nat
    } else {
        raw
    }
}

/// The plan for the authority ranked `rank` on a trigger not yet fired: it
/// waits [`firing_turns`] turns of `grace_ms` each; a wait beyond `u32::MAX`
/// turns, or one whose length overflows, waits the longest time.
pub open spec fn tee_firing_plan(rank: nat, cause_age_ms: Option<u64>, grace_ms: u64) -> TeePlan {
    let turns = firing_turns(rank, cause_age_ms, grace_ms);
    if turns == 0 {
        TeePlan::Now
    } else if turns > u32::MAX {
        TeePlan::After(u64::MAX)
    } else if grace_ms * turns > u64::MAX {
        TeePlan::After(u64::MAX)
    } else {
        TeePlan::After((grace_ms * turns) as u64)
    }
}

/// How long a plan waits before firing; nothing to fire waits for ever.
pub open spec fn plan_delay_ms(plan: TeePlan) -> int {
    match plan {
        TeePlan::Now => 0,
        TeePlan::After(ms) => ms as int,
        _ => u64::MAX as int + 1,
    }
}

/// The fail-over order is kept: for one trigger, an authority ranked later
/// never fires before one ranked earlier, and a fresh delta never makes an
/// authority wait longer than a stale or undated one.
pub proof fn lemma_later_rank_never_fires_first(
    rank: nat,
    later: nat,
    cause_age_ms: Option<u64>,
    grace_ms: u64,
)
    requires
        rank <= later,
    ensures
        plan_delay_ms(tee_firing_plan(rank, cause_age_ms, grace_ms)) <= plan_delay_ms(
            tee_firing_plan(later, cause_age_ms, grace_ms),
        ),
        plan_delay_ms(tee_firing_plan(rank, Some(0u64), grace_ms)) <= plan_delay_ms(
            tee_firing_plan(rank, cause_age_ms, grace_ms),
        ),
{
    let t1 = firing_turns(rank, cause_age_ms, grace_ms);
    let t2 = firing_turns(later, cause_age_ms, grace_ms);
    let t0 = firing_turns(rank, Some(0u64), grace_ms);
    assert(t1 <= t2);
    assert(t0 <= t1);
    assert(grace_ms * t1 <= grace_ms * t2) by (nonlinear_arith)
        requires
            t1 <= t2,
    ;
    assert(grace_ms * t0 <= grace_ms * t1) by (nonlinear_arith)
        requires
            t0 <= t1,
    ;
}

/// When the authority ranked `rank` fires a trigger that has not fired yet:
/// the first-ranked fires at once on a fresh delta; a stale or undated
/// delta costs every rank one extra turn; each later rank waits one more turn.
pub fn plan_tee_firing(rank: usize, cause_age_ms: Option<u64>, grace_ms: u64) -> (plan: TeePlan)
    ensures
        plan == tee_firing_plan(rank as nat, cause_age_ms, grace_ms),
{
    let fresh = match cause_age_ms {
        Some(age) => age <= grace_ms,
        None => false,
    };
    let extra: usize = if fresh {
        0
    } else {
        1
    };
    // Saturating, as a count of turns.
    let turns: usize = if rank == usize::MAX {
        rank
    } else {
        rank + extra
    };
    if turns == 0 {
        TeePlan::Now
    } else if turns > 4_294_967_295usize {
        TeePlan::After(u64::MAX)
    } else {
        let t = turns as u64;
        match grace_ms.checked_mul(t) {
            Some(ms) => TeePlan::After(ms),
            None => TeePlan::After(u64::MAX),
        }
    }
}

/// The full plan: no rank means this node is no authority; a fired trigger
/// needs nothing; otherwise [`plan_tee_firing`] with [`TEE_FAILOVER_GRACE_MS`].
pub fn tee_plan(rank: Option<usize>, already_fired: bool, cause_age_ms: Option<u64>) -> (plan:
    TeePlan)
    ensures
        rank is None ==> plan == TeePlan::NotOurs,
        rank is Some && already_fired ==> plan == TeePlan::AlreadyFired,
        rank is Some && !already_fired ==> plan == tee_firing_plan(
            rank->0 as nat,
            cause_age_ms,
            TEE_FAILOVER_GRACE_MS,
        ),
{
    match rank {
        None => TeePlan::NotOurs,
        Some(r) => {
            if already_fired {
                TeePlan::AlreadyFired
            } else {
                plan_tee_firing(r, cause_age_ms, TEE_FAILOVER_GRACE_MS)
            }
        },
    }
}

/// How old a delta stamped at `sent_secs` (UNIX seconds) is at `now_ms`; a
/// clock ahead of ours is as fresh as a delta can be (age zero); no stamp, no
/// age.
pub fn cause_age_ms(now_ms: u64, sent_secs: Option<u32>) -> (age: Option<u64>)
    ensures
        sent_secs is None ==> age is None,
        sent_secs is Some ==> age == Some(
            if now_ms >= sent_secs->0 * 1000 {
                (now_ms - sent_secs->0 * 1000) as u64
            } else {
                0u64
            },
        ),
{
    match sent_secs {
        None => None,
        Some(s) => {
            let sent = (s as u64) * 1000;
            if now_ms >= sent {
                Some(now_ms - sent)
            } else {
                Some(0)
            }
        },
    }
}

/// The prefix that marks an event handler as a TEE trigger: the ASCII bytes
/// of `tee:`; the method name follows it.
pub const TEE_HANDLER_PREFIX: [u8; 4] = [116, 101, 101, 58];

/// Whether an event's handler names a TEE trigger.
pub fn is_tee_handler(handler: &str) -> (res: bool)
    ensures
        res == has_prefix(handler.spec_bytes(), TEE_HANDLER_PREFIX@),
{
    let prefix = TEE_HANDLER_PREFIX;
    starts_with(handler.as_bytes(), prefix.as_slice())
}

/// Whether a TEE trigger counts as handled for this delta, so that its events
/// may be cleared: nothing to do (not ours, or already fired), or fired now
/// and the firing succeeded. A deferred firing keeps the events for replay.
pub fn firing_settled(plan: TeePlan, fired_ok: bool) -> (res: bool)
    ensures
        res == match plan {
            TeePlan::NotOurs | TeePlan::AlreadyFired => true,
            TeePlan::Now => fired_ok,
            TeePlan::After(_) => false,
        },
{
    match plan {
        TeePlan::NotOurs | TeePlan::AlreadyFired => true,
        TeePlan::Now => fired_ok,
        TeePlan::After(_) => false,
    }
}

/// Whether the TEE-fired markers a delta's events carry are recorded: only
/// when there are some and the delta's author is an attested TEE authority
/// of the context. `author_authority` is `Err` when the delta's row could
/// not be read, `Ok(None)` when it names no author, and otherwise the
/// authority lookup for its author (a failed lookup counts as "no").
pub fn honour_fired_markers(has_markers: bool, author_authority: Result<Option<Result<bool, ()>>, ()>) -> (res:
    bool)
    ensures
        res == (has_markers && author_authority == Ok::<Option<Result<bool, ()>>, ()>(
            Some(Ok::<bool, ()>(true)),
        )),
{
    if !has_markers {
        return false;
    }
    match author_authority {
        Ok(Some(Ok(true))) => true,
        _ => false,
    }
}

/// Entry `i` sorts before entry `j` when ranked by key, ties by position (a
/// stable sort by key).
pub open spec fn ranks_before(keys: Seq<Seq<u8>>, i: int, j: int) -> bool {
    seq_lt(keys[i], keys[j]) || (keys[i] == keys[j] && i < j)
}

/// How many of the first `n` entries sort before entry `j`.
pub open spec fn count_before(keys: Seq<Seq<u8>>, n: int, j: int) -> nat
    decreases n,
{
    if n <= 0 {
        0
    } else {
        count_before(keys, n - 1, j) + if ranks_before(keys, n - 1, j) {
            1nat
        } else {
            0nat
        }
    }
}

/// The first entry for `account` in the stable key order: among the entries
/// for it, the one no other sorts before.
pub open spec fn is_first_of(
    keys: Seq<Seq<u8>>,
    accounts: Seq<Seq<u8>>,
    account: Seq<u8>,
    j: int,
) -> bool {
    &&& 0 <= j < accounts.len()
    &&& accounts[j] == account
    &&& forall|i: int|
        0 <= i < accounts.len() && accounts[i] == account && i != j ==> ranks_before(keys, j, i)
}

/// `ranks_before` is transitive on keys of one length.
proof fn lemma_ranks_before_transitive(keys: Seq<Seq<u8>>, a: int, b: int, c: int)
    requires
        0 <= a < keys.len(),
        0 <= b < keys.len(),
        0 <= c < keys.len(),
        keys[a].len() == 32,
        keys[b].len() == 32,
        keys[c].len() == 32,
        ranks_before(keys, a, b),
        ranks_before(keys, b, c),
    ensures
        ranks_before(keys, a, c),
{
    if seq_lt(keys[a], keys[b]) && seq_lt(keys[b], keys[c]) {
        lemma_seq_lt_transitive(keys[a], keys[b], keys[c]);
    }
}

/// Everything counted before `j1` is counted before `j2` too, and so is
/// `j1` itself once it is among the first `n`.
proof fn lemma_count_before_grows(keys: Seq<Seq<u8>>, n: int, j1: int, j2: int)
    requires
        0 <= n <= keys.len(),
        0 <= j1 < keys.len(),
        0 <= j2 < keys.len(),
        forall|i: int| 0 <= i < keys.len() ==> (#[trigger] keys[i]).len() == 32,
        ranks_before(keys, j1, j2),
    ensures
        count_before(keys, n, j1) + (if j1 < n {
            1int
        } else {
            0int
        }) <= count_before(keys, n, j2),
    decreases n,
{
    if n > 0 {
        lemma_count_before_grows(keys, n - 1, j1, j2);
        let k = n - 1;
        if ranks_before(keys, k, j1) {
            lemma_ranks_before_transitive(keys, k, j1, j2);
        }
        if k == j1 {
            lemma_seq_lt_total(keys[j1], keys[j1]);
        }
    }
}

/// Every authority gets a turn of its own: two different entries of the
/// list never share a rank.
pub proof fn lemma_ranks_are_distinct(keys: Seq<[u8; 32]>, j1: int, j2: int)
    requires
        0 <= j1 < keys.len(),
        0 <= j2 < keys.len(),
        j1 != j2,
    ensures
        count_before(views32(keys), keys.len() as int, j1) != count_before(
            views32(keys),
            keys.len() as int,
            j2,
        ),
{
    let kv = views32(keys);
    assert forall|i: int| 0 <= i < kv.len() implies (#[trigger] kv[i]).len() == 32 by {
        assert(kv[i] == keys[i]@);
    }
    lemma_seq_lt_total(kv[j1], kv[j2]);
    if ranks_before(kv, j1, j2) {
        lemma_count_before_grows(kv, keys.len() as int, j1, j2);
    } else {
        lemma_count_before_grows(kv, keys.len() as int, j2, j1);
    }
}

/// This node's place in the order the TEE authorities fire a trigger: the
/// authorities `accounts` are ranked by `keys[i]` (the domain hash of the
/// cause and the account, computed by the caller), lowest first, ties kept in
/// list order, and the rank is the position of the first occurrence of
/// `our_account`; `None` when it is not among them.
pub fn tee_rank(keys: &Vec<[u8; 32]>, accounts: &Vec<[u8; 32]>, our_account: [u8; 32]) -> (res:
    Option<usize>)
    requires
        keys@.len() == accounts@.len(),
    ensures
        !(exists|j: int| 0 <= j < accounts@.len() && accounts@[j]@ == our_account@) ==> res is None,
        (exists|j: int| 0 <= j < accounts@.len() && accounts@[j]@ == our_account@) ==> exists|j: int|
            is_first_of(views32(keys@), views32(accounts@), our_account@, j) && res == Some(
                count_before(views32(keys@), keys@.len() as int, j) as usize,
            ),
{
    let ghost kv = views32(keys@);
    let ghost av = views32(accounts@);
    // Find the first occurrence in key order.
    let mut best: Option<usize> = None;
    let mut i: usize = 0;
    while i < accounts.len()
        invariant
            keys@.len() == accounts@.len(),
            kv == views32(keys@),
            av == views32(accounts@),
            i <= accounts@.len(),
            best is None ==> forall|x: int| 0 <= x < i ==> av[x] != our_account@,
            best matches Some(b) ==> {
                &&& b < i
                &&& av[b as int] == our_account@
                &&& forall|x: int|
                    0 <= x < i && av[x] == our_account@ && x != b ==> ranks_before(kv, b as int, x)
            },
        decreases accounts@.len() - i,
    {
        if bytes32_eq(&accounts[i], &our_account) {
            match best {
                None => {
                    best = Some(i);
                },
                Some(b) => {
                    // `b < i`, so `i` replaces `b` only on a strictly smaller key.
                    if bytes32_lt(&keys[i], &keys[b]) {
                        proof {
                            assert forall|x: int|
                                0 <= x < i + 1 && av[x] == our_account@ && x != i implies ranks_before(
                                kv,
                                i as int,
                                x,
                            ) by {
                                if x != b {
                                    assert(ranks_before(kv, b as int, x));
                                    lemma_seq_lt_total(kv[b as int], kv[x]);
                                    if seq_lt(kv[b as int], kv[x]) {
                                        lemma_seq_lt_transitive(kv[i as int], kv[b as int], kv[x]);
                                    }
                                }
                            }
                        }
                        best = Some(i);
                    } else {
                        proof {
                            lemma_seq_lt_total(kv[i as int], kv[b as int]);
                            assert(ranks_before(kv, b as int, i as int));
                        }
                    }
                },
            }
        }
        i = i + 1;
    }
    match best {
        None => {
            proof {
                assert forall|j: int| 0 <= j < accounts@.len() implies accounts@[j]@ != our_account@ by {
                    assert(av[j] == accounts@[j]@);
                }
            }
            None
        },
        Some(b) => {
            let mut count: usize = 0;
            let mut k: usize = 0;
            while k < keys.len()
                invariant
                    keys@.len() == accounts@.len(),
                    kv == views32(keys@),
                    k <= keys@.len(),
                    b < keys@.len(),
                    count as nat == count_before(kv, k as int, b as int),
                    count <= k,
                decreases keys@.len() - k,
            {
                let before = bytes32_lt(&keys[k], &keys[b]) || (bytes32_eq(&keys[k], &keys[b]) && k
                    < b);
                if before {
                    count = count + 1;
                }
                k = k + 1;
            }
            proof {
                assert(is_first_of(kv, av, our_account@, b as int));
            }
            Some(count)
        },
    }
}

} // verus!
