//! Fixed-size identifiers (context, group, namespace, author keys) as 32-byte
//! arrays, with equality and lexicographic order proved against their views.
use vstd::prelude::*;

verus! {

/// Strict lexicographic order on byte sequences of equal length.
pub open spec fn seq_lt(a: Seq<u8>, b: Seq<u8>) -> bool {
    exists|k: int|
        0 <= k < a.len() && k < b.len() && a[k] < b[k] && (forall|j: int|
            0 <= j < k ==> a[j] == b[j])
}

/// Byte-wise equality of two identifiers.
pub fn bytes32_eq(a: &[u8; 32], b: &[u8; 32]) -> (res: bool)
    ensures
        res == (a@ == b@),
{
    let mut i: usize = 0;
    while i < 32
        invariant
            0 <= i <= 32,
            a@.len() == 32,
            b@.len() == 32,
            forall|j: int| 0 <= j < i ==> a@[j] == b@[j],
        decreases 32 - i,
    {
        if a[i] != b[i] {
            return false;
        }
        i = i + 1;
    }
    assert(a@ =~= b@);
    true
}

/// Byte-wise equality of two slices.
pub fn bytes_eq(a: &[u8], b: &[u8]) -> (res: bool)
    ensures
        res == (a@ == b@),
{
    if a.len() != b.len() {
        return false;
    }
    let mut i: usize = 0;
    while i < a.len()
        invariant
            i <= a@.len(),
            a@.len() == b@.len(),
            forall|j: int| 0 <= j < i ==> a@[j] == b@[j],
        decreases a@.len() - i,
    {
        if a[i] != b[i] {
            return false;
        }
        i = i + 1;
    }
    assert(a@ =~= b@);
    true
}

/// A copy of `v`.
pub fn copy_bytes(v: &Vec<u8>) -> (res: Vec<u8>)
    ensures
        res@ == v@,
{
    let mut out: Vec<u8> = Vec::new();
    let mut i: usize = 0;
    while i < v.len()
        invariant
            i <= v@.len(),
            out@ == v@.subrange(0, i as int),
        decreases v@.len() - i,
    {
        out.push(v[i]);
        i = i + 1;
        assert(out@ =~= v@.subrange(0, i as int));
    }
    assert(v@.subrange(0, v@.len() as int) =~= v@);
    out
}

/// The byte-sequence views of a list of identifiers.
pub open spec fn views32(v: Seq<[u8; 32]>) -> Seq<Seq<u8>> {
    v.map_values(|x: [u8; 32]| x@)
}

/// Whether `x` occurs in `v`.
pub fn contains32(v: &Vec<[u8; 32]>, x: &[u8; 32]) -> (res: bool)
    ensures
        res == views32(v@).contains(x@),
{
    let mut i: usize = 0;
    while i < v.len()
        invariant
            i <= v@.len(),
            forall|j: int| 0 <= j < i ==> v@[j]@ != x@,
        decreases v@.len() - i,
    {
        if bytes32_eq(&v[i], x) {
            assert(views32(v@)[i as int] == x@);
            return true;
        }
        i = i + 1;
    }
    proof {
        if views32(v@).contains(x@) {
            let j = choose|j: int| 0 <= j < views32(v@).len() && views32(v@)[j] == x@;
            assert(v@[j]@ == x@);
        }
    }
    false
}

/// Lexicographic `a < b` on identifiers.
pub fn bytes32_lt(a: &[u8; 32], b: &[u8; 32]) -> (res: bool)
    ensures
        res == seq_lt(a@, b@),
{
    let mut i: usize = 0;
    while i < 32
        invariant
            0 <= i <= 32,
            a@.len() == 32,
            b@.len() == 32,
            forall|j: int| 0 <= j < i ==> a@[j] == b@[j],
        decreases 32 - i,
    {
        if a[i] != b[i] {
            if a[i] < b[i] {
                assert(seq_lt(a@, b@)) by {
                    assert(a@[i as int] < b@[i as int]);
                }
                return true;
            } else {
                assert(!seq_lt(a@, b@)) by {
                    if seq_lt(a@, b@) {
                        let k = choose|k: int|
                            0 <= k < a@.len() && k < b@.len() && a@[k] < b@[k] && (forall|j: int|
                                0 <= j < k ==> a@[j] == b@[j]);
                        if k < i {
                        } else if k > i {
                            assert(a@[i as int] == b@[i as int]);
                        }
                    }
                }
                return false;
            }
        }
        i = i + 1;
    }
    assert(!seq_lt(a@, b@));
    false
}

/// `seq_lt` is a strict total order on sequences of one length.
pub proof fn lemma_seq_lt_total(a: Seq<u8>, b: Seq<u8>)
    requires
        a.len() == b.len(),
    ensures
        a == b || seq_lt(a, b) || seq_lt(b, a),
        !(seq_lt(a, b) && seq_lt(b, a)),
        !seq_lt(a, a),
{
    if a != b {
        assert(!(a =~= b));
        let k0 = choose|k: int| 0 <= k < a.len() && a[k] != b[k];
        lemma_first_difference(a, b, k0);
    }
    if seq_lt(a, b) && seq_lt(b, a) {
        let k1 = choose|k: int|
            0 <= k < a.len() && k < b.len() && a[k] < b[k] && (forall|j: int|
                0 <= j < k ==> a[j] == b[j]);
        let k2 = choose|k: int|
            0 <= k < b.len() && k < a.len() && b[k] < a[k] && (forall|j: int|
                0 <= j < k ==> b[j] == a[j]);
        if k1 < k2 {
        } else if k2 < k1 {
        }
    }
}

proof fn lemma_first_difference(a: Seq<u8>, b: Seq<u8>, k0: int)
    requires
        a.len() == b.len(),
        0 <= k0 < a.len(),
        a[k0] != b[k0],
    ensures
        seq_lt(a, b) || seq_lt(b, a),
    decreases k0,
{
    if forall|j: int| 0 <= j < k0 ==> a[j] == b[j] {
        if a[k0] < b[k0] {
            assert(seq_lt(a, b));
        } else {
            assert(seq_lt(b, a));
        }
    } else {
        let j = choose|j: int| 0 <= j < k0 && a[j] != b[j];
        lemma_first_difference(a, b, j);
    }
}

/// `seq_lt` is transitive on sequences of one length.
pub proof fn lemma_seq_lt_transitive(a: Seq<u8>, b: Seq<u8>, c: Seq<u8>)
    requires
        a.len() == b.len(),
        b.len() == c.len(),
        seq_lt(a, b),
        seq_lt(b, c),
    ensures
        seq_lt(a, c),
{
    let k1 = choose|k: int|
        0 <= k < a.len() && k < b.len() && a[k] < b[k] && (forall|j: int|
            0 <= j < k ==> a[j] == b[j]);
    let k2 = choose|k: int|
        0 <= k < b.len() && k < c.len() && b[k] < c[k] && (forall|j: int|
            0 <= j < k ==> b[j] == c[j]);
    let k = if k1 < k2 { k1 } else { k2 };
    assert(a[k] < c[k]);
    assert(forall|j: int| 0 <= j < k ==> a[j] == c[j]);
}

} // verus!
