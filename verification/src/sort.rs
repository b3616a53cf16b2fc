//! Judging the result of a sort.
use vstd::prelude::*;

verus! {

/// No key is larger than a later one.
pub open spec fn ascending(s: Seq<u32>) -> bool {
    forall|i: int, j: int| 0 <= i <= j < s.len() ==> s[i] <= s[j]
}

/// Whether the keys are in order.
pub fn is_sorted(data: &[u32]) -> (r: bool)
    ensures
        r == ascending(data@),
{
    let mut i: usize = 1;
    while i < data.len()
        invariant
            1 <= i,
            forall|a: int, b: int|
                0 <= a <= b < i && b < data@.len() ==> data@[a] <= data@[b],
        decreases data@.len() - i,
    {
        if data[i - 1] > data[i] {
            assert(data@[i - 1] > data@[i as int]);
            return false;
        }
        assert forall|a: int, b: int| 0 <= a <= b < i + 1 implies data@[a] <= data@[b] by {
            if a < i {
                assert(data@[a] <= data@[i - 1]);
            }
        }
        i += 1;
    }
    true
}

/// Puts the keys in order.
pub fn sorted(data: &[u32]) -> (out: Vec<u32>)
    ensures
        ascending(out@),
        out@.to_multiset() == data@.to_multiset(),
{
    let mut out: Vec<u32> = Vec::new();
    let mut i: usize = 0;
    assert(data@.take(0) =~= Seq::empty());
    while i < data.len()
        invariant
            i <= data@.len(),
            ascending(out@),
            out@.to_multiset() == data@.take(i as int).to_multiset(),
        decreases data@.len() - i,
    {
        let key: u32 = data[i];
        let mut at: usize = out.len();
        while at > 0 && out[at - 1] > key
            invariant
                at <= out@.len(),
                ascending(out@),
                forall|k: int| at <= k < out@.len() ==> #[trigger] out@[k] > key,
            decreases at,
        {
            at -= 1;
        }
        let ghost before = out@;
        proof {
            assert(data@.take(i + 1) =~= data@.take(i as int).push(key));
            vstd::seq_lib::to_multiset_build(data@.take(i as int), key);
            vstd::seq_lib::to_multiset_insert(before, at as int, key);
        }
        out.insert(at, key);
        i += 1;
    }
    assert(data@.take(i as int) =~= data@);
    out
}

/// Keys in order are determined by what they are.
pub proof fn order_is_unique(a: Seq<u32>, b: Seq<u32>)
    requires
        ascending(a),
        ascending(b),
        a.to_multiset() == b.to_multiset(),
    ensures
        a == b,
{
    let leq = |x: u32, y: u32| x <= y;
    assert(vstd::relations::sorted_by(a, leq));
    assert(vstd::relations::sorted_by(b, leq));
    vstd::seq_lib::lemma_sorted_unique(a, b, leq);
}

/// Whether `result` holds the keys of `original`, in order.
pub fn verify_sort_correctness(original: &[u32], result: &[u32]) -> (r: bool)
    ensures
        r == (ascending(result@) && result@.to_multiset() == original@.to_multiset()),
{
    proof {
        original@.to_multiset_ensures();
        result@.to_multiset_ensures();
    }
    if original.len() != result.len() {
        return false;
    }
    if !is_sorted(result) {
        return false;
    }
    let expected = sorted(original);
    proof {
        expected@.to_multiset_ensures();
    }
    let mut i: usize = 0;
    while i < result.len()
        invariant
            i <= result@.len() == expected@.len(),
            ascending(expected@),
            ascending(result@),
            expected@.to_multiset() == original@.to_multiset(),
            forall|k: int| 0 <= k < i ==> #[trigger] expected@[k] == result@[k],
        decreases result@.len() - i,
    {
        if expected[i] != result[i] {
            proof {
                if result@.to_multiset() == original@.to_multiset() {
                    order_is_unique(expected@, result@);
                }
            }
            return false;
        }
        i += 1;
    }
    assert(expected@ =~= result@);
    true
}

} // verus!
