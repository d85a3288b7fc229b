//! Byte-exact common-prefix matching.
use vstd::prelude::*;

verus! {

/// The first `n` bytes of `a` and `b` exist and agree.
pub open spec fn agree_up_to(a: Seq<u8>, b: Seq<u8>, n: nat) -> bool {
    &&& n <= a.len()
    &&& n <= b.len()
    &&& forall|i: int| 0 <= i < n ==> a[i] == b[i]
}

/// `n` is the length of the longest common prefix of `a` and `b`: they agree
/// up to `n`, and at `n` one of them ends or the two differ.
pub open spec fn is_common_prefix_len(a: Seq<u8>, b: Seq<u8>, n: nat) -> bool {
    &&& agree_up_to(a, b, n)
    &&& (n == a.len() || n == b.len() || a[n as int] != b[n as int])
}

/// The longest common prefix length is unique.
pub proof fn lemma_common_prefix_len_unique(a: Seq<u8>, b: Seq<u8>, n: nat, m: nat)
    requires
        is_common_prefix_len(a, b, n),
        is_common_prefix_len(a, b, m),
    ensures
        n == m,
{
    if n < m {
        assert(a[n as int] == b[n as int]);
    } else if m < n {
        assert(a[m as int] == b[m as int]);
    }
}

/// The longest common prefix is never longer than the shorter sequence.
pub proof fn lemma_common_prefix_len_bounded(a: Seq<u8>, b: Seq<u8>, n: nat)
    requires
        is_common_prefix_len(a, b, n),
    ensures
        n <= a.len(),
        n <= b.len(),
{
}

/// Counts the leading bytes on which `a` and `b` agree, stopping at the first
/// byte where they differ.
pub fn matching_prefix(a: &[u8], b: &[u8]) -> (n: usize)
    requires
        a@.len() == b@.len(),
    ensures
        is_common_prefix_len(a@, b@, n as nat),
{
    let mut n: usize = 0;
    while n < a.len()
        invariant
            a@.len() == b@.len(),
            agree_up_to(a@, b@, n as nat),
        decreases a@.len() - n,
    {
        if a[n] != b[n] {
            return n;
        }
        n = n + 1;
    }
    n
}

} // verus!
