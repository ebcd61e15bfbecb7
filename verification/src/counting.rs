use vstd::prelude::*;

verus! {

/// The number of integers in [0, n) satisfying p.
pub open spec fn count_below(p: spec_fn(int) -> bool, n: int) -> int
    decreases n,
{
    if n <= 0 {
        0
    } else {
        count_below(p, n - 1) + if p(n - 1) {
            1int
        } else {
            0int
        }
    }
}

/// Counting respects pointwise equivalence on the counted range.
pub proof fn lemma_count_equiv(p: spec_fn(int) -> bool, q: spec_fn(int) -> bool, n: int)
    requires
        forall|c: int| 0 <= c < n ==> #[trigger] p(c) == q(c),
    ensures
        count_below(p, n) == count_below(q, n),
    decreases n,
{
    if n > 0 {
        lemma_count_equiv(p, q, n - 1);
    }
}

/// A predicate that never holds counts zero.
pub proof fn lemma_count_none(p: spec_fn(int) -> bool, n: int)
    requires
        forall|c: int| 0 <= c < n ==> !#[trigger] p(c),
    ensures
        count_below(p, n) == 0,
    decreases n,
{
    if n > 0 {
        lemma_count_none(p, n - 1);
    }
}

/// Two predicates that never hold together count as their sum.
pub proof fn lemma_count_disjoint(p: spec_fn(int) -> bool, q: spec_fn(int) -> bool, n: int)
    requires
        forall|c: int| 0 <= c < n ==> !(#[trigger] p(c) && #[trigger] q(c)),
    ensures
        count_below(|c: int| p(c) || q(c), n) == count_below(p, n) + count_below(q, n),
    decreases n,
{
    if n > 0 {
        lemma_count_disjoint(p, q, n - 1);
    }
}

/// Exactly one integer below n equals c0 when c0 lies in range.
pub proof fn lemma_count_single(c0: int, n: int)
    ensures
        count_below(|c: int| c == c0, n) == if 0 <= c0 < n {
            1int
        } else {
            0int
        },
    decreases n,
{
    if n > 0 {
        lemma_count_single(c0, n - 1);
    }
}

} // verus!
