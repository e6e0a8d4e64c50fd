//! The first element of a sequence with a given property.
use vstd::prelude::*;

verus! {

/// The position of the first element from `i` on for which `p` holds.
pub open spec fn position_from<T>(s: Seq<T>, p: spec_fn(T) -> bool, i: int) -> Option<int>
    decreases s.len() - i,
{
    if i >= s.len() {
        None
    } else if p(s[i]) {
        Some(i)
    } else {
        position_from(s, p, i + 1)
    }
}

/// The position of the first element for which `p` holds.
pub open spec fn position<T>(s: Seq<T>, p: spec_fn(T) -> bool) -> Option<int> {
    position_from(s, p, 0)
}

/// A position that was found satisfies the property and no earlier one does; where none was
/// found, no element satisfies it.
pub proof fn lemma_position_from<T>(s: Seq<T>, p: spec_fn(T) -> bool, i: int)
    requires
        0 <= i,
    ensures
        match position_from(s, p, i) {
            Some(k) => i <= k < s.len() && p(s[k]) && forall|j: int| i <= j < k ==> !p(#[trigger] s[j]),
            None => forall|j: int| i <= j < s.len() ==> !p(#[trigger] s[j]),
        },
    decreases s.len() - i,
{
    if i < s.len() && !p(s[i]) {
        lemma_position_from(s, p, i + 1);
    }
}

/// As [`lemma_position_from`], from the start of the sequence.
pub proof fn lemma_position<T>(s: Seq<T>, p: spec_fn(T) -> bool)
    ensures
        match position(s, p) {
            Some(k) => 0 <= k < s.len() && p(s[k]) && forall|j: int| 0 <= j < k ==> !p(#[trigger] s[j]),
            None => forall|j: int| 0 <= j < s.len() ==> !p(#[trigger] s[j]),
        },
{
    lemma_position_from(s, p, 0);
}

/// Whether a list holds, in ascending order, exactly those of the first `n` positions that have a property.
pub open spec fn are_selected(at: Seq<int>, n: int, p: spec_fn(int) -> bool) -> bool {
    &&& forall|k: int| 0 <= k < at.len() ==> 0 <= #[trigger] at[k] < n
    &&& forall|i: int, j: int| 0 <= i < j < at.len() ==> #[trigger] at[i] < #[trigger] at[j]
    &&& forall|i: int| 0 <= i < n ==> (#[trigger] at.contains(i) <==> p(i))
}

/// The next position joins a selection where it has the property.
pub proof fn lemma_one_more_selected(at: Seq<int>, n: int, p: spec_fn(int) -> bool)
    requires
        0 <= n,
        are_selected(at, n, p),
    ensures
        p(n) ==> are_selected(at.push(n), n + 1, p),
        !p(n) ==> are_selected(at, n + 1, p),
{
    assert(!at.contains(n)) by {
        if at.contains(n) {
            let k = choose|k: int| 0 <= k < at.len() && at[k] == n;
            assert(at[k] < n);
        }
    }
    let more = at.push(n);
    assert forall|i: int| 0 <= i < n + 1 implies (#[trigger] more.contains(i) <==> at.contains(i) || i == n) by {
        if at.contains(i) {
            let k = choose|k: int| 0 <= k < at.len() && at[k] == i;
            assert(more[k] == i);
        }
        if i == n {
            assert(more[at.len() as int] == n);
        }
        if more.contains(i) && i != n {
            let k = choose|k: int| 0 <= k < more.len() && more[k] == i;
            assert(at[k] == i);
        }
    }
}

} // verus!
