//! Facts about the first place at which a value stands in a sequence.

use vstd::prelude::*;

verus! {

/// The first index of `k` in `s` is `r`, once `r` is known to be an index that
/// holds `k` with no `k` before it, or to be absent where `s` holds no `k`.
pub proof fn lemma_first_index_is<A>(s: Seq<A>, k: A, r: Option<int>)
    requires
        match r {
            Some(i) => 0 <= i < s.len() && s[i] == k && forall|j: int| 0 <= j < i ==> s[j] != k,
            None => forall|j: int| 0 <= j < s.len() ==> s[j] != k,
        },
    ensures
        s.index_of_first(k) == r,
{
    s.index_of_first_ensures(k);
    match s.index_of_first(k) {
        Some(i) => {
            assert(s[i] == k);
        },
        None => {
            if let Some(i) = r {
                assert(s.contains(k));
            }
        },
    }
}

/// What `index_of_first` says of its result, as facts on indices.
pub proof fn lemma_first_index_facts<A>(s: Seq<A>, k: A)
    ensures
        match s.index_of_first(k) {
            Some(i) => 0 <= i < s.len() && s[i] == k && forall|j: int| 0 <= j < i ==> s[j] != k,
            None => forall|j: int| 0 <= j < s.len() ==> s[j] != k,
        },
{
    s.index_of_first_ensures(k);
}

/// Appending `x` leaves the first index of `k` where it was, and gives `k` the
/// new last index where `s` held no `k` and `x` is `k`.
pub proof fn lemma_first_index_push<A>(s: Seq<A>, x: A, k: A)
    ensures
        s.push(x).index_of_first(k) == match s.index_of_first(k) {
            Some(i) => Some(i),
            None => if x == k {
                Some(s.len() as int)
            } else {
                None
            },
        },
{
    lemma_first_index_facts(s, k);
    let r = match s.index_of_first(k) {
        Some(i) => Some(i),
        None => if x == k {
            Some(s.len() as int)
        } else {
            None
        },
    };
    lemma_first_index_is(s.push(x), k, r);
}

} // verus!
