use vstd::prelude::*;

verus! {

/// The least position at or after `from` whose item satisfies `wanted`.
pub open spec fn first_where<T>(s: Seq<T>, from: int, wanted: spec_fn(T) -> bool) -> Option<int>
    decreases s.len() - from,
{
    if from < 0 || from >= s.len() {
        None
    } else if wanted(s[from]) {
        Some(from)
    } else {
        first_where(s, from + 1, wanted)
    }
}

/// Whether `at` is the least position at or after `from` whose item
/// satisfies `wanted`.
pub open spec fn is_first_where<T>(s: Seq<T>, from: int, wanted: spec_fn(T) -> bool, at: int) -> bool {
    &&& from <= at < s.len()
    &&& wanted(s[at])
    &&& forall|j: int| from <= j < at ==> !wanted(s[j])
}

/// `first_where` finds the least position that qualifies, and finds none
/// only where no position qualifies.
pub proof fn lemma_first_where<T>(s: Seq<T>, from: int, wanted: spec_fn(T) -> bool)
    requires
        0 <= from,
    ensures
        (match first_where(s, from, wanted) {
            Some(at) => is_first_where(s, from, wanted, at),
            None => forall|j: int| from <= j < s.len() ==> !wanted(s[j]),
        }),
    decreases s.len() - from,
{
    if from < s.len() && !wanted(s[from]) {
        lemma_first_where(s, from + 1, wanted);
    }
}

/// A position that qualifies with none before it is the one that
/// `first_where` finds.
pub proof fn lemma_first_where_is<T>(s: Seq<T>, from: int, wanted: spec_fn(T) -> bool, at: int)
    requires
        0 <= from,
        is_first_where(s, from, wanted, at),
    ensures
        first_where(s, from, wanted) == Some(at),
    decreases at - from,
{
    if from < at {
        lemma_first_where_is(s, from + 1, wanted, at);
    }
}

/// Where no position at or after `from` qualifies, `first_where` finds none.
pub proof fn lemma_first_where_none<T>(s: Seq<T>, from: int, wanted: spec_fn(T) -> bool)
    requires
        0 <= from,
        forall|j: int| from <= j < s.len() ==> !wanted(s[j]),
    ensures
        first_where(s, from, wanted) is None,
    decreases s.len() - from,
{
    if from < s.len() {
        lemma_first_where_none(s, from + 1, wanted);
    }
}

} // verus!
