//! Search for specification elements that share a name.

use vstd::prelude::*;

verus! {

/// Specification elements that have a name.
pub trait Named {
    /// The characters of the name.
    spec fn name_text(&self) -> Seq<char>;

    /// Whether `self` and `other` have the same name.
    fn same_name(&self, other: &Self) -> (r: bool)
        ensures
            r == (self.name_text() == other.name_text()),
    ;
}

/// Two elements that share a name: the one that comes first, and a later one.
pub struct Duplicate<'a, E> {
    /// The element that comes first.
    pub original: &'a E,
    /// The later element with the same name.
    pub duplicate: &'a E,
}

/// Whether items `i < j` of `items` share a name.
pub open spec fn is_dup_pair<E: Named>(items: Seq<E>, i: int, j: int) -> bool {
    0 <= i < j < items.len() && items[i].name_text() == items[j].name_text()
}

/// Whether no two of `items` share a name.
pub open spec fn names_distinct<E: Named>(items: Seq<E>) -> bool {
    forall|i: int, j: int| !#[trigger] is_dup_pair(items, i, j)
}

/// Whether `(i, j)` is the pair that [`find_duplicate`] reports: among the
/// pairs of items with the same name, for fewer than 16 items, the one with
/// the first original and then the first duplicate of it; for more, the one
/// with the first duplicate.
pub open spec fn is_reported_pair<E: Named>(items: Seq<E>, i: int, j: int) -> bool {
    &&& is_dup_pair(items, i, j)
    &&& if items.len() < 16 {
        forall|i2: int, j2: int|
            #[trigger] is_dup_pair(items, i2, j2) ==> i < i2 || (i == i2 && j <= j2)
    } else {
        forall|i2: int, j2: int|
            #[trigger] is_dup_pair(items, i2, j2) ==> j < j2 || (j == j2 && i <= i2)
    }
}

/// The indices of the pair that [`find_duplicate`] reports, if any.
pub open spec fn duplicate_pair<E: Named>(items: Seq<E>) -> Option<(int, int)> {
    if exists|i: int, j: int| is_reported_pair(items, i, j) {
        Some(choose|i: int, j: int| is_reported_pair(items, i, j))
    } else {
        None
    }
}

/// Only one pair of items is the reported one.
pub proof fn lemma_reported_pair_unique<E: Named>(items: Seq<E>, i: int, j: int, k: int, l: int)
    requires
        is_reported_pair(items, i, j),
        is_reported_pair(items, k, l),
    ensures
        i == k && j == l,
{
    assert(is_dup_pair(items, k, l));
    assert(is_dup_pair(items, i, j));
}

/// Items with two that share a name have a reported pair, and items whose
/// names are distinct have none.
pub proof fn lemma_duplicate_pair_exists<E: Named>(items: Seq<E>)
    ensures
        duplicate_pair(items) is None <==> names_distinct(items),
        duplicate_pair(items) matches Some((i, j)) ==> is_reported_pair(items, i, j),
{
    if !names_distinct(items) {
        let (i0, j0) = choose|i: int, j: int| is_dup_pair(items, i, j);
        if items.len() < 16 {
            lemma_least_original(items, i0, j0);
        } else {
            lemma_least_duplicate(items, i0, j0);
        }
    } else {
        if exists|i: int, j: int| is_reported_pair(items, i, j) {
            let (i, j) = choose|i: int, j: int| is_reported_pair(items, i, j);
            assert(is_dup_pair(items, i, j));
        }
    }
}

proof fn lemma_least_original<E: Named>(items: Seq<E>, i0: int, j0: int)
    requires
        is_dup_pair(items, i0, j0),
        items.len() < 16,
    ensures
        exists|i: int, j: int| is_reported_pair(items, i, j),
    decreases i0, j0,
{
    if exists|i: int, j: int| is_dup_pair(items, i, j) && (i < i0 || (i == i0 && j < j0)) {
        let (i, j) = choose|i: int, j: int|
            is_dup_pair(items, i, j) && (i < i0 || (i == i0 && j < j0));
        lemma_least_original(items, i, j);
    } else {
        assert forall|i2: int, j2: int| #[trigger] is_dup_pair(items, i2, j2) implies i0 < i2 || (
        i0 == i2 && j0 <= j2) by {}
        assert(is_reported_pair(items, i0, j0));
    }
}

proof fn lemma_least_duplicate<E: Named>(items: Seq<E>, i0: int, j0: int)
    requires
        is_dup_pair(items, i0, j0),
        items.len() >= 16,
    ensures
        exists|i: int, j: int| is_reported_pair(items, i, j),
    decreases j0, i0,
{
    if exists|i: int, j: int| is_dup_pair(items, i, j) && (j < j0 || (j == j0 && i < i0)) {
        let (i, j) = choose|i: int, j: int|
            is_dup_pair(items, i, j) && (j < j0 || (j == j0 && i < i0));
        lemma_least_duplicate(items, i, j);
    } else {
        assert forall|i2: int, j2: int| #[trigger] is_dup_pair(items, i2, j2) implies j0 < j2 || (
        j0 == j2 && i0 <= i2) by {}
        assert(is_reported_pair(items, i0, j0));
    }
}

/// Finds two of `items` that share a name, if any do.
pub fn find_duplicate<'a, E: Named>(items: &'a [E]) -> (r: Option<Duplicate<'a, E>>)
    ensures
        match duplicate_pair(items@) {
            None => r is None,
            Some((i, j)) => r matches Some(d) && *d.original == items@[i] && *d.duplicate
                == items@[j],
        },
{
    proof {
        lemma_duplicate_pair_exists(items@);
    }
    let len = items.len();
    if len < 16 {
        let mut i: usize = 0;
        while i < len
            invariant
                len == items@.len() < 16,
                i <= len,
                forall|i2: int, j2: int| i2 < i ==> !#[trigger] is_dup_pair(items@, i2, j2),
            decreases len - i,
        {
            let mut j: usize = i + 1;
            while j < len
                invariant
                    len == items@.len() < 16,
                    i < len,
                    i + 1 <= j <= len,
                    forall|i2: int, j2: int| i2 < i ==> !#[trigger] is_dup_pair(items@, i2, j2),
                    forall|j2: int| i < j2 < j ==> !#[trigger] is_dup_pair(items@, i as int, j2),
                decreases len - j,
            {
                if items[i].same_name(&items[j]) {
                    proof {
                        assert(is_dup_pair(items@, i as int, j as int));
                        assert(is_reported_pair(items@, i as int, j as int));
                        let (k, l) = duplicate_pair(items@)->0;
                        lemma_reported_pair_unique(items@, i as int, j as int, k, l);
                    }
                    return Some(Duplicate { original: &items[i], duplicate: &items[j] });
                }
                j = j + 1;
            }
            i = i + 1;
        }
    } else {
        let mut j: usize = 0;
        while j < len
            invariant
                len == items@.len() >= 16,
                j <= len,
                forall|i2: int, j2: int| j2 < j ==> !#[trigger] is_dup_pair(items@, i2, j2),
            decreases len - j,
        {
            let mut i: usize = 0;
            while i < j
                invariant
                    len == items@.len() >= 16,
                    j < len,
                    i <= j,
                    forall|i2: int, j2: int| j2 < j ==> !#[trigger] is_dup_pair(items@, i2, j2),
                    forall|i2: int| i2 < i ==> !#[trigger] is_dup_pair(items@, i2, j as int),
                decreases j - i,
            {
                if items[i].same_name(&items[j]) {
                    proof {
                        assert(is_dup_pair(items@, i as int, j as int));
                        assert(is_reported_pair(items@, i as int, j as int));
                        let (k, l) = duplicate_pair(items@)->0;
                        lemma_reported_pair_unique(items@, i as int, j as int, k, l);
                    }
                    return Some(Duplicate { original: &items[i], duplicate: &items[j] });
                }
                i = i + 1;
            }
            j = j + 1;
        }
    }
    proof {
        assert(names_distinct(items@));
    }
    None
}

} // verus!
