//! Finding a name in a list of names.

use vstd::prelude::*;

verus! {

/// Index of the first of `names` that is `name`, or the number of names
/// where none is.
pub open spec fn index_of(names: Seq<Seq<char>>, name: Seq<char>) -> int
    decreases names.len(),
{
    if names.len() == 0 {
        0
    } else if names[0] == name {
        0
    } else {
        1 + index_of(names.drop_first(), name)
    }
}

/// `index_of` gives an index up to the number of names; before it no name is
/// the one sought, and at it, where it is an index, the name is.
pub proof fn lemma_index_of(names: Seq<Seq<char>>, name: Seq<char>)
    ensures
        0 <= index_of(names, name) <= names.len(),
        forall|j: int| 0 <= j < index_of(names, name) ==> names[j] != name,
        index_of(names, name) < names.len() ==> names[index_of(names, name)] == name,
    decreases names.len(),
{
    if names.len() > 0 && names[0] != name {
        let rest = names.drop_first();
        lemma_index_of(rest, name);
        assert forall|j: int| 0 <= j < index_of(names, name) implies names[j] != name by {
            if j > 0 {
                assert(names[j] == rest[j - 1]);
            }
        }
        if index_of(names, name) < names.len() {
            assert(names[index_of(names, name)] == rest[index_of(rest, name)]);
        }
    }
}

/// An index that holds the name, with the name nowhere before it, is what
/// `index_of` gives; so is the number of names where the name is nowhere.
pub proof fn lemma_index_of_found(names: Seq<Seq<char>>, name: Seq<char>, at: int)
    requires
        0 <= at <= names.len(),
        forall|j: int| 0 <= j < at ==> names[j] != name,
        at < names.len() ==> names[at] == name,
    ensures
        index_of(names, name) == at,
{
    lemma_index_of(names, name);
    let p = index_of(names, name);
    if p < at {
        assert(names[p] != name);
    } else if p > at {
        assert(names[at] != name);
    }
}

} // verus!
