//! Lists of names, as scopes, instances and classes keep them.

use vstd::prelude::*;

verus! {

/// The texts of a sequence of strings.
pub open spec fn texts(names: Seq<String>) -> Seq<Seq<char>> {
    names.map_values(|s: String| s@)
}

/// The first index from `i` on at which `name` stands in `names`.
pub open spec fn find_name(names: Seq<Seq<char>>, name: Seq<char>, i: int) -> Option<int>
    decreases names.len() - i,
{
    if i < 0 || i >= names.len() {
        None
    } else if names[i] == name {
        Some(i)
    } else {
        find_name(names, name, i + 1)
    }
}

/// The first index at which `name` stands in `names`.
pub fn index_of(names: &Vec<String>, name: &String) -> (r: Option<usize>)
    ensures
        match r {
            Some(i) => find_name(texts(names@), name@, 0) == Some(i as int) && i < names.len(),
            None => find_name(texts(names@), name@, 0) is None,
        },
{
    let mut i: usize = 0;
    while i < names.len()
        invariant
            i <= names.len(),
            find_name(texts(names@), name@, 0) == find_name(texts(names@), name@, i as int),
        decreases names.len() - i,
    {
        if names[i] == *name {
            return Some(i);
        }
        i += 1;
    }
    None
}

/// A name that is not found from `i` on is found at the end once it has been
/// appended; one that is found stays where it is.
pub proof fn lemma_find_after_push(names: Seq<Seq<char>>, name: Seq<char>, other: Seq<char>, i: int)
    requires
        0 <= i <= names.len(),
    ensures
        find_name(names, name, i) is Some ==> find_name(names.push(other), name, i) == find_name(
            names,
            name,
            i,
        ),
        find_name(names, name, i) is None && other == name ==> find_name(
            names.push(other),
            name,
            i,
        ) == Some(names.len() as int),
        find_name(names, name, i) is None && other != name ==> find_name(
            names.push(other),
            name,
            i,
        ) is None,
        find_name(names, name, i) matches Some(k) ==> i <= k < names.len() && names[k] == name,
    decreases names.len() - i,
{
    if i < names.len() {
        if names[i] != name {
            lemma_find_after_push(names, name, other, i + 1);
        }
    } else {
        assert(find_name(names.push(other), name, i + 1) is None);
    }
}

/// Whether no name occurs twice.
pub open spec fn distinct(names: Seq<Seq<char>>) -> bool {
    forall|i: int, j: int| 0 <= i < j < names.len() ==> names[i] != names[j]
}

/// A name that is not found from `i` on stands nowhere from `i` on.
pub proof fn lemma_not_found(names: Seq<Seq<char>>, name: Seq<char>, i: int)
    requires
        0 <= i,
        find_name(names, name, i) is None,
    ensures
        forall|k: int| i <= k < names.len() ==> names[k] != name,
    decreases names.len() - i,
{
    if i < names.len() {
        lemma_not_found(names, name, i + 1);
    }
}

/// Names stay distinct when one that is not among them is appended.
pub proof fn lemma_distinct_after_push(names: Seq<Seq<char>>, name: Seq<char>)
    requires
        distinct(names),
        find_name(names, name, 0) is None,
    ensures
        distinct(names.push(name)),
{
    lemma_not_found(names, name, 0);
}

} // verus!
