//! Lists of names, and lookup in them.
use vstd::prelude::*;

verus! {

/// A name as a sequence of characters.
pub type Name = Seq<char>;

/// The names that a list of strings holds.
pub open spec fn names_of(list: Seq<String>) -> Seq<Name> {
    Seq::new(list.len(), |i: int| list[i]@)
}

/// The position of the first occurrence of `name` among the first `k`
/// entries of `list`, or `k` where there is none.
pub open spec fn position_upto(list: Seq<Name>, name: Name, k: int) -> int
    decreases k,
{
    if k <= 0 {
        0
    } else {
        let before = position_upto(list, name, k - 1);
        if before < k - 1 {
            before
        } else if 0 <= k - 1 < list.len() && list[k - 1] == name {
            k - 1
        } else {
            k
        }
    }
}

/// The position of the first occurrence of `name` in `list`, or the length
/// of the list where there is none.
pub open spec fn position(list: Seq<Name>, name: Name) -> int {
    position_upto(list, name, list.len() as int)
}

/// What `position_upto` finds is the first occurrence.
pub proof fn lemma_position_upto(list: Seq<Name>, name: Name, k: int)
    requires
        0 <= k <= list.len(),
    ensures
        0 <= position_upto(list, name, k) <= k,
        position_upto(list, name, k) < k ==> list[position_upto(list, name, k)] == name,
        forall|j: int| 0 <= j < position_upto(list, name, k) ==> list[j] != name,
    decreases k,
{
    if k > 0 {
        lemma_position_upto(list, name, k - 1);
    }
}

/// `position` finds the first occurrence of a name, and the length of the
/// list exactly where the name does not occur.
pub proof fn lemma_position(list: Seq<Name>, name: Name)
    ensures
        0 <= position(list, name) <= list.len(),
        position(list, name) < list.len() <==> list.contains(name),
        position(list, name) < list.len() ==> list[position(list, name)] == name,
        forall|j: int| 0 <= j < position(list, name) ==> list[j] != name,
{
    lemma_position_upto(list, name, list.len() as int);
    if list.contains(name) {
        let j = choose|j: int| 0 <= j < list.len() && list[j] == name;
        assert(position(list, name) <= j);
    }
}

/// Finds the first occurrence of `name` in `list`.
pub fn find_name(list: &Vec<String>, name: &str) -> (res: usize)
    ensures
        res == position(names_of(list@), name@),
        res <= list@.len(),
        res < list@.len() <==> names_of(list@).contains(name@),
        res < list@.len() ==> list@[res as int]@ == name@,
{
    let key: String = name.to_owned();
    let mut i: usize = 0;
    while i < list.len()
        invariant
            i <= list@.len(),
            key@ == name@,
            position_upto(names_of(list@), name@, i as int) == i,
        decreases list@.len() - i,
    {
        if list[i] == key {
            proof {
                let names = names_of(list@);
                assert(names[i as int] == name@);
                lemma_position_rest(names, name@, i as int + 1, names.len() as int);
                lemma_position(names, name@);
            }
            return i;
        }
        i = i + 1;
    }
    proof {
        lemma_position(names_of(list@), name@);
    }
    i
}

/// Once the name has been found, looking further finds it at the same place.
pub proof fn lemma_position_rest(list: Seq<Name>, name: Name, k: int, m: int)
    requires
        0 < k <= m <= list.len(),
        position_upto(list, name, k) < k,
    ensures
        position_upto(list, name, m) == position_upto(list, name, k),
    decreases m - k,
{
    if k < m {
        lemma_position_rest(list, name, k, m - 1);
    }
}

/// Whether two names are equal.
pub fn same_name(a: &str, b: &str) -> (eq: bool)
    ensures
        eq == (a@ == b@),
{
    let x: String = a.to_owned();
    let y: String = b.to_owned();
    x == y
}

/// Whether `name` occurs in `list`.
pub fn has_name(list: &Vec<String>, name: &str) -> (found: bool)
    ensures
        found == names_of(list@).contains(name@),
{
    find_name(list, name) < list.len()
}

/// The name `unit.field` of a port or of a stage field.
pub open spec fn qualified(unit: Name, field: Name) -> Name {
    unit + seq!['.'] + field
}

/// Joins a unit name and a field name by a dot.
pub fn join(unit: &str, field: &str) -> (name: String)
    ensures
        name@ == qualified(unit@, field@),
{
    proof {
        reveal_strlit(".");
        assert("."@ =~= seq!['.']);
    }
    let s: String = unit.to_owned();
    let s: String = s.concat(".");
    s.concat(field)
}

} // verus!
