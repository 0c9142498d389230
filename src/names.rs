//! Branch names held in vectors, read as sets.
use vstd::prelude::*;

verus! {

/// `v` holds a string whose characters are `s`.
pub open spec fn has_name(v: Seq<String>, s: Seq<char>) -> bool {
    exists|k: int| 0 <= k < v.len() && (#[trigger] v[k])@ == s
}

/// The names held in `v`, as a set.
pub open spec fn name_set(v: Seq<String>) -> Set<Seq<char>> {
    Set::new(|s: Seq<char>| has_name(v, s))
}

/// A set with at least one member.
pub open spec fn nonempty(s: Set<Seq<char>>) -> bool {
    exists|x: Seq<char>| s.contains(x)
}

pub proof fn lemma_has_name_push(v: Seq<String>, x: String, s: Seq<char>)
    ensures
        has_name(v.push(x), s) <==> (has_name(v, s) || x@ == s),
{
    if has_name(v, s) {
        let k = choose|k: int| 0 <= k < v.len() && (#[trigger] v[k])@ == s;
        assert(v.push(x)[k] == v[k]);
    }
    if x@ == s {
        assert(v.push(x)[v.len() as int] == x);
    }
    if has_name(v.push(x), s) {
        let k = choose|k: int| 0 <= k < v.push(x).len() && (#[trigger] v.push(x)[k])@ == s;
        if k < v.len() {
            assert(v[k] == v.push(x)[k]);
        }
    }
}

/// Whether `v` holds the name `s`.
pub fn contains_name(v: &Vec<String>, s: &String) -> (r: bool)
    ensures
        r == has_name(v@, s@),
{
    let mut i: usize = 0;
    while i < v.len()
        invariant
            0 <= i <= v.len(),
            forall|k: int| 0 <= k < i ==> (#[trigger] v@[k])@ != s@,
        decreases v.len() - i,
    {
        if v[i] == *s {
            assert(v@[i as int]@ == s@);
            return true;
        }
        i += 1;
    }
    false
}

/// Whether `v` holds a name other than `s`.
pub fn has_other_name(v: &Vec<String>, s: &String) -> (r: bool)
    ensures
        r == nonempty(name_set(v@).remove(s@)),
{
    let mut i: usize = 0;
    while i < v.len()
        invariant
            0 <= i <= v.len(),
            forall|k: int| 0 <= k < i ==> (#[trigger] v@[k])@ == s@,
        decreases v.len() - i,
    {
        if v[i] != *s {
            assert(name_set(v@).remove(s@).contains(v@[i as int]@));
            return true;
        }
        i += 1;
    }
    assert forall|x: Seq<char>| !name_set(v@).remove(s@).contains(x) by {
        if has_name(v@, x) {
            let k = choose|k: int| 0 <= k < v@.len() && (#[trigger] v@[k])@ == x;
        }
    }
    false
}

/// A copy of `v`, string by string.
pub fn copy_names(v: &Vec<String>) -> (r: Vec<String>)
    ensures
        r@ == v@,
{
    let mut r: Vec<String> = Vec::new();
    let mut i: usize = 0;
    while i < v.len()
        invariant
            0 <= i <= v.len(),
            r@ == v@.subrange(0, i as int),
        decreases v.len() - i,
    {
        r.push(v[i].clone());
        i += 1;
    }
    assert(v@.subrange(0, v.len() as int) == v@);
    r
}

} // verus!
