use vstd::prelude::*;

verus! {

/// The character sequences of a sequence of strings.
pub open spec fn names(s: Seq<String>) -> Seq<Seq<char>> {
    s.map_values(|x: String| x@)
}

/// Whether a list of strings holds a string equal to `s`.
pub fn contains_name(v: &Vec<String>, s: &String) -> (found: bool)
    ensures
        found == names(v@).contains(s@),
{
    let mut i: usize = 0;
    while i < v.len()
        invariant
            0 <= i <= v.len(),
            forall|j: int| 0 <= j < i ==> #[trigger] names(v@)[j] != s@,
        decreases v.len() - i,
    {
        if v[i] == *s {
            assert(names(v@)[i as int] == s@);
            return true;
        }
        i = i + 1;
    }
    proof {
        if names(v@).contains(s@) {
            let k = choose|k: int| 0 <= k < names(v@).len() && names(v@)[k] == s@;
            assert(names(v@)[k] != s@);
        }
    }
    false
}

/// Whether every string of `a` equals some string of `b`.
pub fn all_contained(a: &Vec<String>, b: &Vec<String>) -> (r: bool)
    ensures
        r == (forall|i: int| 0 <= i < a@.len() ==> names(b@).contains(#[trigger] names(a@)[i])),
{
    let mut i: usize = 0;
    while i < a.len()
        invariant
            0 <= i <= a.len(),
            forall|j: int| 0 <= j < i ==> names(b@).contains(#[trigger] names(a@)[j]),
        decreases a.len() - i,
    {
        if !contains_name(b, &a[i]) {
            assert(!names(b@).contains(names(a@)[i as int]));
            return false;
        }
        i = i + 1;
    }
    true
}

/// Whether two lists hold equal strings in the same order.
pub fn same_names(a: &Vec<String>, b: &Vec<String>) -> (r: bool)
    ensures
        r == (names(a@) == names(b@)),
{
    if a.len() != b.len() {
        assert(names(a@).len() != names(b@).len());
        return false;
    }
    let mut i: usize = 0;
    while i < a.len()
        invariant
            0 <= i <= a.len(),
            a.len() == b.len(),
            forall|j: int| 0 <= j < i ==> #[trigger] names(a@)[j] == names(b@)[j],
        decreases a.len() - i,
    {
        if a[i] != b[i] {
            assert(names(a@)[i as int] != names(b@)[i as int]);
            return false;
        }
        i = i + 1;
    }
    assert(names(a@) =~= names(b@));
    true
}

/// Appending a string appends its characters to the names.
pub proof fn lemma_names_push(s: Seq<String>, x: String)
    ensures
        names(s.push(x)) == names(s).push(x@),
{
    assert(names(s.push(x)) =~= names(s).push(x@));
}

} // verus!
