//! Small string helpers: the characters of a string and suffix tests.
use vstd::prelude::*;

verus! {

/// The characters of a string, one by one.
pub fn chars_of(s: &str) -> (r: Vec<char>)
    ensures
        r@ == s@,
{
    broadcast use vstd::string::axiom_spec_iter;

    let mut r: Vec<char> = Vec::new();
    for c in it: s.chars()
        invariant
            r@ == it.seq().take(it.index()),
    {
        r.push(c);
    }
    r
}

/// Whether `s` ends with `suffix`.
pub open spec fn has_suffix(s: Seq<char>, suffix: Seq<char>) -> bool {
    s.len() >= suffix.len() && s.subrange(s.len() - suffix.len(), s.len() as int) == suffix
}

pub fn ends_with(s: &str, suffix: &str) -> (r: bool)
    ensures
        r == has_suffix(s@, suffix@),
{
    let sc = chars_of(s);
    let xc = chars_of(suffix);
    if sc.len() < xc.len() {
        return false;
    }
    let offset = sc.len() - xc.len();
    let mut i: usize = 0;
    while i < xc.len()
        invariant
            sc@ == s@,
            xc@ == suffix@,
            offset + xc.len() == sc.len(),
            i <= xc@.len(),
            forall|j: int| 0 <= j < i ==> sc@[offset + j] == xc@[j],
        decreases xc.len() - i,
    {
        if sc[offset + i] != xc[i] {
            assert(sc@.subrange(offset as int, sc@.len() as int)[i as int] != xc@[i as int]);
            return false;
        }
        i = i + 1;
    }
    assert(sc@.subrange(offset as int, sc@.len() as int) =~= xc@);
    true
}

} // verus!
