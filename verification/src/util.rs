use vstd::prelude::*;

verus! {

/// The only character of a one-character string.
pub fn as_single_char(s: &str) -> (r: Option<char>)
    ensures
        r == (if s@.len() == 1 { Some(s@[0]) } else { None::<char> }),
{
    if s.unicode_len() == 1 {
        Some(s.get_char(0))
    } else {
        None
    }
}

/// String equality.
pub fn str_eq(a: &str, b: &str) -> (r: bool)
    ensures
        r == (a@ == b@),
{
    let a_len = a.unicode_len();
    if a_len != b.unicode_len() {
        return false;
    }
    let mut i: usize = 0;
    while i < a_len
        invariant
            a_len == a@.len(),
            a_len == b@.len(),
            i <= a_len,
            forall|j: int| 0 <= j < i ==> a@[j] == b@[j],
        decreases a_len - i,
    {
        if a.get_char(i) != b.get_char(i) {
            return false;
        }
        i = i + 1;
    }
    assert(a@ =~= b@);
    true
}

} // verus!
