use vstd::prelude::*;
use vstd::string::StrSliceExecFns;

verus! {

/// The first word of `s`: the longest prefix that contains no space. The
/// result is the whole string when it has no space, and it is followed by a
/// space in `s` otherwise.
pub fn first_word(s: &String) -> (r: &str)
    ensures
        r@.len() <= s@.len(),
        r@ == s@.subrange(0, r@.len() as int),
        forall|j: int| 0 <= j < r@.len() ==> s@[j] != ' ',
        r@.len() < s@.len() ==> s@[r@.len() as int] == ' ',
{
    let n: usize = s.as_str().unicode_len();
    let mut i: usize = 0;
    while i < n
        invariant
            i <= n,
            n == s@.len(),
            forall|j: int| 0 <= j < i ==> s@[j] != ' ',
        decreases n - i,
    {
        if s.as_str().get_char(i) == ' ' {
            return s.as_str().substring_char(0, i);
        }
        i = i + 1;
    }
    proof {
        assert(s@.subrange(0, s@.len() as int) =~= s@);
    }
    s.as_str()
}

} // verus!
