use vstd::prelude::*;
use vstd::string::StrSliceExecFns;
use crate::digits::{all_digits, digits_value, is_digit, digit_of, lemma_digits_value_prefix};

verus! {

/// Is `c` one of the whitespace characters tolerated around a guess?
pub open spec fn is_space_char(c: char) -> bool {
    c == ' ' || c == '\t' || c == '\n' || c == '\r'
}

/// `s` with its leading whitespace removed.
pub open spec fn trim_start_spec(s: Seq<char>) -> Seq<char>
    decreases s.len(),
{
    if s.len() > 0 && is_space_char(s[0]) {
        trim_start_spec(s.drop_first())
    } else {
        s
    }
}

/// `s` with its trailing whitespace removed.
pub open spec fn trim_end_spec(s: Seq<char>) -> Seq<char>
    decreases s.len(),
{
    if s.len() > 0 && is_space_char(s.last()) {
        trim_end_spec(s.drop_last())
    } else {
        s
    }
}

/// `s` with surrounding whitespace removed.
pub open spec fn trim_spec(s: Seq<char>) -> Seq<char> {
    trim_end_spec(trim_start_spec(s))
}

/// What one line of input denotes as a guess: after trimming surrounding
/// whitespace the text must be a non-empty run of decimal digits whose value
/// is representable; anything else is not a guess.
pub open spec fn parse_guess_spec(line: Seq<char>) -> Option<u32> {
    let t = trim_spec(line);
    if t.len() > 0 && all_digits(t) && digits_value(t) <= u32::MAX as nat {
        Some(digits_value(t) as u32)
    } else {
        None
    }
}

/// Is `c` one of the whitespace characters tolerated around a guess?
pub fn is_space(c: char) -> (r: bool)
    ensures
        r == is_space_char(c),
{
    c == ' ' || c == '\t' || c == '\n' || c == '\r'
}

/// Parse one line of input as a guess: trim surrounding whitespace, then
/// read the remainder as a decimal number. Text that is empty, not all
/// digits, or too large to represent yields `None`.
pub fn parse_guess(line: &str) -> (r: Option<u32>)
    ensures
        r == parse_guess_spec(line@),
{
    let n: usize = line.unicode_len();
    proof {
        assert(line@.skip(0) =~= line@);
    }
    let mut start: usize = 0;
    while start < n && is_space(line.get_char(start))
        invariant
            start <= n,
            n == line@.len(),
            trim_start_spec(line@) == trim_start_spec(line@.skip(start as int)),
        decreases n - start,
    {
        proof {
            assert(line@.skip(start as int).drop_first() =~= line@.skip(start as int + 1));
        }
        start = start + 1;
    }
    proof {
        assert(trim_start_spec(line@.skip(start as int)) == line@.skip(start as int));
    }
    let mut end: usize = n;
    while end > start && is_space(line.get_char(end - 1))
        invariant
            start <= end <= n,
            n == line@.len(),
            trim_start_spec(line@) == line@.skip(start as int),
            trim_end_spec(line@.skip(start as int)) == trim_end_spec(
                line@.subrange(start as int, end as int),
            ),
        decreases end,
    {
        proof {
            let cur = line@.subrange(start as int, end as int);
            assert(cur.last() == line@[end - 1]);
            assert(cur.drop_last() =~= line@.subrange(start as int, end as int - 1));
        }
        end = end - 1;
    }
    let ghost t = line@.subrange(start as int, end as int);
    proof {
        assert(line@.skip(start as int) =~= line@.subrange(start as int, n as int));
        assert(trim_end_spec(t) == t);
        assert(trim_spec(line@) == t);
    }
    if start == end {
        return None;
    }
    let mut acc: u64 = 0;
    let mut i: usize = start;
    while i < end
        invariant
            start <= i <= end <= n,
            n == line@.len(),
            end > start,
            t == line@.subrange(start as int, end as int),
            trim_spec(line@) == t,
            all_digits(t.take(i - start)),
            acc as nat == digits_value(t.take(i - start)),
            acc <= u32::MAX as u64,
        decreases end - i,
    {
        let c = line.get_char(i);
        proof {
            assert(t[i - start] == line@[i as int]);
        }
        match digit_of(c) {
            None => {
                proof {
                    assert(!is_digit(t[i - start]));
                    assert(!all_digits(t));
                }
                return None;
            },
            Some(d) => {
                let next: u64 = acc * 10 + d as u64;
                proof {
                    assert(t.take(i - start + 1).drop_last() =~= t.take(i - start));
                    assert(t.take(i - start + 1).last() == t[i - start]);
                    assert(next as nat == digits_value(t.take(i - start + 1)));
                }
                if next > u32::MAX as u64 {
                    proof {
                        lemma_digits_value_prefix(t, i - start + 1);
                        assert(digits_value(t) > u32::MAX as nat);
                    }
                    return None;
                }
                acc = next;
                proof {
                    assert(all_digits(t.take(i - start + 1)));
                }
                i = i + 1;
            },
        }
    }
    proof {
        assert(t.take(end - start) =~= t);
    }
    Some(acc as u32)
}

} // verus!
