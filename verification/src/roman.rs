//! Conversion of roman numerals to arabic numbers.
//!
//! Each letter contributes its value; a letter standing before a
//! strictly larger one is subtracted instead of added (so `IX` is 9).

use vstd::prelude::*;

verus! {

use crate::strutil::trimmed;
use crate::strutil::trim_range;
use crate::strutil::str_to_chars;

/// The letters that name a roman digit, in either case.
pub open spec fn is_roman_char(c: char) -> bool {
    roman_char_value(c) > 0
}

/// The value of one roman letter, upper or lower case; zero for any
/// other character.
pub open spec fn roman_char_value(c: char) -> int {
    if c == 'I' || c == 'i' {
        1
    } else if c == 'V' || c == 'v' {
        5
    } else if c == 'X' || c == 'x' {
        10
    } else if c == 'L' || c == 'l' {
        50
    } else if c == 'C' || c == 'c' {
        100
    } else if c == 'D' || c == 'd' {
        500
    } else {
        if c == 'M' || c == 'm' {
            1000
        } else {
            0
        }
    }
}

/// The arabic value of a sequence of roman letters: every letter is
/// added, except that a letter of lower value than its successor is
/// subtracted.
pub open spec fn roman_sum(s: Seq<char>) -> int
    decreases s.len(),
{
    if s.len() == 0 {
        0
    } else if s.len() == 1 {
        roman_char_value(s[0])
    } else {
        (if roman_char_value(s[0]) >= roman_char_value(s[1]) {
            roman_char_value(s[0])
        } else {
            -roman_char_value(s[0])
        }) + roman_sum(s.drop_first())
    }
}

fn roman_value_exec(c: char) -> (v: i32)
    ensures
        v as int == roman_char_value(c),
{
    if c == 'I' || c == 'i' {
        1
    } else if c == 'V' || c == 'v' {
        5
    } else if c == 'X' || c == 'x' {
        10
    } else if c == 'L' || c == 'l' {
        50
    } else if c == 'C' || c == 'c' {
        100
    } else if c == 'D' || c == 'd' {
        500
    } else if c == 'M' || c == 'm' {
        1000
    } else {
        0
    }
}

proof fn lemma_roman_sum_bound(s: Seq<char>)
    ensures
        -1000 * s.len() <= roman_sum(s) <= 1000 * s.len(),
    decreases s.len(),
{
    if s.len() > 1 {
        lemma_roman_sum_bound(s.drop_first());
        assert(-1000 <= roman_char_value(s[0]) <= 1000);
    }
}

/// Converts a roman numeral, surrounding whitespace tolerated, to its
/// arabic value.  Every character between the whitespace ends must be a
/// roman letter (in either case); the length bound keeps the sum within
/// a 32-bit integer.
pub fn roman_to_arabic(s: &str) -> (r: i32)
    requires
        forall|k: int|
            0 <= k < trimmed(s@).len() ==> #[trigger] is_roman_char(trimmed(s@)[k]),
        s@.len() <= 1000000,
    ensures
        r as int == roman_sum(trimmed(s@)),
{
    let chars = str_to_chars(s);
    let (start, end) = trim_range(&chars);
    let ghost t = trimmed(s@);
    proof {
        assert(t.skip(0) =~= t);
    }
    let mut acc: i64 = 0;
    let mut k = start;
    while k < end
        invariant
            start <= k <= end <= chars@.len(),
            chars@ == s@,
            s@.len() <= 1000000,
            t == trimmed(s@),
            t == chars@.subrange(start as int, end as int),
            forall|j: int| 0 <= j < t.len() ==> #[trigger] is_roman_char(t[j]),
            roman_sum(t) == acc + roman_sum(t.skip(k - start)),
            -1000 * (k - start) <= acc <= 1000 * (k - start),
        decreases end - k,
    {
        let v = roman_value_exec(chars[k]);
        proof {
            let rest = t.skip(k - start);
            assert(rest[0] == t[k - start]);
            assert(t[k - start] == chars@[k as int]);
            if k + 1 < end {
                assert(rest[1] == chars@[k + 1]);
            }
            assert(rest.drop_first() =~= t.skip(k + 1 - start));
            lemma_roman_sum_bound(t.skip(k + 1 - start));
        }
        if k + 1 == end {
            acc = acc + v as i64;
        } else if roman_value_exec(chars[k]) >= roman_value_exec(chars[k + 1]) {
            acc = acc + v as i64;
        } else {
            acc = acc - v as i64;
        }
        k = k + 1;
    }
    proof {
        assert(t.skip(end - start) =~= Seq::<char>::empty());
        assert(-1000 * 1000000 <= acc <= 1000 * 1000000);
    }
    acc as i32
}

} // verus!
