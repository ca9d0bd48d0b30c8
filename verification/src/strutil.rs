//! Small helpers for building strings in verified code.

use vstd::prelude::*;

verus! {

pub open spec fn is_space_char(c: char) -> bool {
    c == ' ' || c == '\t' || c == '\n' || c == '\r' || c == '\u{c}'
}

pub open spec fn is_digit_char(c: char) -> bool {
    '0' <= c && c <= '9'
}

/// Length of the run of whitespace characters starting at `i`.
pub open spec fn ws_run(s: Seq<char>, i: int) -> nat
    decreases s.len() - i,
{
    if 0 <= i < s.len() && is_space_char(s[i]) {
        (ws_run(s, i + 1) + 1) as nat
    } else {
        0
    }
}

/// The first position at or after `i` that does not hold whitespace.
pub open spec fn skip_ws(s: Seq<char>, i: int) -> int {
    i + ws_run(s, i)
}

/// Length of the run of digit characters starting at `i`.
pub open spec fn digit_run(s: Seq<char>, i: int) -> nat
    decreases s.len() - i,
{
    if 0 <= i < s.len() && is_digit_char(s[i]) {
        (digit_run(s, i + 1) + 1) as nat
    } else {
        0
    }
}

/// Length of the run of whitespace characters ending just before `i`.
pub open spec fn ws_run_back(s: Seq<char>, i: int) -> nat
    decreases i,
{
    if 0 < i <= s.len() && is_space_char(s[i - 1]) {
        (ws_run_back(s, i - 1) + 1) as nat
    } else {
        0
    }
}

/// The characters of `s` with leading and trailing whitespace removed.
pub open spec fn trimmed(s: Seq<char>) -> Seq<char> {
    let start = skip_ws(s, 0);
    let end = s.len() - ws_run_back(s, s.len() as int);
    if start <= end {
        s.subrange(start, end)
    } else {
        Seq::empty()
    }
}

pub proof fn lemma_ws_run(s: Seq<char>, i: int)
    requires
        0 <= i <= s.len(),
    ensures
        i + ws_run(s, i) <= s.len(),
        forall|k: int| i <= k < i + ws_run(s, i) ==> is_space_char(s[k]),
        i + ws_run(s, i) < s.len() ==> !is_space_char(s[i + ws_run(s, i)]),
    decreases s.len() - i,
{
    if i < s.len() && is_space_char(s[i]) {
        lemma_ws_run(s, i + 1);
    }
}

pub proof fn lemma_digit_run(s: Seq<char>, i: int)
    requires
        0 <= i <= s.len(),
    ensures
        i + digit_run(s, i) <= s.len(),
        forall|k: int| i <= k < i + digit_run(s, i) ==> is_digit_char(s[k]),
        i + digit_run(s, i) < s.len() ==> !is_digit_char(s[i + digit_run(s, i)]),
    decreases s.len() - i,
{
    if i < s.len() && is_digit_char(s[i]) {
        lemma_digit_run(s, i + 1);
    }
}

pub proof fn lemma_ws_run_back(s: Seq<char>, i: int)
    requires
        0 <= i <= s.len(),
    ensures
        ws_run_back(s, i) <= i,
        forall|k: int| i - ws_run_back(s, i) <= k < i ==> is_space_char(s[k]),
        i - ws_run_back(s, i) > 0 ==> !is_space_char(s[i - ws_run_back(s, i) - 1]),
    decreases i,
{
    if 0 < i && is_space_char(s[i - 1]) {
        lemma_ws_run_back(s, i - 1);
    }
}

pub fn is_space(c: char) -> (r: bool)
    ensures
        r == is_space_char(c),
{
    c == ' ' || c == '\t' || c == '\n' || c == '\r' || c == '\u{c}'
}

pub fn is_digit(c: char) -> (r: bool)
    ensures
        r == is_digit_char(c),
{
    let u = c as u32;
    48 <= u && u <= 57
}

/// The characters of a string slice, in order.
pub fn str_to_chars(s: &str) -> (r: Vec<char>)
    ensures
        r@ == s@,
{
    let n = s.unicode_len();
    let mut v: Vec<char> = Vec::new();
    let mut i: usize = 0;
    while i < n
        invariant
            n == s@.len(),
            i <= n,
            v@ == s@.subrange(0, i as int),
        decreases n - i,
    {
        v.push(s.get_char(i));
        i = i + 1;
        proof {
            assert(v@ =~= s@.subrange(0, i as int));
        }
    }
    proof {
        assert(s@.subrange(0, n as int) =~= s@);
    }
    v
}

pub fn skip_ws_exec(chars: &Vec<char>, i: usize) -> (j: usize)
    requires
        i <= chars@.len(),
    ensures
        j as int == skip_ws(chars@, i as int),
        i <= j <= chars@.len(),
{
    proof {
        lemma_ws_run(chars@, i as int);
    }
    let mut j = i;
    while j < chars.len() && is_space(chars[j])
        invariant
            i <= j <= chars@.len(),
            skip_ws(chars@, i as int) == skip_ws(chars@, j as int),
        decreases chars@.len() - j,
    {
        j = j + 1;
    }
    j
}

/// The bounds of `chars` with leading and trailing whitespace removed:
/// `trimmed(chars@)` is exactly `chars@` between the two results.
pub fn trim_range(chars: &Vec<char>) -> (r: (usize, usize))
    ensures
        r.0 <= r.1 <= chars@.len(),
        trimmed(chars@) == chars@.subrange(r.0 as int, r.1 as int),
{
    let len = chars.len();
    let start = skip_ws_exec(chars, 0);
    let mut end = len;
    while end > start && is_space(chars[end - 1])
        invariant
            start <= end <= chars@.len(),
            start as int == skip_ws(chars@, 0),
            forall|k: int| end <= k < chars@.len() ==> is_space_char(chars@[k]),
            ws_run_back(chars@, chars@.len() as int) == (chars@.len() - end) + ws_run_back(
                chars@,
                end as int,
            ),
        decreases end,
    {
        end = end - 1;
    }
    proof {
        let s = chars@;
        lemma_ws_run(s, 0);
        let sp_end = s.len() - ws_run_back(s, s.len() as int);
        if start == len {
            // the whole string is whitespace, so both sides are empty
            lemma_all_space_back(s, s.len() as int);
            assert(trimmed(s) =~= s.subrange(start as int, end as int));
        } else {
            assert(!is_space_char(s[start as int]));
            assert(end > start);
            assert(!is_space_char(s[end - 1]));
            assert(ws_run_back(s, end as int) == 0);
            assert(sp_end == end);
            assert(trimmed(s) == s.subrange(start as int, end as int));
        }
    }
    (start, end)
}

proof fn lemma_all_space_back(s: Seq<char>, i: int)
    requires
        0 <= i <= s.len(),
        forall|k: int| 0 <= k < s.len() ==> is_space_char(s[k]),
    ensures
        ws_run_back(s, i) == i,
    decreases i,
{
    if i > 0 {
        lemma_all_space_back(s, i - 1);
    }
}

/// The upper-case form of an ASCII letter; any other character is
/// unchanged.
pub open spec fn upper_char(c: char) -> char {
    if c == 'a' {
        'A'
    } else if c == 'b' {
        'B'
    } else if c == 'c' {
        'C'
    } else if c == 'd' {
        'D'
    } else if c == 'e' {
        'E'
    } else if c == 'f' {
        'F'
    } else if c == 'g' {
        'G'
    } else if c == 'h' {
        'H'
    } else if c == 'i' {
        'I'
    } else if c == 'j' {
        'J'
    } else if c == 'k' {
        'K'
    } else if c == 'l' {
        'L'
    } else if c == 'm' {
        'M'
    } else if c == 'n' {
        'N'
    } else if c == 'o' {
        'O'
    } else if c == 'p' {
        'P'
    } else if c == 'q' {
        'Q'
    } else if c == 'r' {
        'R'
    } else if c == 's' {
        'S'
    } else if c == 't' {
        'T'
    } else if c == 'u' {
        'U'
    } else if c == 'v' {
        'V'
    } else if c == 'w' {
        'W'
    } else if c == 'x' {
        'X'
    } else if c == 'y' {
        'Y'
    } else if c == 'z' {
        'Z'
    } else {
        c
    }
}

/// The upper-case form of an ASCII letter.
pub fn to_upper(c: char) -> (r: char)
    ensures
        r == upper_char(c),
{
    match c {
        'a' => 'A',
        'b' => 'B',
        'c' => 'C',
        'd' => 'D',
        'e' => 'E',
        'f' => 'F',
        'g' => 'G',
        'h' => 'H',
        'i' => 'I',
        'j' => 'J',
        'k' => 'K',
        'l' => 'L',
        'm' => 'M',
        'n' => 'N',
        'o' => 'O',
        'p' => 'P',
        'q' => 'Q',
        'r' => 'R',
        's' => 'S',
        't' => 'T',
        'u' => 'U',
        'v' => 'V',
        'w' => 'W',
        'x' => 'X',
        'y' => 'Y',
        'z' => 'Z',
        _ => c,
    }
}

/// Relies on std's String::push: appends exactly the given character.
pub assume_specification[ String::push ](s: &mut String, c: char)
    ensures
        final (s)@ == old(s)@.push(c),
;

/// The decimal digit character for a value below ten.
pub open spec fn decimal_digit(n: nat) -> char {
    if n == 0 {
        '0'
    } else if n == 1 {
        '1'
    } else if n == 2 {
        '2'
    } else if n == 3 {
        '3'
    } else if n == 4 {
        '4'
    } else if n == 5 {
        '5'
    } else if n == 6 {
        '6'
    } else if n == 7 {
        '7'
    } else if n == 8 {
        '8'
    } else {
        '9'
    }
}

/// The decimal rendering of a natural number, most significant digit
/// first, with no sign and no leading zeros (zero itself is "0").
pub open spec fn decimal_of(n: nat) -> Seq<char>
    decreases n,
{
    if n < 10 {
        seq![decimal_digit(n)]
    } else {
        decimal_of(n / 10).push(decimal_digit(n % 10))
    }
}

/// Appends the decimal rendering of `n` to `out`.
pub fn push_decimal(out: &mut String, n: u64)
    ensures
        final (out)@ == old(out)@ + decimal_of(n as nat),
    decreases n,
{
    if n < 10 {
        out.push(digit_char(n as u8));
    } else {
        push_decimal(out, n / 10);
        out.push(digit_char((n % 10) as u8));
    }
}

/// The decimal rendering of an integer: a minus sign before the digits
/// of the magnitude when it is negative.
pub open spec fn int_decimal_of(n: int) -> Seq<char> {
    if n < 0 {
        seq!['-'] + decimal_of((-n) as nat)
    } else {
        decimal_of(n as nat)
    }
}

/// Appends the decimal rendering of `n`, sign included, to `out`.
pub fn push_int_decimal(out: &mut String, n: i64)
    requires
        n > i64::MIN,
    ensures
        final (out)@ == old(out)@ + int_decimal_of(n as int),
{
    if n < 0 {
        out.push('-');
        push_decimal(out, (-n) as u64);
        proof {
            assert(old(out)@ + int_decimal_of(n as int) =~= old(out)@.push('-') + decimal_of(
                (-n) as nat,
            ));
        }
    } else {
        push_decimal(out, n as u64);
    }
}

/// The character for one decimal digit.
fn digit_char(d: u8) -> (c: char)
    requires
        d < 10,
    ensures
        c == decimal_digit(d as nat),
{
    match d {
        0 => '0',
        1 => '1',
        2 => '2',
        3 => '3',
        4 => '4',
        5 => '5',
        6 => '6',
        7 => '7',
        8 => '8',
        _ => '9',
    }
}

} // verus!
