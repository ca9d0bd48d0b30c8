//! The counting game: multiples of three say fizz, multiples of five
//! say buzz, multiples of both say fizzbuzz, and every other number
//! says itself.

use vstd::prelude::*;

verus! {

use crate::strutil::decimal_of;
use crate::strutil::push_decimal;

/// What is said for one number.
pub open spec fn spec_fizzbuzz(n: nat) -> Seq<char> {
    if n % 15 == 0 {
        "fizzbuzz"@
    } else if n % 3 == 0 {
        "fizz"@
    } else if n % 5 == 0 {
        "buzz"@
    } else {
        decimal_of(n)
    }
}

/// The line said for one number.
pub fn fizzbuzz_label(n: u64) -> (r: String)
    ensures
        r@ == spec_fizzbuzz(n as nat),
{
    if n % 15 == 0 {
        String::from_str("fizzbuzz")
    } else if n % 3 == 0 {
        String::from_str("fizz")
    } else if n % 5 == 0 {
        String::from_str("buzz")
    } else {
        let mut out = String::new();
        push_decimal(&mut out, n);
        proof {
            assert(Seq::<char>::empty() + decimal_of(n as nat) =~= decimal_of(n as nat));
        }
        out
    }
}

/// The lines said when counting from 1 up to `n`.
pub fn fizzbuzz_lines(n: u64) -> (r: Vec<String>)
    ensures
        r@.len() == n,
        forall|i: int| 0 <= i < n ==> (#[trigger] r@[i])@ == spec_fizzbuzz((i + 1) as nat),
{
    let mut out: Vec<String> = Vec::new();
    let mut i: u64 = 0;
    while i < n
        invariant
            i <= n,
            out@.len() == i,
            forall|k: int| 0 <= k < i ==> (#[trigger] out@[k])@ == spec_fizzbuzz((k + 1) as nat),
        decreases n - i,
    {
        out.push(fizzbuzz_label(i + 1));
        i = i + 1;
    }
    out
}

} // verus!
