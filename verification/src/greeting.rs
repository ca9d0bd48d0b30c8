//! The lines a runner prints when it starts and when it finishes.

use vstd::prelude::*;

verus! {

use crate::strutil::int_decimal_of;
use crate::strutil::push_int_decimal;

pub open spec fn spec_hello_line(runner: int) -> Seq<char> {
    "["@ + int_decimal_of(runner) + "] Hello world!"@
}

pub open spec fn spec_goodbye_line(runner: int) -> Seq<char> {
    "["@ + int_decimal_of(runner) + "] Goodbye world!"@
}

/// The line a runner prints when it starts.
pub fn hello_line(runner: i32) -> (r: String)
    ensures
        r@ == spec_hello_line(runner as int),
{
    let mut out = String::from_str("[");
    push_int_decimal(&mut out, runner as i64);
    out.append("] Hello world!");
    out
}

/// The line a runner prints when it finishes.
pub fn goodbye_line(runner: i32) -> (r: String)
    ensures
        r@ == spec_goodbye_line(runner as int),
{
    let mut out = String::from_str("[");
    push_int_decimal(&mut out, runner as i64);
    out.append("] Goodbye world!");
    out
}

} // verus!
