//! Random passwords drawn from a fixed set of letters, digits and
//! symbols.

use vstd::prelude::*;

verus! {

use crate::rng::fresh_rng;
use crate::rng::random_below;

/// The characters a password may contain: the letters in both cases,
/// the digits, and the symbols.
pub open spec fn spec_charset() -> Seq<char> {
    "ABCDEFGHIJKLMNOPQRSTUVWXYZabcdefghijklmnopqrstuvwxyz0123456789`~!@#$%^&*()-_=+{}[]|\\:;\"',<.>/?"@
}

/// The password alphabet, with its length pinned down.
pub fn charset() -> (r: &'static str)
    ensures
        r@ == spec_charset(),
        r@.len() == 94,
{
    let cs =
        "ABCDEFGHIJKLMNOPQRSTUVWXYZabcdefghijklmnopqrstuvwxyz0123456789`~!@#$%^&*()-_=+{}[]|\\:;\"',<.>/?";
    proof {
        reveal_strlit(
            "ABCDEFGHIJKLMNOPQRSTUVWXYZabcdefghijklmnopqrstuvwxyz0123456789`~!@#$%^&*()-_=+{}[]|\\:;\"',<.>/?",
        );
    }
    cs
}

/// Draws a password of the asked length; every character comes from
/// the password alphabet.
pub fn generate_password(length: usize) -> (r: String)
    ensures
        r@.len() == length,
        forall|i: int| 0 <= i < r@.len() ==> spec_charset().contains(#[trigger] r@[i]),
{
    let cs = crate::strutil::str_to_chars(charset());
    let mut rng = fresh_rng();
    let mut out = String::new();
    let mut i: usize = 0;
    while i < length
        invariant
            cs@ == spec_charset(),
            cs@.len() == 94,
            i <= length,
            out@.len() == i,
            forall|k: int| 0 <= k < out@.len() ==> spec_charset().contains(#[trigger] out@[k]),
        decreases length - i,
    {
        let idx = random_below(&mut rng, 94) as usize;
        out.push(cs[idx]);
        i = i + 1;
    }
    out
}

} // verus!
