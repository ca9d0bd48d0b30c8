//! ANSI escape styling for terminal text.
//!
//! Each method wraps a string in an escape sequence that switches a
//! style on and in the reset sequence that switches it off again.

use vstd::prelude::*;

verus! {

use crate::strutil::decimal_of;
use crate::strutil::push_decimal;

pub open spec fn spec_bold(s: Seq<char>) -> Seq<char> {
    "\u{1b}[1m"@ + s + "\u{1b}[0m"@
}

pub open spec fn spec_italic(s: Seq<char>) -> Seq<char> {
    "\u{1b}[3m"@ + s + "\u{1b}[0m"@
}

pub open spec fn spec_blink(s: Seq<char>, is_fast: bool) -> Seq<char> {
    (if is_fast {
        "\u{1b}[6m"@
    } else {
        "\u{1b}[5m"@
    }) + s + "\u{1b}[0m"@
}

/// The red, green and blue channels of a packed `0xRRGGBB` colour.
pub open spec fn spec_channels(rgb: u32) -> (u32, u32, u32) {
    ((rgb >> 16) & 0xFF, (rgb >> 8) & 0xFF, rgb & 0xFF)
}

pub open spec fn spec_foreground(s: Seq<char>, rgb: u32) -> Seq<char> {
    "\u{1b}[38;2;"@ + decimal_of(spec_channels(rgb).0 as nat) + ";"@ + decimal_of(
        spec_channels(rgb).1 as nat,
    ) + ";"@ + decimal_of(spec_channels(rgb).2 as nat) + "m"@ + s + "\u{1b}[0m"@
}

pub open spec fn spec_background(s: Seq<char>, rgb: u32) -> Seq<char> {
    "\u{1b}[48;2;"@ + decimal_of(spec_channels(rgb).0 as nat) + ";"@ + decimal_of(
        spec_channels(rgb).1 as nat,
    ) + ";"@ + decimal_of(spec_channels(rgb).2 as nat) + "m"@ + s + "\u{1b}[0m"@
}

/// Splits a packed `0xRRGGBB` colour into its three channels.
pub fn extract(rgb: u32) -> (r: (u8, u8, u8))
    ensures
        r.0 as u32 == spec_channels(rgb).0,
        r.1 as u32 == spec_channels(rgb).1,
        r.2 as u32 == spec_channels(rgb).2,
{
    proof {
        assert((rgb >> 16) & 0xFF < 256 && (rgb >> 8) & 0xFF < 256 && rgb & 0xFF < 256)
            by (bit_vector);
    }
    let red = ((rgb >> 16) & 0xFF) as u8;
    let green = ((rgb >> 8) & 0xFF) as u8;
    let blue = (rgb & 0xFF) as u8;
    (red, green, blue)
}

pub trait Bold where Self: View<V = Seq<char>> {
    /// The text wrapped in the bold escape sequence.
    fn bold(&self) -> (r: String)
        ensures
            r@ == spec_bold(self@),
    ;
}

impl Bold for String {
    fn bold(&self) -> (r: String)
        ensures
            r@ == spec_bold(self@),
    {
        let mut out = String::from_str("\u{1b}[1m");
        out.append(self.as_str());
        out.append("\u{1b}[0m");
        out
    }
}

pub trait Italic where Self: View<V = Seq<char>> {
    /// The text wrapped in the italic escape sequence.
    fn italic(&self) -> (r: String)
        ensures
            r@ == spec_italic(self@),
    ;
}

impl Italic for String {
    fn italic(&self) -> (r: String)
        ensures
            r@ == spec_italic(self@),
    {
        let mut out = String::from_str("\u{1b}[3m");
        out.append(self.as_str());
        out.append("\u{1b}[0m");
        out
    }
}

pub trait Blink where Self: View<V = Seq<char>> {
    /// The text wrapped in the slow or rapid blink escape sequence.
    fn blink(&self, is_fast: bool) -> (r: String)
        ensures
            r@ == spec_blink(self@, is_fast),
    ;
}

impl Blink for String {
    fn blink(&self, is_fast: bool) -> (r: String)
        ensures
            r@ == spec_blink(self@, is_fast),
    {
        let mut out = if is_fast {
            String::from_str("\u{1b}[6m")
        } else {
            String::from_str("\u{1b}[5m")
        };
        out.append(self.as_str());
        out.append("\u{1b}[0m");
        out
    }
}

pub trait Colorize where Self: View<V = Seq<char>> {
    /// The text on a true-colour background.
    fn background(&self, rgb: u32) -> (r: String)
        ensures
            r@ == spec_background(self@, rgb),
    ;

    /// The text in a true-colour foreground.
    fn foreground(&self, rgb: u32) -> (r: String)
        ensures
            r@ == spec_foreground(self@, rgb),
    ;
}

impl Colorize for String {
    fn background(&self, rgb: u32) -> (r: String)
        ensures
            r@ == spec_background(self@, rgb),
    {
        let (red, green, blue) = extract(rgb);
        let mut out = String::from_str("\u{1b}[48;2;");
        push_decimal(&mut out, red as u64);
        out.append(";");
        push_decimal(&mut out, green as u64);
        out.append(";");
        push_decimal(&mut out, blue as u64);
        out.append("m");
        out.append(self.as_str());
        out.append("\u{1b}[0m");
        out
    }

    fn foreground(&self, rgb: u32) -> (r: String)
        ensures
            r@ == spec_foreground(self@, rgb),
    {
        let (red, green, blue) = extract(rgb);
        let mut out = String::from_str("\u{1b}[38;2;");
        push_decimal(&mut out, red as u64);
        out.append(";");
        push_decimal(&mut out, green as u64);
        out.append(";");
        push_decimal(&mut out, blue as u64);
        out.append("m");
        out.append(self.as_str());
        out.append("\u{1b}[0m");
        out
    }
}

} // verus!
