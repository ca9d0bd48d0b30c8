//! The rules of a high-low guessing game: a goal between 0 and 100 is
//! drawn at random, and each guess is answered with too high, too low,
//! or a win.

use vstd::prelude::*;

verus! {

use crate::rng::fresh_rng;
use crate::rng::random_below;

/// How a guess compares against the goal.
#[derive(Clone, Copy, Debug, PartialEq, Eq, Structural)]
pub enum Verdict {
    TooHigh,
    TooLow,
    Correct,
}

pub open spec fn spec_verdict(guess: int, goal: int) -> Verdict {
    if guess > goal {
        Verdict::TooHigh
    } else if guess < goal {
        Verdict::TooLow
    } else {
        Verdict::Correct
    }
}

/// The answer printed for a verdict.
pub open spec fn spec_verdict_text(v: Verdict) -> Seq<char> {
    match v {
        Verdict::TooHigh => "too high"@,
        Verdict::TooLow => "too low"@,
        Verdict::Correct => "you win!"@,
    }
}

pub struct HighLowGame {
    pub goal: i32,
}

impl HighLowGame {
    /// Starts a game with a random goal between 0 and 100, both ends
    /// included.
    pub fn new() -> (r: Self)
        ensures
            0 <= r.goal <= 100,
    {
        let mut rng = fresh_rng();
        let goal = random_below(&mut rng, 101) as i32;
        HighLowGame { goal }
    }

    /// Answers one guess.
    pub fn evaluate(&self, guess: i32) -> (r: Verdict)
        ensures
            r == spec_verdict(guess as int, self.goal as int),
    {
        if guess > self.goal {
            Verdict::TooHigh
        } else if guess < self.goal {
            Verdict::TooLow
        } else {
            Verdict::Correct
        }
    }
}

/// The answer printed for a verdict.
pub fn verdict_text(v: Verdict) -> (r: String)
    ensures
        r@ == spec_verdict_text(v),
{
    match v {
        Verdict::TooHigh => String::from_str("too high"),
        Verdict::TooLow => String::from_str("too low"),
        Verdict::Correct => String::from_str("you win!"),
    }
}

/// What the first character of an answer line decides: yes (again), no,
/// or nothing valid.  An empty line counts as yes.
pub open spec fn spec_play_again(first: Option<char>) -> Option<bool> {
    match first {
        None => Some(true),
        Some(c) => if c == 'y' || c == 'Y' {
            Some(true)
        } else if c == 'n' || c == 'N' {
            Some(false)
        } else {
            None
        },
    }
}

/// Decides whether to play again from the first character of the
/// answer; `None` asks for the question to be repeated.
pub fn play_again_choice(first: Option<char>) -> (r: Option<bool>)
    ensures
        r == spec_play_again(first),
{
    match first {
        None => Some(true),
        Some(c) => {
            if c == 'y' || c == 'Y' {
                Some(true)
            } else if c == 'n' || c == 'N' {
                Some(false)
            } else {
                None
            }
        },
    }
}

} // verus!
