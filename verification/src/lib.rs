//! Verified cores of a collection of small command-line exercises.
//!
//! The centrepiece is [`ast`], a recursive-descent parser for flat
//! arithmetic expressions whose whole behaviour is pinned down by
//! specification functions.  Around it stand the rule and data cores of
//! the other exercises: roman numerals, a word-guessing game, terminal
//! colouring, a user store with hashed passwords, and a few smaller
//! pieces.  Input and output stay outside; random numbers, digests and
//! JSON come from outside crates through trusted declarations.

pub mod accounts;
pub mod ast;
pub mod colorize;
pub mod fizzbuzz;
pub mod greeting;
pub mod highlow;
pub mod password;
pub mod rng;
pub mod roman;
pub mod strutil;
pub mod vectors;
pub mod wordle;
