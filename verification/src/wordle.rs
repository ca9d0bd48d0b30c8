//! The state and rules of a word-guessing game.
//!
//! A game holds a validated word list, a secret word from that list, a
//! guess counter and a win flag.  Guessing the secret wins; guessing a
//! word outside the list is rejected; any other listed word costs a
//! guess and yields one hint per letter.

use vstd::prelude::*;

verus! {

use crate::strutil::str_to_chars;
use crate::strutil::to_upper;
use crate::strutil::upper_char;
use crate::rng::fresh_rng;
use crate::rng::choose_from;
use vstd::pervasive::unreached;

pub const MAX_GUESSES: usize = 6;

pub struct GameState {
    pub words: Vec<String>,
    pub secret: String,
    pub guesses: usize,
    pub won: bool,
}

/// What one letter of a guess reveals.
#[derive(Clone, Copy, Debug)]
pub enum Hint {
    Exact,
    WrongPosition,
    NotInWord,
}

/// The result of one guess.
#[derive(Debug)]
pub enum GuessOutcome {
    Win,
    InvalidWord,
    Hint(Vec<Hint>),
}

pub open spec fn is_lower_char(c: char) -> bool {
    'a' <= c && c <= 'z'
}

pub open spec fn wordlist_uniform(ws: Seq<Seq<char>>) -> bool {
    forall|i: int| 0 <= i < ws.len() ==> (#[trigger] ws[i]).len() == ws[0].len()
}

pub open spec fn wordlist_lower(ws: Seq<Seq<char>>) -> bool {
    forall|i: int, j: int|
        0 <= i < ws.len() && 0 <= j < ws[i].len() ==> is_lower_char(#[trigger] ws[i][j])
}

/// A word list the game accepts: non-empty, all words of one length,
/// all letters lower-case `a` to `z`.
pub open spec fn valid_wordlist(ws: Seq<Seq<char>>) -> bool {
    ws.len() > 0 && wordlist_uniform(ws) && wordlist_lower(ws)
}

/// The message a rejected word list is refused with, checked in the
/// order the checks run: emptiness, then length, then the alphabet.
pub open spec fn wordlist_error(ws: Seq<Seq<char>>) -> Seq<char> {
    if ws.len() == 0 {
        "Wordlist cannot be empty"@
    } else if !wordlist_uniform(ws) {
        "All words must be of same size"@
    } else {
        "Words must be in lowercase and in between 'a' and 'z'"@
    }
}

fn is_lower(c: char) -> (r: bool)
    ensures
        r == is_lower_char(c),
{
    let u = c as u32;
    97 <= u && u <= 122
}

/// Checks that a word list is acceptable for a game, with the exact
/// refusal message otherwise.
pub fn validate_wordlist(words: &[String]) -> (r: Result<(), String>)
    ensures
        r is Ok <==> valid_wordlist(words.deep_view()),
        r matches Err(m) ==> m@ == wordlist_error(words.deep_view()),
{
    let ghost ws = words.deep_view();
    proof {
        assert(ws.len() == words@.len());
        assert(forall|i: int| 0 <= i < ws.len() ==> ws[i] == words@[i]@);
    }
    if words.len() == 0 {
        return Err(String::from_str("Wordlist cannot be empty"));
    }
    let expected_len = words[0].as_str().unicode_len();
    let mut i: usize = 0;
    while i < words.len()
        invariant
            ws == words.deep_view(),
            ws.len() == words@.len(),
            forall|k: int| 0 <= k < ws.len() ==> ws[k] == words@[k]@,
            0 < ws.len(),
            i <= ws.len(),
            expected_len == ws[0].len(),
            forall|k: int| 0 <= k < i ==> (#[trigger] ws[k]).len() == ws[0].len(),
        decreases words@.len() - i,
    {
        if words[i].as_str().unicode_len() != expected_len {
            proof {
                assert(!wordlist_uniform(ws)) by {
                    assert(ws[i as int].len() != ws[0].len());
                }
            }
            return Err(String::from_str("All words must be of same size"));
        }
        i = i + 1;
    }
    let mut i: usize = 0;
    while i < words.len()
        invariant
            ws == words.deep_view(),
            ws.len() == words@.len(),
            forall|k: int| 0 <= k < ws.len() ==> ws[k] == words@[k]@,
            0 < ws.len(),
            i <= ws.len(),
            wordlist_uniform(ws),
            forall|k: int, j: int|
                0 <= k < i && 0 <= j < ws[k].len() ==> is_lower_char(#[trigger] ws[k][j]),
        decreases words@.len() - i,
    {
        let word = &words[i];
        let n = word.as_str().unicode_len();
        let mut j: usize = 0;
        while j < n
            invariant
                ws == words.deep_view(),
                ws.len() == words@.len(),
                forall|k: int| 0 <= k < ws.len() ==> ws[k] == words@[k]@,
                0 < ws.len(),
                wordlist_uniform(ws),
                i < ws.len(),
                word == words@[i as int],
                n == ws[i as int].len(),
                j <= n,
                forall|k: int| 0 <= k < j ==> is_lower_char(#[trigger] ws[i as int][k]),
            decreases n - j,
        {
            if !is_lower(word.as_str().get_char(j)) {
                proof {
                    assert(!wordlist_lower(ws)) by {
                        assert(!is_lower_char(ws[i as int][j as int]));
                    }
                }
                return Err(
                    String::from_str("Words must be in lowercase and in between 'a' and 'z'"),
                );
            }
            j = j + 1;
        }
        i = i + 1;
    }
    Ok(())
}

/// Whether `w` occurs in the word list, compared by characters.
fn contains_word(words: &Vec<String>, w: &String) -> (r: bool)
    ensures
        r == words.deep_view().contains(w@),
{
    let mut i: usize = 0;
    while i < words.len()
        invariant
            i <= words@.len(),
            words.deep_view().len() == words@.len(),
            forall|k: int| 0 <= k < words@.len() ==> words.deep_view()[k] == words@[k]@,
            forall|k: int| 0 <= k < i ==> words@[k]@ != w@,
        decreases words@.len() - i,
    {
        if words[i].eq(w) {
            proof {
                assert(words.deep_view()[i as int] == w@);
            }
            return true;
        }
        i = i + 1;
    }
    proof {
        assert forall|k: int| 0 <= k < words.deep_view().len() implies words.deep_view()[k]
            != w@ by {
            assert(words.deep_view()[k] == words@[k]@);
        }
    }
    false
}

fn contains_char(chars: &Vec<char>, c: char) -> (r: bool)
    ensures
        r == chars@.contains(c),
{
    let mut i: usize = 0;
    while i < chars.len()
        invariant
            i <= chars@.len(),
            forall|k: int| 0 <= k < i ==> chars@[k] != c,
        decreases chars@.len() - i,
    {
        if chars[i] == c {
            return true;
        }
        i = i + 1;
    }
    false
}

/// The hint for position `i` of a guess: the right letter in the right
/// place, a letter of the secret in the wrong place, or a letter not in
/// the secret at all.
pub open spec fn spec_hint(g: Seq<char>, s: Seq<char>, i: int) -> Hint {
    if g[i] == s[i] {
        Hint::Exact
    } else if s.contains(g[i]) {
        Hint::WrongPosition
    } else {
        Hint::NotInWord
    }
}

/// One hint per position, over the positions the guess and the secret
/// share.
pub open spec fn spec_hints(g: Seq<char>, s: Seq<char>) -> Seq<Hint> {
    Seq::new(if g.len() <= s.len() {
        g.len()
    } else {
        s.len()
    }, |i: int| spec_hint(g, s, i))
}

impl GameState {
    /// Makes one guess against the current state.  Guessing the secret
    /// wins and sets the flag; a word outside the list is rejected and
    /// changes nothing; any other listed word costs one guess and
    /// yields one hint per letter.
    pub fn make_guess(&mut self, guess: &String) -> (r: GuessOutcome)
        requires
            old(self).guesses < usize::MAX,
        ensures
            final (self).words == old(self).words,
            final (self).secret == old(self).secret,
            guess@ == old(self).secret@ ==> r is Win && final (self).won && final (self).guesses
                == old(self).guesses,
            guess@ != old(self).secret@ && !old(self).words.deep_view().contains(guess@) ==> r
                is InvalidWord && *final (self) == *old(self),
            guess@ != old(self).secret@ && old(self).words.deep_view().contains(guess@) ==> {
                &&& r matches GuessOutcome::Hint(h) && h@ == spec_hints(guess@, old(self).secret@)
                &&& final (self).guesses == old(self).guesses + 1
                &&& final (self).won == old(self).won
            },
    {
        if guess.eq(&self.secret) {
            self.won = true;
            return GuessOutcome::Win;
        }
        if !contains_word(&self.words, guess) {
            return GuessOutcome::InvalidWord;
        }
        self.guesses = self.guesses + 1;

        let gchars = str_to_chars(guess.as_str());
        let schars = str_to_chars(self.secret.as_str());
        let n = if gchars.len() <= schars.len() {
            gchars.len()
        } else {
            schars.len()
        };
        let mut hints: Vec<Hint> = Vec::new();
        let mut i: usize = 0;
        while i < n
            invariant
                gchars@ == guess@,
                schars@ == self.secret@,
                n == spec_hints(guess@, self.secret@).len(),
                n <= gchars@.len() && n <= schars@.len(),
                i <= n,
                hints@ == spec_hints(guess@, self.secret@).subrange(0, i as int),
            decreases n - i,
        {
            let hint = if gchars[i] == schars[i] {
                Hint::Exact
            } else if contains_char(&schars, gchars[i]) {
                Hint::WrongPosition
            } else {
                Hint::NotInWord
            };
            hints.push(hint);
            i = i + 1;
            proof {
                assert(hints@ =~= spec_hints(guess@, self.secret@).subrange(0, i as int));
            }
        }
        proof {
            assert(hints@ =~= spec_hints(guess@, self.secret@));
        }
        GuessOutcome::Hint(hints)
    }

    /// Whether the allowed number of guesses has been used up.
    pub fn is_out_of_guesses(&self) -> (r: bool)
        ensures
            r == (self.guesses >= MAX_GUESSES),
    {
        self.guesses >= MAX_GUESSES
    }

    /// Renders the outcome of a guess as the text shown to the player.
    pub fn format_outcome(&self, outcome: GuessOutcome, line: &String) -> (r: String)
        ensures
            outcome is Win ==> r@ == spec_win_text(line@),
            outcome is InvalidWord ==> r@ == spec_invalid_text(line@),
            outcome matches GuessOutcome::Hint(h) ==> r@ == spec_hint_text(h@, line@),
    {
        match outcome {
            GuessOutcome::Win => {
                let lchars = str_to_chars(line.as_str());
                let mut tmp = String::new();
                let mut i: usize = 0;
                proof {
                    assert(lchars@.skip(0) =~= lchars@);
                }
                while i < lchars.len()
                    invariant
                        lchars@ == line@,
                        i <= lchars@.len(),
                        tmp@ + spec_win_squares(line@.skip(i as int)) == spec_win_squares(line@),
                    decreases lchars@.len() - i,
                {
                    let square = format_exact(to_upper(lchars[i]));
                    proof {
                        assert(line@.skip(i as int).drop_first() =~= line@.skip(i as int + 1));
                    }
                    tmp.append(square.as_str());
                    i = i + 1;
                }
                proof {
                    assert(line@.skip(line@.len() as int) =~= Seq::<char>::empty());
                    assert(tmp@ =~= spec_win_squares(line@));
                }
                tmp.append("\nyou win\n");
                tmp
            },
            GuessOutcome::InvalidWord => {
                let mut tmp = String::from_str("\"");
                tmp.append(line.as_str());
                tmp.append("\" wasn't found in list\n");
                tmp
            },
            GuessOutcome::Hint(hints) => {
                let lchars = str_to_chars(line.as_str());
                let mut tmp = String::new();
                let mut i: usize = 0;
                proof {
                    assert(hints@.skip(0) =~= hints@);
                    assert(lchars@.skip(0) =~= lchars@);
                }
                while i < hints.len() && i < lchars.len()
                    invariant
                        lchars@ == line@,
                        i <= hints@.len(),
                        i <= lchars@.len(),
                        tmp@ + spec_hint_squares(hints@.skip(i as int), line@.skip(i as int))
                            == spec_hint_squares(hints@, line@),
                    decreases hints@.len() - i,
                {
                    let square = match hints[i] {
                        Hint::Exact => format_exact(to_upper(lchars[i])),
                        Hint::NotInWord => format_not_in_word(to_upper(lchars[i])),
                        Hint::WrongPosition => format_wrong_position(to_upper(lchars[i])),
                    };
                    proof {
                        assert(hints@.skip(i as int).drop_first() =~= hints@.skip(i as int + 1));
                        assert(line@.skip(i as int).drop_first() =~= line@.skip(i as int + 1));
                    }
                    tmp.append(square.as_str());
                    i = i + 1;
                }
                proof {
                    if i >= hints@.len() {
                        assert(hints@.skip(i as int) =~= Seq::<Hint>::empty());
                    } else {
                        assert(line@.skip(i as int) =~= Seq::<char>::empty());
                    }
                    assert(tmp@ =~= spec_hint_squares(hints@, line@));
                }
                tmp.push('\n');
                tmp
            },
        }
    }

    /// Makes a guess and renders its outcome.
    pub fn play(&mut self, guess: &String) -> (r: String)
        requires
            old(self).guesses < usize::MAX,
        ensures
            final (self).words == old(self).words,
            final (self).secret == old(self).secret,
            guess@ == old(self).secret@ ==> final (self).won && final (self).guesses == old(
                self,
            ).guesses && r@ == spec_win_text(guess@),
            guess@ != old(self).secret@ && !old(self).words.deep_view().contains(guess@)
                ==> *final (self) == *old(self) && r@ == spec_invalid_text(guess@),
            guess@ != old(self).secret@ && old(self).words.deep_view().contains(guess@) ==> {
                &&& final (self).guesses == old(self).guesses + 1
                &&& final (self).won == old(self).won
                &&& r@ == spec_hint_text(spec_hints(guess@, old(self).secret@), guess@)
            },
    {
        let outcome = self.make_guess(guess);
        self.format_outcome(outcome, guess)
    }
}

/// The squares shown for a winning guess: one exact-match square per
/// letter, upper-cased.
pub open spec fn spec_win_squares(l: Seq<char>) -> Seq<char>
    decreases l.len(),
{
    if l.len() == 0 {
        Seq::empty()
    } else {
        spec_format_exact(upper_char(l[0])) + spec_win_squares(l.drop_first())
    }
}

/// The full text for a winning guess.
pub open spec fn spec_win_text(l: Seq<char>) -> Seq<char> {
    spec_win_squares(l) + "\nyou win\n"@
}

/// The full text for a guess that is not in the word list.
pub open spec fn spec_invalid_text(l: Seq<char>) -> Seq<char> {
    "\""@ + l + "\" wasn't found in list\n"@
}

/// One coloured square per hint, paired with the upper-cased letters of
/// the guess, over the positions both share.
pub open spec fn spec_hint_squares(h: Seq<Hint>, l: Seq<char>) -> Seq<char>
    decreases h.len(),
{
    if h.len() == 0 || l.len() == 0 {
        Seq::empty()
    } else {
        (match h[0] {
            Hint::Exact => spec_format_exact(upper_char(l[0])),
            Hint::NotInWord => spec_format_not_in_word(upper_char(l[0])),
            Hint::WrongPosition => spec_format_wrong_position(upper_char(l[0])),
        }) + spec_hint_squares(h.drop_first(), l.drop_first())
    }
}

/// The full text for a guess that earned hints.
pub open spec fn spec_hint_text(h: Seq<Hint>, l: Seq<char>) -> Seq<char> {
    spec_hint_squares(h, l).push('\n')
}

pub open spec fn spec_format_exact(c: char) -> Seq<char> {
    "\u{1b}[48;2;83;141;78m "@ + seq![c] + " \u{1b}[0m"@
}

pub open spec fn spec_format_wrong_position(c: char) -> Seq<char> {
    "\u{1b}[48;2;181;159;59m "@ + seq![c] + " \u{1b}[0m"@
}

pub open spec fn spec_format_not_in_word(c: char) -> Seq<char> {
    "\u{1b}[48;2;58;58;60m "@ + seq![c] + " \u{1b}[0m"@
}

/// A green square around a letter: the letter stands in the secret at
/// this very position.
pub fn format_exact(c: char) -> (r: String)
    ensures
        r@ == spec_format_exact(c),
{
    let mut s = String::from_str("\u{1b}[48;2;83;141;78m ");
    s.push(c);
    s.append(" \u{1b}[0m");
    s
}

/// A yellow square around a letter: the letter occurs elsewhere in the
/// secret.
pub fn format_wrong_position(c: char) -> (r: String)
    ensures
        r@ == spec_format_wrong_position(c),
{
    let mut s = String::from_str("\u{1b}[48;2;181;159;59m ");
    s.push(c);
    s.append(" \u{1b}[0m");
    s
}

/// A grey square around a letter: the letter does not occur in the
/// secret.
pub fn format_not_in_word(c: char) -> (r: String)
    ensures
        r@ == spec_format_not_in_word(c),
{
    let mut s = String::from_str("\u{1b}[48;2;58;58;60m ");
    s.push(c);
    s.append(" \u{1b}[0m");
    s
}

/// Copies a word list.
fn clone_words(words: &Vec<String>) -> (r: Vec<String>)
    ensures
        r@ == words@,
{
    let mut out: Vec<String> = Vec::new();
    let mut i: usize = 0;
    while i < words.len()
        invariant
            i <= words@.len(),
            out@ == words@.subrange(0, i as int),
        decreases words@.len() - i,
    {
        out.push(words[i].clone());
        i = i + 1;
        proof {
            assert(out@ =~= words@.subrange(0, i as int));
        }
    }
    proof {
        assert(words@.subrange(0, words@.len() as int) =~= words@);
    }
    out
}

/// Builds a fresh game from a word list: the list is validated, a
/// secret is drawn from it, and the counters start at zero.
pub fn build_game_state(words: &Vec<String>) -> (r: Result<GameState, String>)
    ensures
        r is Ok <==> valid_wordlist(words.deep_view()),
        r matches Ok(gs) ==> {
            &&& gs.words@ == words@
            &&& exists|i: int| 0 <= i < words@.len() && gs.secret == words@[i]
            &&& gs.guesses == 0
            &&& !gs.won
        },
        r matches Err(m) ==> m@ == wordlist_error(words.deep_view()),
{
    match validate_wordlist(words.as_slice()) {
        Err(m) => Err(m),
        Ok(()) => {
            let mut rng = fresh_rng();
            let secret = match choose_from(&mut rng, words) {
                Some(w) => w.clone(),
                None => unreached(),
            };
            Ok(
                GameState {
                    words: clone_words(words),
                    secret,
                    guesses: 0,
                    won: false,
                },
            )
        },
    }
}

} // verus!
