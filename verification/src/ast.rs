//! Recursive-descent parser for flat arithmetic expressions.
//!
//! The grammar has two binary precedence levels and two unary prefix
//! operators:
//!
//! ```text
//! sum      := product (('+' | '-') product)*
//! product  := unary (('*' | '/') unary)*
//! unary    := '~'* literal | '-'* literal
//! literal  := digit+
//! ```
//!
//! Whitespace is permitted around operator tokens and around the whole
//! input, never inside a digit run.  Binary operators combine
//! left-associatively; a run of unary prefixes nests around the literal.
//! The whole input must be consumed.
//!
//! The meaning of every parse is pinned down by the specification
//! functions below ([`spec_parse`] and its helpers), and the executable
//! [`parse`] returns exactly what [`spec_parse`] says.

use vstd::prelude::*;

verus! {

use crate::strutil::is_space_char;
use crate::strutil::is_digit_char;
use crate::strutil::ws_run;
use crate::strutil::skip_ws;
use crate::strutil::digit_run;
use crate::strutil::lemma_ws_run;
use crate::strutil::lemma_digit_run;
use crate::strutil::is_digit;
use crate::strutil::str_to_chars;
use crate::strutil::skip_ws_exec;

/// An expression tree.  Leaves hold the digit run they were parsed
/// from, so every literal keeps its exact decimal value — the
/// [`digits_value`] of its digit run — however long the run is.
#[derive(Debug, PartialEq, Eq)]
pub enum Expression {
    NumberLiteral(String),
    Negate(Box<Expression>),
    Invert(Box<Expression>),
    Add(Box<Expression>, Box<Expression>),
    Subtract(Box<Expression>, Box<Expression>),
    Multiply(Box<Expression>, Box<Expression>),
    Divide(Box<Expression>, Box<Expression>),
}

/// The mathematical model of an [`Expression`]: the same tree with the
/// digit run of each leaf as a sequence of characters.
#[verifier::ext_equal]
pub enum ExprModel {
    NumberLiteral(Seq<char>),
    Negate(Box<ExprModel>),
    Invert(Box<ExprModel>),
    Add(Box<ExprModel>, Box<ExprModel>),
    Subtract(Box<ExprModel>, Box<ExprModel>),
    Multiply(Box<ExprModel>, Box<ExprModel>),
    Divide(Box<ExprModel>, Box<ExprModel>),
}

impl Expression {
    pub open spec fn model(self) -> ExprModel
        decreases self,
    {
        match self {
            Expression::NumberLiteral(digits) => ExprModel::NumberLiteral(digits@),
            Expression::Negate(e) => ExprModel::Negate(Box::new((*e).model())),
            Expression::Invert(e) => ExprModel::Invert(Box::new((*e).model())),
            Expression::Add(l, r) => ExprModel::Add(Box::new((*l).model()), Box::new((*r).model())),
            Expression::Subtract(l, r) => ExprModel::Subtract(
                Box::new((*l).model()),
                Box::new((*r).model()),
            ),
            Expression::Multiply(l, r) => ExprModel::Multiply(
                Box::new((*l).model()),
                Box::new((*r).model()),
            ),
            Expression::Divide(l, r) => ExprModel::Divide(
                Box::new((*l).model()),
                Box::new((*r).model()),
            ),
        }
    }
}

impl View for Expression {
    type V = ExprModel;

    open spec fn view(&self) -> ExprModel {
        self.model()
    }
}

/// A parse failure.  Both kinds carry the character position (an index
/// into the sequence of characters of the input) at which the parser
/// gave up.
#[derive(Debug, Clone, Copy, PartialEq, Eq, Structural)]
pub enum ParseError {
    /// The position does not match what the active grammar rule requires.
    UnexpectedInput { position: usize },
    /// A complete expression was parsed, but non-whitespace input remains.
    TrailingInput { position: usize },
}

/// The numeric value of a digit character.
pub open spec fn digit_value(c: char) -> nat {
    (c as u32 - 48) as nat
}

/// The exact decimal value of a digit run.
pub open spec fn digits_value(s: Seq<char>) -> nat
    decreases s.len(),
{
    if s.len() == 0 {
        0
    } else {
        digits_value(s.drop_last()) * 10 + digit_value(s.last())
    }
}

/// The literal rule: the maximal digit run starting at `i` becomes a
/// leaf; an empty run is a failure at `i`.
pub open spec fn spec_literal(s: Seq<char>, i: int) -> Result<(ExprModel, int), ParseError> {
    if digit_run(s, i) > 0 {
        Ok((ExprModel::NumberLiteral(s.subrange(i, i + digit_run(s, i))), i + digit_run(s, i)))
    } else {
        Err(ParseError::UnexpectedInput { position: i as usize })
    }
}

/// A run of the prefix character `op`, whitespace tolerated after each
/// occurrence: the number of occurrences, and the position after the run.
pub open spec fn prefix_run(s: Seq<char>, i: int, op: char) -> (nat, int)
    decreases s.len() - i,
{
    if 0 <= i < s.len() && s[i] == op {
        proof {
            lemma_ws_run(s, i + 1);
        }
        let rest = prefix_run(s, skip_ws(s, i + 1), op);
        ((rest.0 + 1) as nat, rest.1)
    } else {
        (0, i)
    }
}

/// `inner` wrapped in `n` nested `Negate` nodes.
pub open spec fn wrap_negate(n: nat, inner: ExprModel) -> ExprModel
    decreases n,
{
    if n == 0 {
        inner
    } else {
        ExprModel::Negate(Box::new(wrap_negate((n - 1) as nat, inner)))
    }
}

/// `inner` wrapped in `n` nested `Invert` nodes.
pub open spec fn wrap_invert(n: nat, inner: ExprModel) -> ExprModel
    decreases n,
{
    if n == 0 {
        inner
    } else {
        ExprModel::Invert(Box::new(wrap_invert((n - 1) as nat, inner)))
    }
}

/// The unary rule: a run of `~` prefixes before a literal or, failing
/// that, a run of `-` prefixes before a literal.  The two prefix kinds
/// never mix within one term.
pub open spec fn spec_unary(s: Seq<char>, i: int) -> Result<(ExprModel, int), ParseError> {
    let inv = prefix_run(s, i, '~');
    match spec_literal(s, inv.1) {
        Ok((m, j)) => Ok((wrap_invert(inv.0, m), j)),
        Err(_) => {
            let neg = prefix_run(s, i, '-');
            match spec_literal(s, neg.1) {
                Ok((m, j)) => Ok((wrap_negate(neg.0, m), j)),
                Err(e) => Err(e),
            }
        },
    }
}

pub proof fn lemma_prefix_run_bounds(s: Seq<char>, i: int, op: char)
    requires
        0 <= i <= s.len(),
    ensures
        i <= prefix_run(s, i, op).1 <= s.len(),
    decreases s.len() - i,
{
    if i < s.len() && s[i] == op {
        lemma_ws_run(s, i + 1);
        lemma_prefix_run_bounds(s, skip_ws(s, i + 1), op);
    }
}

pub proof fn lemma_literal_advance(s: Seq<char>, i: int)
    requires
        0 <= i <= s.len(),
    ensures
        spec_literal(s, i) matches Ok(p) ==> i < p.1 <= s.len(),
{
    lemma_digit_run(s, i);
}

pub proof fn lemma_unary_advance(s: Seq<char>, i: int)
    requires
        0 <= i <= s.len(),
    ensures
        spec_unary(s, i) matches Ok(p) ==> i < p.1 <= s.len(),
{
    lemma_prefix_run_bounds(s, i, '~');
    lemma_prefix_run_bounds(s, i, '-');
    lemma_literal_advance(s, prefix_run(s, i, '~').1);
    lemma_literal_advance(s, prefix_run(s, i, '-').1);
}

/// The tail of the product rule: zero or more `*` or `/` operators, each
/// followed by a unary term, folded left-associatively onto `acc`.
pub open spec fn spec_product_rest(s: Seq<char>, i: int, acc: ExprModel) -> Result<
    (ExprModel, int),
    ParseError,
>
    decreases s.len() - i,
        when 0 <= i <= s.len()
{
    let k = skip_ws(s, i);
    if k < s.len() && (s[k] == '*' || s[k] == '/') {
        let m = skip_ws(s, k + 1);
        match spec_unary(s, m) {
            Ok((t, j)) => {
                proof {
                    lemma_ws_run(s, i);
                    lemma_ws_run(s, k + 1);
                    lemma_unary_advance(s, m);
                }
                if s[k] == '*' {
                    spec_product_rest(s, j, ExprModel::Multiply(Box::new(acc), Box::new(t)))
                } else {
                    spec_product_rest(s, j, ExprModel::Divide(Box::new(acc), Box::new(t)))
                }
            },
            Err(e) => Err(e),
        }
    } else {
        Ok((acc, i))
    }
}

/// The product rule: one unary term, then the folded tail.
pub open spec fn spec_product(s: Seq<char>, i: int) -> Result<(ExprModel, int), ParseError> {
    match spec_unary(s, i) {
        Ok((first, j)) => spec_product_rest(s, j, first),
        Err(e) => Err(e),
    }
}

pub proof fn lemma_product_rest_advance(s: Seq<char>, i: int, acc: ExprModel)
    requires
        0 <= i <= s.len(),
    ensures
        spec_product_rest(s, i, acc) matches Ok(p) ==> i <= p.1 <= s.len(),
    decreases s.len() - i,
{
    let k = skip_ws(s, i);
    lemma_ws_run(s, i);
    if k < s.len() && (s[k] == '*' || s[k] == '/') {
        let m = skip_ws(s, k + 1);
        lemma_ws_run(s, k + 1);
        lemma_unary_advance(s, m);
        match spec_unary(s, m) {
            Ok((t, j)) => {
                if s[k] == '*' {
                    lemma_product_rest_advance(
                        s,
                        j,
                        ExprModel::Multiply(Box::new(acc), Box::new(t)),
                    );
                } else {
                    lemma_product_rest_advance(s, j, ExprModel::Divide(Box::new(acc), Box::new(t)));
                }
            },
            Err(_) => {},
        }
    }
}

pub proof fn lemma_product_advance(s: Seq<char>, i: int)
    requires
        0 <= i <= s.len(),
    ensures
        spec_product(s, i) matches Ok(p) ==> i < p.1 <= s.len(),
{
    lemma_unary_advance(s, i);
    match spec_unary(s, i) {
        Ok((first, j)) => {
            lemma_product_rest_advance(s, j, first);
        },
        Err(_) => {},
    }
}

/// The tail of the sum rule: zero or more `+` or `-` operators, each
/// followed by a product term, folded left-associatively onto `acc`.
pub open spec fn spec_sum_rest(s: Seq<char>, i: int, acc: ExprModel) -> Result<
    (ExprModel, int),
    ParseError,
>
    decreases s.len() - i,
        when 0 <= i <= s.len()
{
    let k = skip_ws(s, i);
    if k < s.len() && (s[k] == '+' || s[k] == '-') {
        let m = skip_ws(s, k + 1);
        match spec_product(s, m) {
            Ok((t, j)) => {
                proof {
                    lemma_ws_run(s, i);
                    lemma_ws_run(s, k + 1);
                    lemma_product_advance(s, m);
                }
                if s[k] == '+' {
                    spec_sum_rest(s, j, ExprModel::Add(Box::new(acc), Box::new(t)))
                } else {
                    spec_sum_rest(s, j, ExprModel::Subtract(Box::new(acc), Box::new(t)))
                }
            },
            Err(e) => Err(e),
        }
    } else {
        Ok((acc, i))
    }
}

/// The sum rule, the grammar's start production.
pub open spec fn spec_sum(s: Seq<char>, i: int) -> Result<(ExprModel, int), ParseError> {
    match spec_product(s, i) {
        Ok((first, j)) => spec_sum_rest(s, j, first),
        Err(e) => Err(e),
    }
}

pub proof fn lemma_sum_rest_advance(s: Seq<char>, i: int, acc: ExprModel)
    requires
        0 <= i <= s.len(),
    ensures
        spec_sum_rest(s, i, acc) matches Ok(p) ==> i <= p.1 <= s.len(),
    decreases s.len() - i,
{
    let k = skip_ws(s, i);
    lemma_ws_run(s, i);
    if k < s.len() && (s[k] == '+' || s[k] == '-') {
        let m = skip_ws(s, k + 1);
        lemma_ws_run(s, k + 1);
        lemma_product_advance(s, m);
        match spec_product(s, m) {
            Ok((t, j)) => {
                if s[k] == '+' {
                    lemma_sum_rest_advance(s, j, ExprModel::Add(Box::new(acc), Box::new(t)));
                } else {
                    lemma_sum_rest_advance(s, j, ExprModel::Subtract(Box::new(acc), Box::new(t)));
                }
            },
            Err(_) => {},
        }
    }
}

pub proof fn lemma_sum_advance(s: Seq<char>, i: int)
    requires
        0 <= i <= s.len(),
    ensures
        spec_sum(s, i) matches Ok(p) ==> i < p.1 <= s.len(),
{
    lemma_product_advance(s, i);
    match spec_product(s, i) {
        Ok((first, j)) => {
            lemma_sum_rest_advance(s, j, first);
        },
        Err(_) => {},
    }
}

/// What parsing a whole input means: leading whitespace, one sum
/// expression, trailing whitespace, and nothing else.
pub open spec fn spec_parse(s: Seq<char>) -> Result<ExprModel, ParseError> {
    let start = skip_ws(s, 0);
    match spec_sum(s, start) {
        Ok((m, j)) => {
            let k = skip_ws(s, j);
            if k == s.len() {
                Ok(m)
            } else {
                Err(ParseError::TrailingInput { position: k as usize })
            }
        },
        Err(e) => Err(e),
    }
}

/// How many `Negate` nodes wrap the root of a tree.
pub open spec fn negate_depth(m: ExprModel) -> nat
    decreases m,
{
    match m {
        ExprModel::Negate(inner) => 1 + negate_depth(*inner),
        _ => 0,
    }
}

proof fn lemma_digit_run_all(s: Seq<char>, i: int)
    requires
        0 <= i <= s.len(),
        forall|k: int| i <= k < s.len() ==> is_digit_char(s[k]),
    ensures
        digit_run(s, i) == s.len() - i,
    decreases s.len() - i,
{
    if i < s.len() {
        lemma_digit_run_all(s, i + 1);
    }
}

/// A non-empty digit string parses to a single leaf holding exactly that
/// digit string, whose numeric value is `digits_value(d)`.
pub proof fn lemma_parse_digits(d: Seq<char>)
    requires
        d.len() > 0,
        forall|k: int| 0 <= k < d.len() ==> is_digit_char(d[k]),
    ensures
        spec_parse(d) == Ok::<ExprModel, ParseError>(ExprModel::NumberLiteral(d)),
{
    let len = d.len() as int;
    assert(is_digit_char(d[0]));
    assert(!is_space_char(d[0]));
    assert(skip_ws(d, 0) == 0);
    lemma_digit_run_all(d, 0);
    assert(d.subrange(0, len) =~= d);
    assert(prefix_run(d, 0, '~') == (0nat, 0int));
    assert(spec_literal(d, 0) == Ok::<(ExprModel, int), ParseError>(
        (ExprModel::NumberLiteral(d), len),
    ));
    assert(spec_unary(d, 0) == Ok::<(ExprModel, int), ParseError>(
        (ExprModel::NumberLiteral(d), len),
    ));
    assert(ws_run(d, len) == 0);
    assert(spec_product_rest(d, len, ExprModel::NumberLiteral(d)) == Ok::<
        (ExprModel, int),
        ParseError,
    >((ExprModel::NumberLiteral(d), len)));
    assert(spec_sum_rest(d, len, ExprModel::NumberLiteral(d)) == Ok::<
        (ExprModel, int),
        ParseError,
    >((ExprModel::NumberLiteral(d), len)));
    assert(skip_ws(d, len) == len);
}

proof fn lemma_dash_run(n: nat, d: Seq<char>, i: int)
    requires
        d.len() > 0,
        forall|k: int| 0 <= k < d.len() ==> is_digit_char(d[k]),
        0 <= i <= n,
    ensures
        prefix_run(Seq::new(n, |k: int| '-') + d, i, '-') == (((n - i) as nat), n as int),
    decreases n - i,
{
    let s = Seq::new(n, |k: int| '-') + d;
    if i < n {
        assert(s[i] == '-');
        assert(!is_space_char(s[i + 1]));
        assert(ws_run(s, i + 1) == 0);
        lemma_dash_run(n, d, i + 1);
    } else {
        assert(s[i] == d[0]);
        assert(is_digit_char(s[i]));
        assert(s[i] != '-');
    }
}

/// A run of `n` minus signs before a digit string parses to the leaf for
/// that digit string wrapped in exactly `n` `Negate` nodes.
pub proof fn lemma_parse_negations(n: nat, d: Seq<char>)
    requires
        d.len() > 0,
        forall|k: int| 0 <= k < d.len() ==> is_digit_char(d[k]),
    ensures
        spec_parse(Seq::new(n, |k: int| '-') + d) == Ok::<ExprModel, ParseError>(
            wrap_negate(n, ExprModel::NumberLiteral(d)),
        ),
        negate_depth(wrap_negate(n, ExprModel::NumberLiteral(d))) == n,
{
    let s = Seq::new(n, |k: int| '-') + d;
    let len = s.len() as int;
    lemma_wrap_negate_depth(n, ExprModel::NumberLiteral(d));
    if n == 0 {
        assert(s =~= d);
        lemma_parse_digits(d);
        assert(wrap_negate(0, ExprModel::NumberLiteral(d)) == ExprModel::NumberLiteral(d));
    } else {
        assert(s[0] == '-');
        assert(!is_space_char(s[0]));
        assert(skip_ws(s, 0) == 0);
        assert(s[0] != '~');
        assert(prefix_run(s, 0, '~') == (0nat, 0int));
        assert(!is_digit_char(s[0]));
        assert(digit_run(s, 0) == 0);
        assert(spec_literal(s, 0) is Err);
        lemma_dash_run(n, d, 0);
        assert(forall|k: int|
            n <= k < s.len() ==> #[trigger] is_digit_char(s[k]) == is_digit_char(d[k - n]));
        lemma_digit_run_all(s, n as int);
        assert(s.subrange(n as int, len) =~= d);
        assert(spec_literal(s, n as int) == Ok::<(ExprModel, int), ParseError>(
            (ExprModel::NumberLiteral(d), len),
        ));
        let m = wrap_negate(n, ExprModel::NumberLiteral(d));
        assert(spec_unary(s, 0) == Ok::<(ExprModel, int), ParseError>((m, len)));
        assert(ws_run(s, len) == 0);
        assert(spec_product_rest(s, len, m) == Ok::<(ExprModel, int), ParseError>((m, len)));
        assert(spec_sum_rest(s, len, m) == Ok::<(ExprModel, int), ParseError>((m, len)));
        assert(skip_ws(s, len) == len);
    }
}

proof fn lemma_wrap_negate_depth(n: nat, inner: ExprModel)
    requires
        !(inner is Negate),
    ensures
        negate_depth(wrap_negate(n, inner)) == n,
    decreases n,
{
    if n > 0 {
        lemma_wrap_negate_depth((n - 1) as nat, inner);
    }
}

/// Parsing has no hidden state: the result is a function of the input
/// characters alone, so parsing the same input twice produces
/// structurally identical trees (or the same error).  Together with the
/// contract of [`parse`], which returns exactly `spec_parse(input@)`,
/// this pins down repeatability of the executable parser.
pub proof fn lemma_parse_deterministic(s1: Seq<char>, s2: Seq<char>)
    requires
        s1 == s2,
    ensures
        spec_parse(s1) == spec_parse(s2),
{
}

/// The executable result of one grammar rule agrees exactly with the
/// specification-level result: same tree (up to the view), same end
/// position, same error.
pub open spec fn step_matches(
    r: Result<(Expression, usize), ParseError>,
    sr: Result<(ExprModel, int), ParseError>,
) -> bool {
    match r {
        Ok((e, j)) => sr matches Ok(p) && p.0 == e@ && p.1 == j as int,
        Err(pe) => sr matches Err(q) && q == pe,
    }
}

fn parse_literal(chars: &Vec<char>, i: usize) -> (r: Result<(Expression, usize), ParseError>)
    requires
        i <= chars@.len(),
    ensures
        step_matches(r, spec_literal(chars@, i as int)),
        r matches Ok(p) ==> i < p.1 <= chars@.len(),
{
    proof {
        lemma_digit_run(chars@, i as int);
    }
    let mut j = i;
    while j < chars.len() && is_digit(chars[j])
        invariant
            i <= j <= chars@.len(),
            digit_run(chars@, i as int) == j - i + digit_run(chars@, j as int),
        decreases chars@.len() - j,
    {
        j = j + 1;
    }
    if j == i {
        Err(ParseError::UnexpectedInput { position: i })
    } else {
        let mut digits = String::new();
        let mut k = i;
        while k < j
            invariant
                i <= k <= j <= chars@.len(),
                digits@ == chars@.subrange(i as int, k as int),
            decreases j - k,
        {
            digits.push(chars[k]);
            k = k + 1;
            proof {
                assert(digits@ =~= chars@.subrange(i as int, k as int));
            }
        }
        Ok((Expression::NumberLiteral(digits), j))
    }
}

/// Consumes a run of the prefix character `op`, whitespace tolerated
/// after each occurrence: the number of occurrences and the position
/// after the run.
fn scan_prefixes(chars: &Vec<char>, i: usize, op: char) -> (r: (usize, usize))
    requires
        i <= chars@.len(),
    ensures
        r.0 as nat == prefix_run(chars@, i as int, op).0,
        r.1 as int == prefix_run(chars@, i as int, op).1,
        i <= r.1 <= chars@.len(),
{
    let mut j = i;
    let mut count: usize = 0;
    while j < chars.len() && chars[j] == op
        invariant
            i <= j <= chars@.len(),
            count <= j - i,
            prefix_run(chars@, i as int, op).0 == count + prefix_run(chars@, j as int, op).0,
            prefix_run(chars@, i as int, op).1 == prefix_run(chars@, j as int, op).1,
        decreases chars@.len() - j,
    {
        j = j + 1;
        j = skip_ws_exec(chars, j);
        count = count + 1;
    }
    (count, j)
}

fn wrap_invert_exec(n: usize, e: Expression) -> (r: Expression)
    ensures
        r@ == wrap_invert(n as nat, e@),
{
    let ghost inner = e@;
    let mut e = e;
    let mut k: usize = 0;
    while k < n
        invariant
            k <= n,
            e@ == wrap_invert(k as nat, inner),
        decreases n - k,
    {
        e = Expression::Invert(Box::new(e));
        k = k + 1;
    }
    e
}

fn wrap_negate_exec(n: usize, e: Expression) -> (r: Expression)
    ensures
        r@ == wrap_negate(n as nat, e@),
{
    let ghost inner = e@;
    let mut e = e;
    let mut k: usize = 0;
    while k < n
        invariant
            k <= n,
            e@ == wrap_negate(k as nat, inner),
        decreases n - k,
    {
        e = Expression::Negate(Box::new(e));
        k = k + 1;
    }
    e
}

fn parse_unary(chars: &Vec<char>, i: usize) -> (r: Result<(Expression, usize), ParseError>)
    requires
        i <= chars@.len(),
    ensures
        step_matches(r, spec_unary(chars@, i as int)),
        r matches Ok(p) ==> i < p.1 <= chars@.len(),
{
    proof {
        lemma_unary_advance(chars@, i as int);
    }
    let (inv_count, inv_pos) = scan_prefixes(chars, i, '~');
    match parse_literal(chars, inv_pos) {
        Ok((lit, j)) => Ok((wrap_invert_exec(inv_count, lit), j)),
        Err(_) => {
            let (neg_count, neg_pos) = scan_prefixes(chars, i, '-');
            match parse_literal(chars, neg_pos) {
                Ok((lit, j)) => Ok((wrap_negate_exec(neg_count, lit), j)),
                Err(e) => Err(e),
            }
        },
    }
}

fn parse_product(chars: &Vec<char>, i: usize) -> (r: Result<(Expression, usize), ParseError>)
    requires
        i <= chars@.len(),
    ensures
        step_matches(r, spec_product(chars@, i as int)),
        r matches Ok(p) ==> i < p.1 <= chars@.len(),
{
    proof {
        lemma_product_advance(chars@, i as int);
    }
    match parse_unary(chars, i) {
        Err(e) => Err(e),
        Ok((first, first_end)) => {
            let mut acc = first;
            let mut j = first_end;
            loop
                invariant
                    i < j <= chars@.len(),
                    spec_product(chars@, i as int) == spec_product_rest(chars@, j as int, acc@),
                    spec_product(chars@, i as int) matches Ok(p) ==> i < p.1 <= chars@.len(),
                decreases chars@.len() - j,
            {
                let k = skip_ws_exec(chars, j);
                if k < chars.len() && (chars[k] == '*' || chars[k] == '/') {
                    let op = chars[k];
                    let m = skip_ws_exec(chars, k + 1);
                    match parse_unary(chars, m) {
                        Ok((t, term_end)) => {
                            acc = if op == '*' {
                                Expression::Multiply(Box::new(acc), Box::new(t))
                            } else {
                                Expression::Divide(Box::new(acc), Box::new(t))
                            };
                            j = term_end;
                        },
                        Err(e) => {
                            return Err(e);
                        },
                    }
                } else {
                    return Ok((acc, j));
                }
            }
        },
    }
}

fn parse_sum(chars: &Vec<char>, i: usize) -> (r: Result<(Expression, usize), ParseError>)
    requires
        i <= chars@.len(),
    ensures
        step_matches(r, spec_sum(chars@, i as int)),
        r matches Ok(p) ==> i < p.1 <= chars@.len(),
{
    proof {
        lemma_sum_advance(chars@, i as int);
    }
    match parse_product(chars, i) {
        Err(e) => Err(e),
        Ok((first, first_end)) => {
            let mut acc = first;
            let mut j = first_end;
            loop
                invariant
                    i < j <= chars@.len(),
                    spec_sum(chars@, i as int) == spec_sum_rest(chars@, j as int, acc@),
                    spec_sum(chars@, i as int) matches Ok(p) ==> i < p.1 <= chars@.len(),
                decreases chars@.len() - j,
            {
                let k = skip_ws_exec(chars, j);
                if k < chars.len() && (chars[k] == '+' || chars[k] == '-') {
                    let op = chars[k];
                    let m = skip_ws_exec(chars, k + 1);
                    match parse_product(chars, m) {
                        Ok((t, term_end)) => {
                            acc = if op == '+' {
                                Expression::Add(Box::new(acc), Box::new(t))
                            } else {
                                Expression::Subtract(Box::new(acc), Box::new(t))
                            };
                            j = term_end;
                        },
                        Err(e) => {
                            return Err(e);
                        },
                    }
                } else {
                    return Ok((acc, j));
                }
            }
        },
    }
}

/// Parses a whole input string into an expression tree.
///
/// The result is exactly what the grammar's specification says: leading
/// and trailing whitespace are tolerated, the sum rule parses the rest,
/// and any unconsumed non-whitespace content is a `TrailingInput`
/// failure.  No partial tree is ever returned.
pub fn parse(input: &str) -> (r: Result<Expression, ParseError>)
    ensures
        r matches Ok(e) ==> spec_parse(input@) == Ok::<ExprModel, ParseError>(e@),
        r matches Err(pe) ==> spec_parse(input@) == Err::<ExprModel, ParseError>(pe),
{
    let chars = str_to_chars(input);
    let start = skip_ws_exec(&chars, 0);
    match parse_sum(&chars, start) {
        Err(e) => Err(e),
        Ok((e, j)) => {
            let k = skip_ws_exec(&chars, j);
            if k == chars.len() {
                Ok(e)
            } else {
                Err(ParseError::TrailingInput { position: k })
            }
        },
    }
}

} // verus!
