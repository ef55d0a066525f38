//! The calculator tool: a tokenizer and a recursive-descent parser for
//! arithmetic expressions over `+ - * /`, unary minus and parentheses.
//!
//! Number literals are kept as spans of the input characters; their numeric
//! value and the arithmetic itself are computed by the caller.

use vstd::prelude::*;

verus! {

/// A token of an arithmetic expression.  `Num(start, end)` is a number
/// literal occupying the characters `start..end` of the tokenized text.
#[derive(Clone, Copy, Debug, PartialEq, Eq, Structural)]
pub enum Tok {
    Num(usize, usize),
    Plus,
    Minus,
    Star,
    Slash,
    LParen,
    RParen,
}

/// Why an expression was rejected.
#[derive(Clone, Copy, Debug, PartialEq, Eq, Structural)]
pub enum CalcError {
    /// A character that starts no token.
    UnexpectedChar(char),
    /// A maximal run of digits and dots (`start..end`) that is no decimal number.
    InvalidNumber(usize, usize),
    /// The tokens ended where an operand was expected.
    UnexpectedEnd,
    /// A parenthesised expression without its closing parenthesis.
    MissingParen,
    /// A token that cannot start an operand, at this token index.
    UnexpectedToken(usize),
    /// A complete expression followed by more tokens.
    TrailingTokens,
    /// A division whose right operand evaluated to zero.
    DivisionByZero,
}

pub open spec fn is_space(c: char) -> bool {
    c == ' ' || c == '\t' || c == '\n'
}

pub open spec fn is_digit(c: char) -> bool {
    '0' <= c && c <= '9'
}

pub open spec fn is_num_char(c: char) -> bool {
    is_digit(c) || c == '.'
}

/// The end of the maximal run of digits and dots that starts at `i`.
pub open spec fn num_end(s: Seq<char>, i: int) -> int
    decreases s.len() - i,
{
    if 0 <= i < s.len() && is_num_char(s[i]) {
        num_end(s, i + 1)
    } else {
        i
    }
}

pub open spec fn count_dots(lit: Seq<char>) -> nat
    decreases lit.len(),
{
    if lit.len() == 0 {
        0
    } else {
        count_dots(lit.drop_last()) + if lit.last() == '.' { 1nat } else { 0nat }
    }
}

/// A run of digits and dots is a decimal number when it holds a digit and at
/// most one dot (`1`, `1.`, `.5`, `1.5`).
pub open spec fn valid_literal(lit: Seq<char>) -> bool {
    &&& exists|k: int| 0 <= k < lit.len() && is_digit(#[trigger] lit[k])
    &&& count_dots(lit) <= 1
}

pub open spec fn single_tok(c: char) -> Option<Tok> {
    if c == '+' {
        Some(Tok::Plus)
    } else if c == '-' {
        Some(Tok::Minus)
    } else if c == '*' {
        Some(Tok::Star)
    } else if c == '/' {
        Some(Tok::Slash)
    } else if c == '(' {
        Some(Tok::LParen)
    } else if c == ')' {
        Some(Tok::RParen)
    } else {
        None
    }
}

/// Tokenization of `s` from position `i` on: spaces, tabs and newlines are
/// skipped, operators and parentheses are single tokens, and a maximal run
/// of digits and dots is one number literal.  The first offending character
/// or literal decides the error.
pub open spec fn tokenize_from(s: Seq<char>, i: int) -> Result<Seq<Tok>, CalcError>
    decreases s.len() - i,
{
    if i < 0 || i >= s.len() {
        Ok(Seq::empty())
    } else if is_space(s[i]) {
        tokenize_from(s, i + 1)
    } else if single_tok(s[i]) is Some {
        match tokenize_from(s, i + 1) {
            Ok(rest) => Ok(seq![single_tok(s[i])->0] + rest),
            Err(e) => Err(e),
        }
    } else if is_num_char(s[i]) {
        let e = num_end(s, i);
        if !valid_literal(s.subrange(i, e)) {
            Err(CalcError::InvalidNumber(i as usize, e as usize))
        } else if i < e <= s.len() {
            match tokenize_from(s, e) {
                Ok(rest) => Ok(seq![Tok::Num(i as usize, e as usize)] + rest),
                Err(e) => Err(e),
            }
        } else {
            Err(CalcError::UnexpectedEnd)
        }
    } else {
        Err(CalcError::UnexpectedChar(s[i]))
    }
}

pub open spec fn spec_tokenize(s: Seq<char>) -> Result<Seq<Tok>, CalcError> {
    tokenize_from(s, 0)
}

pub proof fn lemma_num_end_bounds(s: Seq<char>, i: int)
    requires
        0 <= i <= s.len(),
    ensures
        i <= num_end(s, i) <= s.len(),
        forall|k: int| i <= k < num_end(s, i) ==> is_num_char(#[trigger] s[k]),
        num_end(s, i) < s.len() ==> !is_num_char(s[num_end(s, i)]),
    decreases s.len() - i,
{
    if i < s.len() && is_num_char(s[i]) {
        lemma_num_end_bounds(s, i + 1);
    }
}

fn is_num_char_exec(c: char) -> (b: bool)
    ensures
        b == is_num_char(c),
{
    ('0' <= c && c <= '9') || c == '.'
}

/// `r` with `prefix` put before its tokens when it is `Ok`.
pub open spec fn prepend_toks(prefix: Seq<Tok>, r: Result<Seq<Tok>, CalcError>) -> Result<Seq<Tok>, CalcError> {
    match r {
        Ok(rest) => Ok(prefix + rest),
        Err(e) => Err(e),
    }
}

pub open spec fn toks_result(r: Result<Vec<Tok>, CalcError>) -> Result<Seq<Tok>, CalcError> {
    match r {
        Ok(v) => Ok(v@),
        Err(e) => Err(e),
    }
}

proof fn lemma_count_dots_push(lit: Seq<char>, c: char)
    ensures
        count_dots(lit.push(c)) == count_dots(lit) + if c == '.' { 1nat } else { 0nat },
{
    assert(lit.push(c).drop_last() =~= lit);
}

/// Whether the characters `i..e` of `s` form a decimal literal.
fn literal_ok(s: &Vec<char>, i: usize, e: usize) -> (b: bool)
    requires
        i <= e <= s.len(),
    ensures
        b == valid_literal(s@.subrange(i as int, e as int)),
{
    let mut j = i;
    let mut has_digit = false;
    let mut dots: usize = 0;
    assert(s@.subrange(i as int, i as int) =~= Seq::<char>::empty());
    while j < e
        invariant
            i <= j <= e <= s.len(),
            dots <= j - i,
            dots == count_dots(s@.subrange(i as int, j as int)),
            has_digit == (exists|k: int| i <= k < j && is_digit(#[trigger] s@[k])),
        decreases e - j,
    {
        let c = s[j];
        proof {
            assert(s@.subrange(i as int, j + 1) =~= s@.subrange(i as int, j as int).push(c));
            lemma_count_dots_push(s@.subrange(i as int, j as int), c);
        }
        if '0' <= c && c <= '9' {
            has_digit = true;
        }
        if c == '.' {
            dots = dots + 1;
        }
        j = j + 1;
    }
    let lit = Ghost(s@.subrange(i as int, e as int));
    if has_digit {
        let ghost k = choose|k: int| i <= k < e && is_digit(s@[k]);
        assert(is_digit(lit@[k - i]));
    } else {
        assert forall|k: int| 0 <= k < lit@.len() implies !is_digit(#[trigger] lit@[k]) by {
            assert(lit@[k] == s@[k + i]);
        }
    }
    has_digit && dots <= 1
}

/// Splits an expression into tokens, as `spec_tokenize` describes.
pub fn tokenize(expr: &str) -> (r: Result<Vec<Tok>, CalcError>)
    ensures
        toks_result(r) == spec_tokenize(expr@),
{
    let s = crate::text::chars_of(expr);
    let n = s.len();
    let mut out: Vec<Tok> = Vec::new();
    let mut i: usize = 0;
    assert(out@ + Seq::<Tok>::empty() =~= out@);
    while i < n
        invariant
            n == s.len(),
            s@ == expr@,
            i <= n,
            spec_tokenize(s@) == prepend_toks(out@, tokenize_from(s@, i as int)),
        decreases n - i,
    {
        let c = s[i];
        if c == ' ' || c == '\t' || c == '\n' {
            i = i + 1;
        } else if c == '+' || c == '-' || c == '*' || c == '/' || c == '(' || c == ')' {
            let t = if c == '+' {
                Tok::Plus
            } else if c == '-' {
                Tok::Minus
            } else if c == '*' {
                Tok::Star
            } else if c == '/' {
                Tok::Slash
            } else if c == '(' {
                Tok::LParen
            } else {
                Tok::RParen
            };
            assert(t == single_tok(c)->0);
            proof {
                match tokenize_from(s@, i + 1) {
                    Ok(rest) => assert(out@ + (seq![t] + rest) =~= out@.push(t) + rest),
                    Err(_) => {},
                }
            }
            out.push(t);
            i = i + 1;
        } else if ('0' <= c && c <= '9') || c == '.' {
            let mut j = i;
            proof { lemma_num_end_bounds(s@, i as int); }
            while j < n && is_num_char_exec(s[j])
                invariant
                    n == s.len(),
                    i <= j <= n,
                    num_end(s@, j as int) == num_end(s@, i as int),
                decreases n - j,
            {
                j = j + 1;
            }
            if !literal_ok(&s, i, j) {
                return Err(CalcError::InvalidNumber(i, j));
            }
            let t = Tok::Num(i, j);
            proof {
                match tokenize_from(s@, j as int) {
                    Ok(rest) => assert(out@ + (seq![t] + rest) =~= out@.push(t) + rest),
                    Err(_) => {},
                }
            }
            out.push(t);
            i = j;
        } else {
            return Err(CalcError::UnexpectedChar(c));
        }
    }
    assert(out@ + Seq::<Tok>::empty() =~= out@);
    Ok(out)
}


/// The characters a token stands for in the text `s`.
pub open spec fn tok_text(s: Seq<char>, k: Tok) -> Seq<char> {
    match k {
        Tok::Num(a, b) => s.subrange(a as int, b as int),
        Tok::Plus => seq!['+'],
        Tok::Minus => seq!['-'],
        Tok::Star => seq!['*'],
        Tok::Slash => seq!['/'],
        Tok::LParen => seq!['('],
        Tok::RParen => seq![')'],
    }
}

/// The characters a token sequence stands for in the text `s`.
pub open spec fn toks_text(s: Seq<char>, ts: Seq<Tok>) -> Seq<char>
    decreases ts.len(),
{
    if ts.len() == 0 {
        Seq::empty()
    } else {
        tok_text(s, ts[0]) + toks_text(s, ts.drop_first())
    }
}

/// The characters of `s` from `i` on, without spaces, tabs and newlines.
pub open spec fn strip_from(s: Seq<char>, i: int) -> Seq<char>
    decreases s.len() - i,
{
    if i < 0 || i >= s.len() {
        Seq::empty()
    } else if is_space(s[i]) {
        strip_from(s, i + 1)
    } else {
        seq![s[i]] + strip_from(s, i + 1)
    }
}

/// A number token spans a non-empty valid literal inside the text.
pub open spec fn num_tok_ok(s: Seq<char>, k: Tok) -> bool {
    k matches Tok::Num(a, b) ==> a < b <= s.len() && valid_literal(
        s.subrange(a as int, b as int),
    )
}

proof fn lemma_strip_run(s: Seq<char>, i: int, e: int)
    requires
        0 <= i <= e <= s.len(),
        forall|k: int| i <= k < e ==> is_num_char(#[trigger] s[k]),
    ensures
        strip_from(s, i) == s.subrange(i, e) + strip_from(s, e),
    decreases e - i,
{
    if i < e {
        lemma_strip_run(s, i + 1, e);
        assert(s.subrange(i, e) =~= seq![s[i]] + s.subrange(i + 1, e));
        assert(!is_space(s[i]));
    } else {
        assert(s.subrange(i, e) =~= Seq::<char>::empty());
    }
}

proof fn lemma_toks_text_cons(s: Seq<char>, k: Tok, rest: Seq<Tok>)
    ensures
        toks_text(s, seq![k] + rest) == tok_text(s, k) + toks_text(s, rest),
{
    assert((seq![k] + rest).drop_first() =~= rest);
}

proof fn lemma_tokenize_from_spells(s: Seq<char>, i: int)
    requires
        0 <= i,
        s.len() <= usize::MAX,
    ensures
        tokenize_from(s, i) matches Ok(ts) ==> toks_text(s, ts) == strip_from(s, i) && forall|k: int|
            0 <= k < ts.len() ==> num_tok_ok(s, #[trigger] ts[k]),
    decreases s.len() - i,
{
    if 0 <= i < s.len() {
        if is_space(s[i]) {
            lemma_tokenize_from_spells(s, i + 1);
        } else if single_tok(s[i]) is Some {
            lemma_tokenize_from_spells(s, i + 1);
            if let Ok(rest) = tokenize_from(s, i + 1) {
                let k = single_tok(s[i])->0;
                lemma_toks_text_cons(s, k, rest);
                assert forall|j: int| 0 <= j < (seq![k] + rest).len() implies num_tok_ok(
                    s,
                    #[trigger] (seq![k] + rest)[j],
                ) by {
                    if j > 0 {
                        assert((seq![k] + rest)[j] == rest[j - 1]);
                    }
                }
            }
        } else if is_num_char(s[i]) {
            let e = num_end(s, i);
            lemma_num_end_bounds(s, i);
            if valid_literal(s.subrange(i, e)) && i < e <= s.len() {
                lemma_tokenize_from_spells(s, e);
                if let Ok(rest) = tokenize_from(s, e) {
                    let k = Tok::Num(i as usize, e as usize);
                    lemma_toks_text_cons(s, k, rest);
                    lemma_strip_run(s, i, e);
                    assert forall|j: int| 0 <= j < (seq![k] + rest).len() implies num_tok_ok(
                        s,
                        #[trigger] (seq![k] + rest)[j],
                    ) by {
                        if j > 0 {
                            assert((seq![k] + rest)[j] == rest[j - 1]);
                        }
                    }
                }
            }
        }
    }
}

/// The tokens spell the input: when tokenization succeeds, the texts of the
/// tokens, put together, are the input without its spaces, tabs and
/// newlines, and every number token spans a valid decimal literal of it.
pub proof fn law_tokens_spell_input(s: Seq<char>)
    requires
        s.len() <= usize::MAX,
    ensures
        spec_tokenize(s) matches Ok(ts) ==> toks_text(s, ts) == strip_from(s, 0) && forall|k: int|
            0 <= k < ts.len() ==> num_tok_ok(s, #[trigger] ts[k]),
{
    lemma_tokenize_from_spells(s, 0);
}

/// The syntax tree of an expression.  Parentheses are kept, so the tree
/// gives back the exact token sequence it was parsed from.
#[derive(Debug, PartialEq, Eq)]
pub enum Expr {
    /// A number literal: the characters `start..end` of the expression text.
    Num(usize, usize),
    Neg(Box<Expr>),
    Paren(Box<Expr>),
    Add(Box<Expr>, Box<Expr>),
    Sub(Box<Expr>, Box<Expr>),
    Mul(Box<Expr>, Box<Expr>),
    Div(Box<Expr>, Box<Expr>),
}

/// Why a parse failed: the error, and the operands that were complete when
/// it was found, in the order they were completed.  Evaluating those
/// operands in that order performs every division that the expression
/// performs before the error shows.
#[derive(Debug, PartialEq, Eq)]
pub struct ParseFailure {
    pub error: CalcError,
    pub evaluated: Vec<Expr>,
}

/// A parse result in the model: the tree and the index of the first token
/// after it, or the error with the operands complete before it.
pub type SpecParse = Result<(Expr, int), (CalcError, Seq<Expr>)>;

/// A failure whose operands complete before it are `done`.
pub open spec fn fail(e: CalcError, done: Seq<Expr>) -> SpecParse {
    Err((e, done))
}

/// `r`, with `left` listed first among the operands complete before a
/// failure.
pub open spec fn after(left: Expr, r: SpecParse) -> SpecParse {
    match r {
        Err((e, done)) => Err((e, seq![left] + done)),
        Ok(x) => Ok(x),
    }
}

pub open spec fn is_tok(t: Seq<Tok>, i: int, k: Tok) -> bool {
    0 <= i < t.len() && t[i] == k
}

/// `sum := product (('+' | '-') product)*`, left-associative.
pub open spec fn spec_sum(t: Seq<Tok>, i: int) -> SpecParse
    decreases t.len() - i, 4int,
{
    match spec_product(t, i) {
        Err(f) => Err(f),
        Ok((l, p)) => if i < p <= t.len() {
            spec_sum_tail(t, l, p)
        } else {
            fail(CalcError::UnexpectedEnd, Seq::empty())
        },
    }
}

/// The rest of a sum whose operands so far form `left`, from token `i` on.
pub open spec fn spec_sum_tail(t: Seq<Tok>, left: Expr, i: int) -> SpecParse
    decreases t.len() - i, 3int,
{
    if 0 <= i < t.len() && (t[i] == Tok::Plus || t[i] == Tok::Minus) {
        match spec_product(t, i + 1) {
            Err(f) => after(left, Err(f)),
            Ok((r, p)) => if i < p <= t.len() {
                let node = if t[i] == Tok::Plus {
                    Expr::Add(Box::new(left), Box::new(r))
                } else {
                    Expr::Sub(Box::new(left), Box::new(r))
                };
                spec_sum_tail(t, node, p)
            } else {
                fail(CalcError::UnexpectedEnd, Seq::empty())
            },
        }
    } else {
        Ok((left, i))
    }
}

/// `product := atom (('*' | '/') atom)*`, left-associative.
pub open spec fn spec_product(t: Seq<Tok>, i: int) -> SpecParse
    decreases t.len() - i, 2int,
{
    match spec_atom(t, i) {
        Err(f) => Err(f),
        Ok((l, p)) => if i < p <= t.len() {
            spec_product_tail(t, l, p)
        } else {
            fail(CalcError::UnexpectedEnd, Seq::empty())
        },
    }
}

/// The rest of a product whose operands so far form `left`, from token `i` on.
pub open spec fn spec_product_tail(t: Seq<Tok>, left: Expr, i: int) -> SpecParse
    decreases t.len() - i, 1int,
{
    if 0 <= i < t.len() && (t[i] == Tok::Star || t[i] == Tok::Slash) {
        match spec_atom(t, i + 1) {
            Err(f) => after(left, Err(f)),
            Ok((r, p)) => if i < p <= t.len() {
                let node = if t[i] == Tok::Star {
                    Expr::Mul(Box::new(left), Box::new(r))
                } else {
                    Expr::Div(Box::new(left), Box::new(r))
                };
                spec_product_tail(t, node, p)
            } else {
                fail(CalcError::UnexpectedEnd, Seq::empty())
            },
        }
    } else {
        Ok((left, i))
    }
}

/// `atom := number | '(' sum ')' | '-' atom`.
pub open spec fn spec_atom(t: Seq<Tok>, i: int) -> SpecParse
    decreases t.len() - i, 0int,
{
    if i < 0 || i >= t.len() {
        fail(CalcError::UnexpectedEnd, Seq::empty())
    } else {
        match t[i] {
            Tok::Num(a, b) => Ok((Expr::Num(a, b), i + 1)),
            Tok::LParen => match spec_sum(t, i + 1) {
                Err(f) => Err(f),
                Ok((r, p)) => if is_tok(t, p, Tok::RParen) {
                    Ok((Expr::Paren(Box::new(r)), p + 1))
                } else {
                    fail(CalcError::MissingParen, seq![r])
                },
            },
            Tok::Minus => match spec_atom(t, i + 1) {
                Err(f) => Err(f),
                Ok((r, p)) => Ok((Expr::Neg(Box::new(r)), p)),
            },
            _ => fail(CalcError::UnexpectedToken(i as usize), Seq::empty()),
        }
    }
}

/// A whole-expression result in the model.
pub type SpecExpr = Result<Expr, (CalcError, Seq<Expr>)>;

/// A whole token sequence as one expression.
pub open spec fn spec_parse_tokens(t: Seq<Tok>) -> SpecExpr {
    match spec_sum(t, 0) {
        Err(f) => Err(f),
        Ok((e, p)) => if p == t.len() {
            Ok(e)
        } else {
            Err((CalcError::TrailingTokens, seq![e]))
        },
    }
}

pub open spec fn failure_view(f: ParseFailure) -> (CalcError, Seq<Expr>) {
    (f.error, f.evaluated@)
}

pub open spec fn parse_view(r: Result<(Expr, usize), ParseFailure>) -> SpecParse {
    match r {
        Ok((e, p)) => Ok((e, p as int)),
        Err(f) => Err(failure_view(f)),
    }
}

pub open spec fn expr_view(r: Result<Expr, ParseFailure>) -> SpecExpr {
    match r {
        Ok(e) => Ok(e),
        Err(f) => Err(failure_view(f)),
    }
}

fn is_sum_op(t: Tok) -> (b: bool)
    ensures
        b == (t == Tok::Plus || t == Tok::Minus),
{
    match t {
        Tok::Plus | Tok::Minus => true,
        _ => false,
    }
}

fn is_product_op(t: Tok) -> (b: bool)
    ensures
        b == (t == Tok::Star || t == Tok::Slash),
{
    match t {
        Tok::Star | Tok::Slash => true,
        _ => false,
    }
}

/// A failure with `left` listed first among the operands complete before it.
fn fail_after(left: Expr, f: ParseFailure) -> (g: ParseFailure)
    ensures
        failure_view(g) == (f.error, seq![left] + f.evaluated@),
{
    let mut evaluated = f.evaluated;
    evaluated.insert(0, left);
    ParseFailure { error: f.error, evaluated }
}

/// A failure with nothing complete before it.
fn fail_bare(error: CalcError) -> (g: ParseFailure)
    ensures
        failure_view(g) == (error, Seq::<Expr>::empty()),
{
    ParseFailure { error, evaluated: Vec::new() }
}

/// A failure with one operand complete before it.
fn fail_one(error: CalcError, done: Expr) -> (g: ParseFailure)
    ensures
        failure_view(g) == (error, seq![done]),
{
    let mut evaluated = Vec::new();
    evaluated.push(done);
    ParseFailure { error, evaluated }
}

/// Parses a sum starting at token `i`, as `spec_sum` describes.
pub fn parse_add_sub(t: &Vec<Tok>, i: usize) -> (r: Result<(Expr, usize), ParseFailure>)
    ensures
        parse_view(r) == spec_sum(t@, i as int),
        r matches Ok((_, p)) ==> i < p <= t.len(),
    decreases t.len() - i, 4int,
{
    let (mut left, mut p) = match parse_mul_div(t, i) {
        Ok(x) => x,
        Err(f) => return Err(f),
    };
    while p < t.len() && is_sum_op(t[p])
        invariant
            i < p <= t.len(),
            spec_sum(t@, i as int) == spec_sum_tail(t@, left, p as int),
        decreases t.len() - p,
    {
        let op = t[p];
        let (right, q) = match parse_mul_div(t, p + 1) {
            Ok(x) => x,
            Err(f) => return Err(fail_after(left, f)),
        };
        left = match op {
            Tok::Plus => Expr::Add(Box::new(left), Box::new(right)),
            _ => Expr::Sub(Box::new(left), Box::new(right)),
        };
        p = q;
    }
    Ok((left, p))
}

/// Parses a product starting at token `i`, as `spec_product` describes.
pub fn parse_mul_div(t: &Vec<Tok>, i: usize) -> (r: Result<(Expr, usize), ParseFailure>)
    ensures
        parse_view(r) == spec_product(t@, i as int),
        r matches Ok((_, p)) ==> i < p <= t.len(),
    decreases t.len() - i, 2int,
{
    let (mut left, mut p) = match parse_atom(t, i) {
        Ok(x) => x,
        Err(f) => return Err(f),
    };
    while p < t.len() && is_product_op(t[p])
        invariant
            i < p <= t.len(),
            spec_product(t@, i as int) == spec_product_tail(t@, left, p as int),
        decreases t.len() - p,
    {
        let op = t[p];
        let (right, q) = match parse_atom(t, p + 1) {
            Ok(x) => x,
            Err(f) => return Err(fail_after(left, f)),
        };
        left = match op {
            Tok::Star => Expr::Mul(Box::new(left), Box::new(right)),
            _ => Expr::Div(Box::new(left), Box::new(right)),
        };
        p = q;
    }
    Ok((left, p))
}

/// Parses an atom at token `i`, as `spec_atom` describes.
pub fn parse_atom(t: &Vec<Tok>, i: usize) -> (r: Result<(Expr, usize), ParseFailure>)
    ensures
        parse_view(r) == spec_atom(t@, i as int),
        r matches Ok((_, p)) ==> i < p <= t.len(),
    decreases t.len() - i, 0int,
{
    if i >= t.len() {
        return Err(fail_bare(CalcError::UnexpectedEnd));
    }
    match t[i] {
        Tok::Num(a, b) => Ok((Expr::Num(a, b), i + 1)),
        Tok::LParen => {
            let (inner, p) = match parse_add_sub(t, i + 1) {
                Ok(x) => x,
                Err(f) => return Err(f),
            };
            if p >= t.len() || t[p] != Tok::RParen {
                return Err(fail_one(CalcError::MissingParen, inner));
            }
            Ok((Expr::Paren(Box::new(inner)), p + 1))
        },
        Tok::Minus => {
            let (inner, p) = match parse_atom(t, i + 1) {
                Ok(x) => x,
                Err(f) => return Err(f),
            };
            Ok((Expr::Neg(Box::new(inner)), p))
        },
        _ => Err(fail_bare(CalcError::UnexpectedToken(i))),
    }
}

/// Parses a whole token sequence as one expression, as `spec_parse_tokens`
/// describes.
pub fn parse_tokens(t: &Vec<Tok>) -> (r: Result<Expr, ParseFailure>)
    ensures
        expr_view(r) == spec_parse_tokens(t@),
{
    let (e, p) = match parse_add_sub(t, 0) {
        Ok(x) => x,
        Err(f) => return Err(f),
    };
    if p != t.len() {
        return Err(fail_one(CalcError::TrailingTokens, e));
    }
    Ok(e)
}

/// The tokens that an expression tree stands for.
pub open spec fn toks_of(e: Expr) -> Seq<Tok>
    decreases e,
{
    match e {
        Expr::Num(a, b) => seq![Tok::Num(a, b)],
        Expr::Neg(x) => seq![Tok::Minus] + toks_of(*x),
        Expr::Paren(x) => seq![Tok::LParen] + toks_of(*x) + seq![Tok::RParen],
        Expr::Add(l, r) => toks_of(*l) + seq![Tok::Plus] + toks_of(*r),
        Expr::Sub(l, r) => toks_of(*l) + seq![Tok::Minus] + toks_of(*r),
        Expr::Mul(l, r) => toks_of(*l) + seq![Tok::Star] + toks_of(*r),
        Expr::Div(l, r) => toks_of(*l) + seq![Tok::Slash] + toks_of(*r),
    }
}

/// An operand of `*` and `/`: a number, a negated atom or a parenthesised sum.
pub open spec fn atom_shaped(e: Expr) -> bool
    decreases e, 0int,
{
    match e {
        Expr::Num(_, _) => true,
        Expr::Neg(x) => atom_shaped(*x),
        Expr::Paren(x) => sum_shaped(*x),
        _ => false,
    }
}

/// A left-nested chain of atoms joined by `*` and `/`.
pub open spec fn product_shaped(e: Expr) -> bool
    decreases e, 1int,
{
    match e {
        Expr::Mul(l, r) => product_shaped(*l) && atom_shaped(*r),
        Expr::Div(l, r) => product_shaped(*l) && atom_shaped(*r),
        _ => atom_shaped(e),
    }
}

/// A left-nested chain of products joined by `+` and `-`: the trees the
/// parser builds, with `*` and `/` binding tighter than `+` and `-` and every
/// operator associating to the left.
pub open spec fn sum_shaped(e: Expr) -> bool
    decreases e, 2int,
{
    match e {
        Expr::Add(l, r) => sum_shaped(*l) && product_shaped(*r),
        Expr::Sub(l, r) => sum_shaped(*l) && product_shaped(*r),
        _ => product_shaped(e),
    }
}

proof fn lemma_shape_widen(e: Expr)
    ensures
        atom_shaped(e) ==> product_shaped(e),
        product_shaped(e) ==> sum_shaped(e),
{
    match e {
        Expr::Add(_, _) | Expr::Sub(_, _) => {
            assert(!atom_shaped(e));
            assert(!product_shaped(e));
        },
        Expr::Mul(_, _) | Expr::Div(_, _) => {
            assert(!atom_shaped(e));
            assert(sum_shaped(e) == product_shaped(e));
        },
        _ => {
            assert(product_shaped(e) == atom_shaped(e));
            assert(sum_shaped(e) == product_shaped(e));
        },
    }
}

proof fn lemma_toks_nonempty(e: Expr)
    ensures
        toks_of(e).len() > 0,
    decreases e,
{
    match e {
        Expr::Neg(x) => lemma_toks_nonempty(*x),
        Expr::Paren(x) => lemma_toks_nonempty(*x),
        Expr::Add(l, r) => lemma_toks_nonempty(*l),
        Expr::Sub(l, r) => lemma_toks_nonempty(*l),
        Expr::Mul(l, r) => lemma_toks_nonempty(*l),
        Expr::Div(l, r) => lemma_toks_nonempty(*l),
        _ => {},
    }
}

proof fn lemma_sub_join(t: Seq<Tok>, a: int, b: int, c: int)
    requires
        0 <= a <= b <= c <= t.len(),
    ensures
        t.subrange(a, b) + t.subrange(b, c) == t.subrange(a, c),
{
    assert(t.subrange(a, b) + t.subrange(b, c) =~= t.subrange(a, c));
}

proof fn lemma_parsed_sum(t: Seq<Tok>, i: int)
    requires
        0 <= i,
    ensures
        spec_sum(t, i) matches Ok((e, p)) ==> i < p <= t.len() && toks_of(e) == t.subrange(i, p)
            && sum_shaped(e),
    decreases t.len() - i, 4int,
{
    lemma_parsed_product(t, i);
    if let Ok((l, p)) = spec_product(t, i) {
        if i < p <= t.len() {
            lemma_shape_widen(l);
            lemma_parsed_sum_tail(t, l, p);
            if let Ok((e, q)) = spec_sum_tail(t, l, p) {
                lemma_sub_join(t, i, p, q);
            }
        }
    }
}

proof fn lemma_parsed_sum_tail(t: Seq<Tok>, left: Expr, i: int)
    requires
        0 <= i <= t.len(),
        sum_shaped(left),
    ensures
        spec_sum_tail(t, left, i) matches Ok((e, p)) ==> i <= p <= t.len() && toks_of(e)
            == toks_of(left) + t.subrange(i, p) && sum_shaped(e),
    decreases t.len() - i, 3int,
{
    if 0 <= i < t.len() && (t[i] == Tok::Plus || t[i] == Tok::Minus) {
        lemma_parsed_product(t, i + 1);
        if let Ok((r, p)) = spec_product(t, i + 1) {
            if i < p <= t.len() {
                let node = if t[i] == Tok::Plus {
                    Expr::Add(Box::new(left), Box::new(r))
                } else {
                    Expr::Sub(Box::new(left), Box::new(r))
                };
                assert(toks_of(node) == toks_of(left) + t.subrange(i, p)) by {
                    assert(t.subrange(i, p) =~= seq![t[i]] + t.subrange(i + 1, p));
                }
                lemma_parsed_sum_tail(t, node, p);
                if let Ok((e, q)) = spec_sum_tail(t, node, p) {
                    lemma_sub_join(t, i, p, q);
                    assert(toks_of(e) =~= toks_of(left) + t.subrange(i, q));
                }
            }
        }
    } else {
        assert(t.subrange(i, i) =~= Seq::<Tok>::empty());
        assert(toks_of(left) + t.subrange(i, i) =~= toks_of(left));
    }
}

proof fn lemma_parsed_product(t: Seq<Tok>, i: int)
    requires
        0 <= i,
    ensures
        spec_product(t, i) matches Ok((e, p)) ==> i < p <= t.len() && toks_of(e) == t.subrange(
            i,
            p,
        ) && product_shaped(e),
    decreases t.len() - i, 2int,
{
    lemma_parsed_atom(t, i);
    if let Ok((l, p)) = spec_atom(t, i) {
        if i < p <= t.len() {
            lemma_shape_widen(l);
            lemma_parsed_product_tail(t, l, p);
            if let Ok((e, q)) = spec_product_tail(t, l, p) {
                lemma_sub_join(t, i, p, q);
            }
        }
    }
}

proof fn lemma_parsed_product_tail(t: Seq<Tok>, left: Expr, i: int)
    requires
        0 <= i <= t.len(),
        product_shaped(left),
    ensures
        spec_product_tail(t, left, i) matches Ok((e, p)) ==> i <= p <= t.len() && toks_of(e)
            == toks_of(left) + t.subrange(i, p) && product_shaped(e),
    decreases t.len() - i, 1int,
{
    if 0 <= i < t.len() && (t[i] == Tok::Star || t[i] == Tok::Slash) {
        lemma_parsed_atom(t, i + 1);
        if let Ok((r, p)) = spec_atom(t, i + 1) {
            if i < p <= t.len() {
                let node = if t[i] == Tok::Star {
                    Expr::Mul(Box::new(left), Box::new(r))
                } else {
                    Expr::Div(Box::new(left), Box::new(r))
                };
                assert(toks_of(node) == toks_of(left) + t.subrange(i, p)) by {
                    assert(t.subrange(i, p) =~= seq![t[i]] + t.subrange(i + 1, p));
                }
                lemma_parsed_product_tail(t, node, p);
                if let Ok((e, q)) = spec_product_tail(t, node, p) {
                    lemma_sub_join(t, i, p, q);
                    assert(toks_of(e) =~= toks_of(left) + t.subrange(i, q));
                }
            }
        }
    } else {
        assert(toks_of(left) + t.subrange(i, i) =~= toks_of(left));
    }
}

proof fn lemma_parsed_atom(t: Seq<Tok>, i: int)
    requires
        0 <= i,
    ensures
        spec_atom(t, i) matches Ok((e, p)) ==> i < p <= t.len() && toks_of(e) == t.subrange(i, p)
            && atom_shaped(e),
    decreases t.len() - i, 0int,
{
    if 0 <= i < t.len() {
        match t[i] {
            Tok::Num(a, b) => {
                assert(t.subrange(i, i + 1) =~= seq![t[i]]);
            },
            Tok::LParen => {
                lemma_parsed_sum(t, i + 1);
                if let Ok((r, p)) = spec_sum(t, i + 1) {
                    if is_tok(t, p, Tok::RParen) {
                        assert(t.subrange(i, p + 1) =~= seq![t[i]] + t.subrange(i + 1, p) + seq![
                            t[p],
                        ]);
                    }
                }
            },
            Tok::Minus => {
                lemma_parsed_atom(t, i + 1);
                if let Ok((r, p)) = spec_atom(t, i + 1) {
                    assert(t.subrange(i, p) =~= seq![t[i]] + t.subrange(i + 1, p));
                }
            },
            _ => {},
        }
    }
}

/// Parsing then printing gives the tokens back: a tree the parser accepts
/// stands for exactly the whole token sequence, and it has the precedence
/// and associativity shape of `sum_shaped`.
pub proof fn law_parse_then_print(t: Seq<Tok>)
    ensures
        spec_parse_tokens(t) matches Ok(e) ==> toks_of(e) == t && sum_shaped(e),
{
    lemma_parsed_sum(t, 0);
    assert(t.subrange(0, t.len() as int) =~= t);
}


/// The tokens `t[i..]` begin with the tokens of `e`.
pub open spec fn spells_at(t: Seq<Tok>, i: int, e: Expr) -> bool {
    0 <= i && i + toks_of(e).len() <= t.len() && t.subrange(i, i + toks_of(e).len()) == toks_of(e)
}

pub open spec fn not_product_op_at(t: Seq<Tok>, k: int) -> bool {
    k >= t.len() || (t[k] != Tok::Star && t[k] != Tok::Slash)
}

proof fn lemma_spells_split(t: Seq<Tok>, i: int, a: Seq<Tok>, b: Seq<Tok>)
    requires
        0 <= i,
        i + a.len() + b.len() <= t.len(),
        t.subrange(i, i + a.len() + b.len()) == a + b,
    ensures
        t.subrange(i, i + a.len()) == a,
        t.subrange(i + a.len(), i + a.len() + b.len()) == b,
{
    assert forall|k: int| 0 <= k < a.len() implies t.subrange(i, i + a.len())[k] == a[k] by {
        assert(t.subrange(i, i + a.len() + b.len())[k] == (a + b)[k]);
    }
    assert forall|k: int| 0 <= k < b.len() implies t.subrange(
        i + a.len(),
        i + a.len() + b.len(),
    )[k] == b[k] by {
        assert(t.subrange(i, i + a.len() + b.len())[a.len() + k] == (a + b)[a.len() + k]);
        assert(t.subrange(i, i + a.len() + b.len())[a.len() + k] == t[i + a.len() + k]);
        assert(t.subrange(i + a.len(), i + a.len() + b.len())[k] == t[i + a.len() + k]);
    }
    assert(t.subrange(i, i + a.len()) =~= a);
    assert(t.subrange(i + a.len(), i + a.len() + b.len()) =~= b);
}

proof fn lemma_print_atom(t: Seq<Tok>, i: int, e: Expr)
    requires
        atom_shaped(e),
        spells_at(t, i, e),
    ensures
        spec_atom(t, i) == Ok::<(Expr, int), (CalcError, Seq<Expr>)>((e, i + toks_of(e).len())),
    decreases e, 0int,
{
    lemma_toks_nonempty(e);
    let n = toks_of(e).len() as int;
    assert(t[i] == toks_of(e)[0]) by {
        assert(t.subrange(i, i + n)[0] == t[i]);
    }
    match e {
        Expr::Num(a, b) => {},
        Expr::Neg(x) => {
            lemma_spells_split(t, i, seq![Tok::Minus], toks_of(*x));
            lemma_print_atom(t, i + 1, *x);
        },
        Expr::Paren(x) => {
            let inner = toks_of(*x);
            lemma_spells_split(t, i, seq![Tok::LParen] + inner, seq![Tok::RParen]);
            lemma_spells_split(t, i, seq![Tok::LParen], inner);
            let q = i + 1 + inner.len();
            assert(t[q] == Tok::RParen) by {
                assert(t.subrange(q, q + 1)[0] == t[q]);
            }
            lemma_print_sum(t, i + 1, *x);
        },
        _ => {},
    }
}

proof fn lemma_print_product(t: Seq<Tok>, i: int, e: Expr)
    requires
        product_shaped(e),
        spells_at(t, i, e),
    ensures
        spec_product(t, i) == spec_product_tail(t, e, i + toks_of(e).len()),
    decreases e, 2int,
{
    lemma_toks_nonempty(e);
    match e {
        Expr::Mul(_, _) | Expr::Div(_, _) => {
            lemma_print_product_op(t, i, e);
        },
        _ => {
            lemma_print_atom(t, i, e);
        },
    }
}

/// The operands and operator token of a binary node.
pub open spec fn binary_parts(e: Expr) -> (Expr, Tok, Expr) {
    match e {
        Expr::Add(l, r) => (*l, Tok::Plus, *r),
        Expr::Sub(l, r) => (*l, Tok::Minus, *r),
        Expr::Mul(l, r) => (*l, Tok::Star, *r),
        Expr::Div(l, r) => (*l, Tok::Slash, *r),
        _ => (e, Tok::Plus, e),
    }
}

proof fn lemma_print_product_op(t: Seq<Tok>, i: int, e: Expr)
    requires
        e is Mul || e is Div,
        product_shaped(e),
        spells_at(t, i, e),
    ensures
        spec_product(t, i) == spec_product_tail(t, e, i + toks_of(e).len()),
    decreases e, 1int,
{
    let (l, op, r) = binary_parts(e);
    let nl = toks_of(l).len() as int;
    assert(toks_of(e) == toks_of(l) + seq![op] + toks_of(r));
    lemma_spells_split(t, i, toks_of(l) + seq![op], toks_of(r));
    lemma_spells_split(t, i, toks_of(l), seq![op]);
    assert(t[i + nl] == op) by {
        assert(t.subrange(i + nl, i + nl + 1)[0] == t[i + nl]);
    }
    lemma_print_product(t, i, l);
    lemma_print_atom(t, i + nl + 1, r);
    lemma_toks_nonempty(l);
    lemma_toks_nonempty(r);
}

proof fn lemma_print_sum(t: Seq<Tok>, i: int, e: Expr)
    requires
        sum_shaped(e),
        spells_at(t, i, e),
        not_product_op_at(t, i + toks_of(e).len()),
    ensures
        spec_sum(t, i) == spec_sum_tail(t, e, i + toks_of(e).len()),
    decreases e, 4int,
{
    lemma_toks_nonempty(e);
    match e {
        Expr::Add(_, _) | Expr::Sub(_, _) => {
            lemma_print_sum_op(t, i, e);
        },
        _ => {
            lemma_print_product(t, i, e);
        },
    }
}

proof fn lemma_print_sum_op(t: Seq<Tok>, i: int, e: Expr)
    requires
        e is Add || e is Sub,
        sum_shaped(e),
        spells_at(t, i, e),
        not_product_op_at(t, i + toks_of(e).len()),
    ensures
        spec_sum(t, i) == spec_sum_tail(t, e, i + toks_of(e).len()),
    decreases e, 3int,
{
    let (l, op, r) = binary_parts(e);
    let nl = toks_of(l).len() as int;
    assert(toks_of(e) == toks_of(l) + seq![op] + toks_of(r));
    lemma_spells_split(t, i, toks_of(l) + seq![op], toks_of(r));
    lemma_spells_split(t, i, toks_of(l), seq![op]);
    assert(t[i + nl] == op) by {
        assert(t.subrange(i + nl, i + nl + 1)[0] == t[i + nl]);
    }
    lemma_print_sum(t, i, l);
    lemma_print_product(t, i + nl + 1, r);
    lemma_toks_nonempty(l);
    lemma_toks_nonempty(r);
}

/// Printing then parsing gives the tree back: every tree of the parser's
/// shape is what the parser builds from its own tokens.
pub proof fn law_print_then_parse(e: Expr)
    requires
        sum_shaped(e),
    ensures
        spec_parse_tokens(toks_of(e)) == Ok::<Expr, (CalcError, Seq<Expr>)>(e),
{
    let t = toks_of(e);
    assert(t.subrange(0, t.len() as int) =~= t);
    lemma_print_sum(t, 0, e);
}


/// The calculator tool.
pub struct CalculatorTool;

/// The calculator's input: an arithmetic expression.
pub struct CalculatorInput {
    pub expression: String,
}

/// An expression text as a tree: tokenized, then parsed as one sum.
pub open spec fn spec_parse_expression(s: Seq<char>) -> SpecExpr {
    match spec_tokenize(s) {
        Err(e) => Err((e, Seq::empty())),
        Ok(t) => spec_parse_tokens(t),
    }
}

/// Tokenizes and parses an expression text.
pub fn parse_expression(expr: &str) -> (r: Result<Expr, ParseFailure>)
    ensures
        expr_view(r) == spec_parse_expression(expr@),
{
    let toks = match tokenize(expr) {
        Ok(t) => t,
        Err(e) => return Err(fail_bare(e)),
    };
    parse_tokens(&toks)
}

/// The text of the number literal spanning `start..end` of `expr`.
pub fn literal_text(expr: &str, start: usize, end: usize) -> (t: String)
    requires
        start <= end <= expr@.len(),
    ensures
        t@ == expr@.subrange(start as int, end as int),
{
    let cs = crate::text::chars_of(expr);
    let mut s = String::new();
    let mut i = start;
    while i < end
        invariant
            cs@ == expr@,
            start <= i <= end <= cs.len(),
            s@ == expr@.subrange(start as int, i as int),
        decreases end - i,
    {
        crate::text::push_char(&mut s, cs[i]);
        assert(expr@.subrange(start as int, i + 1) =~= expr@.subrange(start as int, i as int).push(
            cs@[i as int],
        ));
        i = i + 1;
    }
    s
}

impl CalculatorTool {
    pub fn new() -> (t: Self) {
        CalculatorTool
    }

    pub fn name(&self) -> (s: &str)
        ensures
            s@ == "calculator"@,
    {
        "calculator"
    }

    pub fn description(&self) -> (s: &str)
        ensures
            s@ == "Evaluate a mathematical expression. Supports +, -, *, /, parentheses."@,
    {
        "Evaluate a mathematical expression. Supports +, -, *, /, parentheses."
    }

    /// The tree of the input's expression, or why it has none.
    pub fn parse(&self, args: &CalculatorInput) -> (r: Result<Expr, ParseFailure>)
        ensures
            expr_view(r) == spec_parse_expression(args.expression@),
    {
        parse_expression(args.expression.as_str())
    }
}

/// The tree of an accepted expression spells the input: its tokens, read
/// back in the text, give the text without its spaces, tabs and newlines;
/// its number literals are valid decimal literals of the text; and it has
/// the precedence shape of `sum_shaped`.
pub proof fn law_tree_spells_input(s: Seq<char>)
    requires
        s.len() <= usize::MAX,
    ensures
        spec_parse_expression(s) matches Ok(e) ==> {
            &&& toks_text(s, toks_of(e)) == strip_from(s, 0)
            &&& forall|k: int| 0 <= k < toks_of(e).len() ==> num_tok_ok(s, #[trigger] toks_of(e)[k])
            &&& sum_shaped(e)
        },
{
    law_tokens_spell_input(s);
    if let Ok(t) = spec_tokenize(s) {
        law_parse_then_print(t);
    }
}


/// The message of a calculator error.
pub open spec fn calc_error_text(e: CalcError) -> Seq<char> {
    match e {
        CalcError::UnexpectedChar(c) => "Unexpected char: "@.push(c),
        CalcError::InvalidNumber(_, _) => "invalid float literal"@,
        CalcError::UnexpectedEnd => "Unexpected end"@,
        CalcError::MissingParen => "Missing )"@,
        CalcError::UnexpectedToken(i) => "Unexpected token at "@ + crate::code_sandbox::decimal(
            i as nat,
        ),
        CalcError::TrailingTokens => "Unexpected tokens after expression"@,
        CalcError::DivisionByZero => "Division by zero"@,
    }
}

impl CalcError {
    /// The error's message.
    pub fn message(&self) -> (s: String)
        ensures
            s@ == calc_error_text(*self),
    {
        match self {
            CalcError::UnexpectedChar(c) => {
                let mut s = crate::text::owned("Unexpected char: ");
                crate::text::push_char(&mut s, *c);
                s
            },
            CalcError::InvalidNumber(_, _) => crate::text::owned("invalid float literal"),
            CalcError::UnexpectedEnd => crate::text::owned("Unexpected end"),
            CalcError::MissingParen => crate::text::owned("Missing )"),
            CalcError::UnexpectedToken(i) => {
                let digits = crate::code_sandbox::decimal_text(*i as u64);
                crate::text::concat("Unexpected token at ", digits.as_str())
            },
            CalcError::TrailingTokens => crate::text::owned("Unexpected tokens after expression"),
            CalcError::DivisionByZero => crate::text::owned("Division by zero"),
        }
    }
}

} // verus!
