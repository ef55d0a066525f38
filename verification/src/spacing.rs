//! Spaces between tokens do not matter to the parser: adding or removing a
//! space, tab or newline that does not split or join a number leaves the
//! outcome of tokenizing and parsing (`spec_parse_expression`) as it was, up
//! to where in the text the literals stand.

use vstd::prelude::*;
use crate::calculator::{
    after, calc_error_text, is_num_char, is_space, is_tok, lemma_num_end_bounds, num_end, single_tok,
    spec_atom, spec_parse_expression, spec_parse_tokens, spec_product, spec_product_tail, spec_sum,
    spec_sum_tail, spec_tokenize, tokenize_from, valid_literal, CalcError, Expr, SpecExpr, SpecParse,
    Tok,
};

verus! {

/// Two tokens, of the texts `s1` and `s2`, agree: the same operator or
/// parenthesis, or number literals with the same characters.
pub open spec fn tok_agree(s1: Seq<char>, k1: Tok, s2: Seq<char>, k2: Tok) -> bool {
    match (k1, k2) {
        (Tok::Num(a, b), Tok::Num(c, d)) => s1.subrange(a as int, b as int) == s2.subrange(
            c as int,
            d as int,
        ),
        (Tok::Num(_, _), _) => false,
        (_, Tok::Num(_, _)) => false,
        _ => k1 == k2,
    }
}

/// Two token sequences agree token by token.
pub open spec fn toks_agree(s1: Seq<char>, t1: Seq<Tok>, s2: Seq<char>, t2: Seq<Tok>) -> bool {
    t1.len() == t2.len() && forall|k: int| 0 <= k < t1.len() ==> tok_agree(s1, #[trigger] t1[k], s2, t2[k])
}

/// Two tokenizations agree: both succeed with agreeing tokens, or both fail
/// with the same message.
pub open spec fn tokenize_agree(
    s1: Seq<char>,
    r1: Result<Seq<Tok>, CalcError>,
    s2: Seq<char>,
    r2: Result<Seq<Tok>, CalcError>,
) -> bool {
    match (r1, r2) {
        (Ok(t1), Ok(t2)) => toks_agree(s1, t1, s2, t2),
        (Err(e1), Err(e2)) => calc_error_text(e1) == calc_error_text(e2),
        _ => false,
    }
}

proof fn lemma_cons_agree(s1: Seq<char>, k1: Tok, t1: Seq<Tok>, s2: Seq<char>, k2: Tok, t2: Seq<Tok>)
    requires
        tok_agree(s1, k1, s2, k2),
        toks_agree(s1, t1, s2, t2),
    ensures
        toks_agree(s1, seq![k1] + t1, s2, seq![k2] + t2),
{
    assert forall|k: int| 0 <= k < (seq![k1] + t1).len() implies tok_agree(
        s1,
        #[trigger] (seq![k1] + t1)[k],
        s2,
        (seq![k2] + t2)[k],
    ) by {
        if k > 0 {
            assert((seq![k1] + t1)[k] == t1[k - 1]);
            assert((seq![k2] + t2)[k] == t2[k - 1]);
        }
    }
}

/// Runs of number characters have the same length where two texts agree
/// from `j` and `k` on.
proof fn lemma_num_end_shift(x: Seq<char>, j: int, y: Seq<char>, k: int)
    requires
        0 <= j <= x.len(),
        0 <= k <= y.len(),
        x.subrange(j, x.len() as int) == y.subrange(k, y.len() as int),
    ensures
        num_end(x, j) - j == num_end(y, k) - k,
    decreases x.len() - j,
{
    assert(x.subrange(j, x.len() as int).len() == x.len() - j);
    assert(y.subrange(k, y.len() as int).len() == y.len() - k);
    assert(x.len() - j == y.len() - k);
    if j < x.len() {
        assert(x[j] == y[k]) by {
            assert(x.subrange(j, x.len() as int)[0] == x[j]);
            assert(y.subrange(k, y.len() as int)[0] == y[k]);
        }
        if is_num_char(x[j]) {
            assert(x.subrange(j + 1, x.len() as int) =~= y.subrange(k + 1, y.len() as int)) by {
                assert forall|q: int| 0 <= q < x.subrange(j + 1, x.len() as int).len() implies #[trigger] x.subrange(j + 1, x.len() as int)[q] == y.subrange(k + 1, y.len() as int)[q] by {
                    assert(x.subrange(j, x.len() as int)[q + 1] == y.subrange(k, y.len() as int)[q + 1]);
                    assert(x.subrange(j, x.len() as int)[q + 1] == x[j + 1 + q]);
                    assert(y.subrange(k, y.len() as int)[q + 1] == y[k + 1 + q]);
                }
            }
            lemma_num_end_shift(x, j + 1, y, k + 1);
        }
    }
}

/// Tokenizing two texts from positions where they agree to the end gives
/// agreeing results.
proof fn lemma_tokenize_suffix(x: Seq<char>, j: int, y: Seq<char>, k: int)
    requires
        0 <= j <= x.len(),
        0 <= k <= y.len(),
        x.len() <= usize::MAX,
        y.len() <= usize::MAX,
        x.subrange(j, x.len() as int) == y.subrange(k, y.len() as int),
    ensures
        tokenize_agree(x, tokenize_from(x, j), y, tokenize_from(y, k)),
    decreases x.len() - j,
{
    assert(x.subrange(j, x.len() as int).len() == x.len() - j);
    assert(y.subrange(k, y.len() as int).len() == y.len() - k);
    assert(x.len() - j == y.len() - k);
    if j < x.len() {
        let c = x[j];
        assert(c == y[k]) by {
            assert(x.subrange(j, x.len() as int)[0] == x[j]);
            assert(y.subrange(k, y.len() as int)[0] == y[k]);
        }
        assert(x.subrange(j + 1, x.len() as int) =~= y.subrange(k + 1, y.len() as int)) by {
            assert forall|q: int| 0 <= q < x.subrange(j + 1, x.len() as int).len() implies #[trigger] x.subrange(j + 1, x.len() as int)[q] == y.subrange(k + 1, y.len() as int)[q] by {
                assert(x.subrange(j, x.len() as int)[q + 1] == y.subrange(k, y.len() as int)[q + 1]);
                assert(x.subrange(j, x.len() as int)[q + 1] == x[j + 1 + q]);
                assert(y.subrange(k, y.len() as int)[q + 1] == y[k + 1 + q]);
            }
        }
        if is_space(c) {
            lemma_tokenize_suffix(x, j + 1, y, k + 1);
        } else if single_tok(c) is Some {
            lemma_tokenize_suffix(x, j + 1, y, k + 1);
            if let (Ok(r1), Ok(r2)) = (tokenize_from(x, j + 1), tokenize_from(y, k + 1)) {
                lemma_cons_agree(x, single_tok(c)->0, r1, y, single_tok(c)->0, r2);
            }
        } else if is_num_char(c) {
            lemma_num_end_bounds(x, j);
            lemma_num_end_bounds(y, k);
            lemma_num_end_shift(x, j, y, k);
            let e1 = num_end(x, j);
            let e2 = num_end(y, k);
            assert(x.subrange(j, e1) =~= y.subrange(k, e2)) by {
                assert forall|q: int| 0 <= q < e1 - j implies #[trigger] x.subrange(j, e1)[q] == y.subrange(
                    k,
                    e2,
                )[q] by {
                    assert(x.subrange(j, x.len() as int)[q] == y.subrange(k, y.len() as int)[q]);
                }
            }
            if valid_literal(x.subrange(j, e1)) && j < e1 {
                assert(x.subrange(e1, x.len() as int) =~= y.subrange(e2, y.len() as int)) by {
                    assert forall|q: int| 0 <= q < x.subrange(e1, x.len() as int).len() implies #[trigger] x.subrange(e1, x.len() as int)[q] == y.subrange(e2, y.len() as int)[q] by {
                        assert(x.subrange(j, x.len() as int)[e1 - j + q] == y.subrange(k, y.len() as int)[e2 - k + q]);
                    }
                }
                lemma_tokenize_suffix(x, e1, y, e2);
                if let (Ok(r1), Ok(r2)) = (tokenize_from(x, e1), tokenize_from(y, e2)) {
                    lemma_cons_agree(
                        x,
                        Tok::Num(j as usize, e1 as usize),
                        r1,
                        y,
                        Tok::Num(k as usize, e2 as usize),
                        r2,
                    );
                }
            }
        }
    }
}


/// The edit that the spacing law allows: one space, tab or newline `w`
/// between `a` and `b`, not between two number characters.
pub open spec fn harmless_space(a: Seq<char>, w: char, b: Seq<char>) -> bool {
    &&& is_space(w)
    &&& !(a.len() > 0 && b.len() > 0 && is_num_char(a.last()) && is_num_char(b[0]))
}

proof fn lemma_num_end_edit(a: Seq<char>, w: char, b: Seq<char>, i: int)
    requires
        harmless_space(a, w, b),
        0 <= i < a.len(),
    ensures
        num_end(a + seq![w] + b, i) == num_end(a + b, i),
        num_end(a + b, i) <= a.len(),
    decreases a.len() - i,
{
    let s1 = a + seq![w] + b;
    let s2 = a + b;
    assert(s1[i] == a[i] && s2[i] == a[i]);
    if is_num_char(a[i]) {
        assert(num_end(s1, i) == num_end(s1, i + 1));
        assert(num_end(s2, i) == num_end(s2, i + 1));
        if i + 1 < a.len() {
            lemma_num_end_edit(a, w, b, i + 1);
        } else {
            assert(s1[a.len() as int] == w);
            assert(!is_num_char(w));
            assert(num_end(s1, i + 1) == i + 1);
            if b.len() > 0 {
                assert(s2[a.len() as int] == b[0]);
                assert(a.last() == a[i]);
                assert(!is_num_char(b[0]));
            }
            assert(num_end(s2, i + 1) == i + 1);
        }
    } else {
        assert(num_end(s1, i) == i);
        assert(num_end(s2, i) == i);
    }
}

proof fn lemma_tokenize_edit(a: Seq<char>, w: char, b: Seq<char>, i: int)
    requires
        harmless_space(a, w, b),
        0 <= i <= a.len(),
        a.len() + 1 + b.len() <= usize::MAX,
    ensures
        tokenize_agree(
            a + seq![w] + b,
            tokenize_from(a + seq![w] + b, i),
            a + b,
            tokenize_from(a + b, i),
        ),
    decreases a.len() - i,
{
    let s1 = a + seq![w] + b;
    let s2 = a + b;
    if i == a.len() {
        assert(s1[i] == w);
        assert(s1.subrange(i + 1, s1.len() as int) =~= b);
        assert(s2.subrange(i, s2.len() as int) =~= b);
        lemma_tokenize_suffix(s1, i + 1, s2, i);
    } else {
        let c = a[i];
        assert(s1[i] == c && s2[i] == c);
        if is_space(c) {
            lemma_tokenize_edit(a, w, b, i + 1);
        } else if single_tok(c) is Some {
            lemma_tokenize_edit(a, w, b, i + 1);
            if let (Ok(r1), Ok(r2)) = (tokenize_from(s1, i + 1), tokenize_from(s2, i + 1)) {
                lemma_cons_agree(s1, single_tok(c)->0, r1, s2, single_tok(c)->0, r2);
            }
        } else if is_num_char(c) {
            lemma_num_end_edit(a, w, b, i);
            lemma_num_end_bounds(s1, i);
            let e = num_end(s1, i);
            assert(s1.subrange(i, e) =~= s2.subrange(i, e)) by {
                assert forall|q: int| 0 <= q < e - i implies #[trigger] s1.subrange(i, e)[q] == s2.subrange(
                    i,
                    e,
                )[q] by {
                    assert(s1[i + q] == a[i + q]);
                    assert(s2[i + q] == a[i + q]);
                }
            }
            if valid_literal(s1.subrange(i, e)) && i < e {
                lemma_tokenize_edit(a, w, b, e);
                if let (Ok(r1), Ok(r2)) = (tokenize_from(s1, e), tokenize_from(s2, e)) {
                    lemma_cons_agree(
                        s1,
                        Tok::Num(i as usize, e as usize),
                        r1,
                        s2,
                        Tok::Num(i as usize, e as usize),
                        r2,
                    );
                }
            }
        }
    }
}

/// Two trees, over the texts `s1` and `s2`, agree: the same shape, with
/// number literals of the same characters.
pub open spec fn expr_agree(s1: Seq<char>, e1: Expr, s2: Seq<char>, e2: Expr) -> bool
    decreases e1,
{
    match e1 {
        Expr::Num(a, b) => match e2 {
            Expr::Num(c, d) => s1.subrange(a as int, b as int) == s2.subrange(c as int, d as int),
            _ => false,
        },
        Expr::Neg(x) => match e2 {
            Expr::Neg(y) => expr_agree(s1, *x, s2, *y),
            _ => false,
        },
        Expr::Paren(x) => match e2 {
            Expr::Paren(y) => expr_agree(s1, *x, s2, *y),
            _ => false,
        },
        Expr::Add(x, y) => match e2 {
            Expr::Add(u, v) => expr_agree(s1, *x, s2, *u) && expr_agree(s1, *y, s2, *v),
            _ => false,
        },
        Expr::Sub(x, y) => match e2 {
            Expr::Sub(u, v) => expr_agree(s1, *x, s2, *u) && expr_agree(s1, *y, s2, *v),
            _ => false,
        },
        Expr::Mul(x, y) => match e2 {
            Expr::Mul(u, v) => expr_agree(s1, *x, s2, *u) && expr_agree(s1, *y, s2, *v),
            _ => false,
        },
        Expr::Div(x, y) => match e2 {
            Expr::Div(u, v) => expr_agree(s1, *x, s2, *u) && expr_agree(s1, *y, s2, *v),
            _ => false,
        },
    }
}

/// Two lists of trees agree tree by tree.
pub open spec fn exprs_agree(s1: Seq<char>, d1: Seq<Expr>, s2: Seq<char>, d2: Seq<Expr>) -> bool {
    d1.len() == d2.len() && forall|k: int| 0 <= k < d1.len() ==> expr_agree(s1, #[trigger] d1[k], s2, d2[k])
}

/// Two parser results agree: agreeing trees that end at the same token, or
/// the same error with agreeing operands complete before it.
pub open spec fn parse_agree(s1: Seq<char>, r1: SpecParse, s2: Seq<char>, r2: SpecParse) -> bool {
    match (r1, r2) {
        (Ok((e1, p1)), Ok((e2, p2))) => p1 == p2 && expr_agree(s1, e1, s2, e2),
        (Err((e1, d1)), Err((e2, d2))) => e1 == e2 && exprs_agree(s1, d1, s2, d2),
        _ => false,
    }
}

/// Two outcomes of the calculator's front end agree: agreeing trees, or
/// errors with the same message and agreeing operands complete before them.
pub open spec fn outcome_agree(s1: Seq<char>, r1: SpecExpr, s2: Seq<char>, r2: SpecExpr) -> bool {
    match (r1, r2) {
        (Ok(e1), Ok(e2)) => expr_agree(s1, e1, s2, e2),
        (Err((e1, d1)), Err((e2, d2))) => calc_error_text(e1) == calc_error_text(e2) && exprs_agree(
            s1,
            d1,
            s2,
            d2,
        ),
        _ => false,
    }
}

proof fn lemma_exprs_cons(s1: Seq<char>, l1: Expr, d1: Seq<Expr>, s2: Seq<char>, l2: Expr, d2: Seq<Expr>)
    requires
        expr_agree(s1, l1, s2, l2),
        exprs_agree(s1, d1, s2, d2),
    ensures
        exprs_agree(s1, seq![l1] + d1, s2, seq![l2] + d2),
{
    assert forall|k: int| 0 <= k < (seq![l1] + d1).len() implies expr_agree(
        s1,
        #[trigger] (seq![l1] + d1)[k],
        s2,
        (seq![l2] + d2)[k],
    ) by {
        if k > 0 {
            assert((seq![l1] + d1)[k] == d1[k - 1]);
            assert((seq![l2] + d2)[k] == d2[k - 1]);
        }
    }
}

proof fn lemma_after_agree(s1: Seq<char>, l1: Expr, r1: SpecParse, s2: Seq<char>, l2: Expr, r2: SpecParse)
    requires
        expr_agree(s1, l1, s2, l2),
        parse_agree(s1, r1, s2, r2),
        r1 is Err,
    ensures
        parse_agree(s1, after(l1, r1), s2, after(l2, r2)),
{
    if let (Err((e1, d1)), Err((e2, d2))) = (r1, r2) {
        lemma_exprs_cons(s1, l1, d1, s2, l2, d2);
    }
}

proof fn lemma_sum_agree(s1: Seq<char>, t1: Seq<Tok>, s2: Seq<char>, t2: Seq<Tok>, i: int)
    requires
        toks_agree(s1, t1, s2, t2),
    ensures
        parse_agree(s1, spec_sum(t1, i), s2, spec_sum(t2, i)),
    decreases t1.len() - i, 4int,
{
    lemma_product_agree(s1, t1, s2, t2, i);
    if let (Ok((l1, p)), Ok((l2, _))) = (spec_product(t1, i), spec_product(t2, i)) {
        if i < p <= t1.len() {
            lemma_sum_tail_agree(s1, t1, s2, t2, l1, l2, p);
        }
    }
}

proof fn lemma_sum_tail_agree(
    s1: Seq<char>,
    t1: Seq<Tok>,
    s2: Seq<char>,
    t2: Seq<Tok>,
    l1: Expr,
    l2: Expr,
    i: int,
)
    requires
        toks_agree(s1, t1, s2, t2),
        expr_agree(s1, l1, s2, l2),
    ensures
        parse_agree(s1, spec_sum_tail(t1, l1, i), s2, spec_sum_tail(t2, l2, i)),
    decreases t1.len() - i, 3int,
{
    if 0 <= i < t1.len() {
        assert(tok_agree(s1, t1[i], s2, t2[i]));
        if t1[i] == Tok::Plus || t1[i] == Tok::Minus {
            lemma_product_agree(s1, t1, s2, t2, i + 1);
            match (spec_product(t1, i + 1), spec_product(t2, i + 1)) {
                (Ok((r1, p)), Ok((r2, _))) => {
                    if i < p <= t1.len() {
                        let n1 = if t1[i] == Tok::Plus {
                            Expr::Add(Box::new(l1), Box::new(r1))
                        } else {
                            Expr::Sub(Box::new(l1), Box::new(r1))
                        };
                        let n2 = if t2[i] == Tok::Plus {
                            Expr::Add(Box::new(l2), Box::new(r2))
                        } else {
                            Expr::Sub(Box::new(l2), Box::new(r2))
                        };
                        assert(expr_agree(s1, n1, s2, n2));
                        lemma_sum_tail_agree(s1, t1, s2, t2, n1, n2, p);
                    }
                },
                _ => {
                    if spec_product(t1, i + 1) is Err {
                        lemma_after_agree(s1, l1, spec_product(t1, i + 1), s2, l2, spec_product(t2, i + 1));
                    }
                },
            }
        }
    }
}

proof fn lemma_product_agree(s1: Seq<char>, t1: Seq<Tok>, s2: Seq<char>, t2: Seq<Tok>, i: int)
    requires
        toks_agree(s1, t1, s2, t2),
    ensures
        parse_agree(s1, spec_product(t1, i), s2, spec_product(t2, i)),
    decreases t1.len() - i, 2int,
{
    lemma_atom_agree(s1, t1, s2, t2, i);
    if let (Ok((l1, p)), Ok((l2, _))) = (spec_atom(t1, i), spec_atom(t2, i)) {
        if i < p <= t1.len() {
            lemma_product_tail_agree(s1, t1, s2, t2, l1, l2, p);
        }
    }
}

proof fn lemma_product_tail_agree(
    s1: Seq<char>,
    t1: Seq<Tok>,
    s2: Seq<char>,
    t2: Seq<Tok>,
    l1: Expr,
    l2: Expr,
    i: int,
)
    requires
        toks_agree(s1, t1, s2, t2),
        expr_agree(s1, l1, s2, l2),
    ensures
        parse_agree(s1, spec_product_tail(t1, l1, i), s2, spec_product_tail(t2, l2, i)),
    decreases t1.len() - i, 1int,
{
    if 0 <= i < t1.len() {
        assert(tok_agree(s1, t1[i], s2, t2[i]));
        if t1[i] == Tok::Star || t1[i] == Tok::Slash {
            lemma_atom_agree(s1, t1, s2, t2, i + 1);
            match (spec_atom(t1, i + 1), spec_atom(t2, i + 1)) {
                (Ok((r1, p)), Ok((r2, _))) => {
                    if i < p <= t1.len() {
                        let n1 = if t1[i] == Tok::Star {
                            Expr::Mul(Box::new(l1), Box::new(r1))
                        } else {
                            Expr::Div(Box::new(l1), Box::new(r1))
                        };
                        let n2 = if t2[i] == Tok::Star {
                            Expr::Mul(Box::new(l2), Box::new(r2))
                        } else {
                            Expr::Div(Box::new(l2), Box::new(r2))
                        };
                        assert(expr_agree(s1, n1, s2, n2));
                        lemma_product_tail_agree(s1, t1, s2, t2, n1, n2, p);
                    }
                },
                _ => {
                    if spec_atom(t1, i + 1) is Err {
                        lemma_after_agree(s1, l1, spec_atom(t1, i + 1), s2, l2, spec_atom(t2, i + 1));
                    }
                },
            }
        }
    }
}

proof fn lemma_atom_agree(s1: Seq<char>, t1: Seq<Tok>, s2: Seq<char>, t2: Seq<Tok>, i: int)
    requires
        toks_agree(s1, t1, s2, t2),
    ensures
        parse_agree(s1, spec_atom(t1, i), s2, spec_atom(t2, i)),
    decreases t1.len() - i, 0int,
{
    if 0 <= i < t1.len() {
        assert(tok_agree(s1, t1[i], s2, t2[i]));
        match t1[i] {
            Tok::LParen => {
                lemma_sum_agree(s1, t1, s2, t2, i + 1);
                if let (Ok((r1, p)), Ok((r2, _))) = (spec_sum(t1, i + 1), spec_sum(t2, i + 1)) {
                    if 0 <= p < t1.len() {
                        assert(tok_agree(s1, t1[p], s2, t2[p]));
                    }
                    assert(is_tok(t1, p, Tok::RParen) == is_tok(t2, p, Tok::RParen));
                    lemma_exprs_cons(s1, r1, Seq::empty(), s2, r2, Seq::empty());
                    assert(seq![r1] + Seq::<Expr>::empty() =~= seq![r1]);
                    assert(seq![r2] + Seq::<Expr>::empty() =~= seq![r2]);
                }
            },
            Tok::Minus => {
                lemma_atom_agree(s1, t1, s2, t2, i + 1);
            },
            _ => {},
        }
    }
}

/// One space, tab or newline more or less, where it splits no number,
/// changes nothing of the parse outcome (`spec_parse_expression`) but where
/// the literals stand: both texts give trees of one shape with literals of
/// the same characters, or errors with the same message whose operands
/// complete before them agree too.
pub proof fn law_spacing_insensitive(a: Seq<char>, w: char, b: Seq<char>)
    requires
        harmless_space(a, w, b),
        a.len() + 1 + b.len() <= usize::MAX,
    ensures
        outcome_agree(
            a + seq![w] + b,
            spec_parse_expression(a + seq![w] + b),
            a + b,
            spec_parse_expression(a + b),
        ),
{
    let s1 = a + seq![w] + b;
    let s2 = a + b;
    lemma_tokenize_edit(a, w, b, 0);
    assert(spec_tokenize(s1) == tokenize_from(s1, 0));
    assert(spec_tokenize(s2) == tokenize_from(s2, 0));
    if let (Ok(t1), Ok(t2)) = (spec_tokenize(s1), spec_tokenize(s2)) {
        lemma_sum_agree(s1, t1, s2, t2, 0);
        if let (Ok((e1, p)), Ok((e2, _))) = (spec_sum(t1, 0), spec_sum(t2, 0)) {
            lemma_exprs_cons(s1, e1, Seq::empty(), s2, e2, Seq::empty());
            assert(seq![e1] + Seq::<Expr>::empty() =~= seq![e1]);
            assert(seq![e2] + Seq::<Expr>::empty() =~= seq![e2]);
        }
    } else {
        assert(exprs_agree(s1, Seq::empty(), s2, Seq::empty()));
    }
}

proof fn lemma_expr_agree_symmetric(s1: Seq<char>, e1: Expr, s2: Seq<char>, e2: Expr)
    requires
        expr_agree(s1, e1, s2, e2),
    ensures
        expr_agree(s2, e2, s1, e1),
    decreases e1,
{
    match (e1, e2) {
        (Expr::Neg(x), Expr::Neg(y)) => lemma_expr_agree_symmetric(s1, *x, s2, *y),
        (Expr::Paren(x), Expr::Paren(y)) => lemma_expr_agree_symmetric(s1, *x, s2, *y),
        (Expr::Add(x, y), Expr::Add(u, v)) | (Expr::Sub(x, y), Expr::Sub(u, v))
        | (Expr::Mul(x, y), Expr::Mul(u, v)) | (Expr::Div(x, y), Expr::Div(u, v)) => {
            lemma_expr_agree_symmetric(s1, *x, s2, *u);
            lemma_expr_agree_symmetric(s1, *y, s2, *v);
        },
        _ => {},
    }
}

proof fn lemma_expr_agree_transitive(
    s1: Seq<char>,
    e1: Expr,
    s2: Seq<char>,
    e2: Expr,
    s3: Seq<char>,
    e3: Expr,
)
    requires
        expr_agree(s1, e1, s2, e2),
        expr_agree(s2, e2, s3, e3),
    ensures
        expr_agree(s1, e1, s3, e3),
    decreases e1,
{
    match (e1, e2, e3) {
        (Expr::Neg(x), Expr::Neg(y), Expr::Neg(z)) => lemma_expr_agree_transitive(s1, *x, s2, *y, s3, *z),
        (Expr::Paren(x), Expr::Paren(y), Expr::Paren(z)) => lemma_expr_agree_transitive(
            s1,
            *x,
            s2,
            *y,
            s3,
            *z,
        ),
        (Expr::Add(x, y), Expr::Add(u, v), Expr::Add(m, n))
        | (Expr::Sub(x, y), Expr::Sub(u, v), Expr::Sub(m, n))
        | (Expr::Mul(x, y), Expr::Mul(u, v), Expr::Mul(m, n))
        | (Expr::Div(x, y), Expr::Div(u, v), Expr::Div(m, n)) => {
            lemma_expr_agree_transitive(s1, *x, s2, *u, s3, *m);
            lemma_expr_agree_transitive(s1, *y, s2, *v, s3, *n);
        },
        _ => {},
    }
}

proof fn lemma_outcome_agree_symmetric(s1: Seq<char>, r1: SpecExpr, s2: Seq<char>, r2: SpecExpr)
    requires
        outcome_agree(s1, r1, s2, r2),
    ensures
        outcome_agree(s2, r2, s1, r1),
{
    match (r1, r2) {
        (Ok(e1), Ok(e2)) => lemma_expr_agree_symmetric(s1, e1, s2, e2),
        (Err((_, d1)), Err((_, d2))) => {
            assert forall|k: int| 0 <= k < d2.len() implies expr_agree(s2, #[trigger] d2[k], s1, d1[k]) by {
                lemma_expr_agree_symmetric(s1, d1[k], s2, d2[k]);
            }
        },
        _ => {},
    }
}

proof fn lemma_outcome_agree_transitive(
    s1: Seq<char>,
    r1: SpecExpr,
    s2: Seq<char>,
    r2: SpecExpr,
    s3: Seq<char>,
    r3: SpecExpr,
)
    requires
        outcome_agree(s1, r1, s2, r2),
        outcome_agree(s2, r2, s3, r3),
    ensures
        outcome_agree(s1, r1, s3, r3),
{
    match (r1, r2, r3) {
        (Ok(e1), Ok(e2), Ok(e3)) => lemma_expr_agree_transitive(s1, e1, s2, e2, s3, e3),
        (Err((_, d1)), Err((_, d2)), Err((_, d3))) => {
            assert forall|k: int| 0 <= k < d1.len() implies expr_agree(s1, #[trigger] d1[k], s3, d3[k]) by {
                lemma_expr_agree_transitive(s1, d1[k], s2, d2[k], s3, d3[k]);
            }
        },
        _ => {},
    }
}

/// `y` is `x` with one space, tab or newline added or taken away, where it
/// splits no number.
pub open spec fn one_space_apart(x: Seq<char>, y: Seq<char>) -> bool {
    exists|a: Seq<char>, w: char, b: Seq<char>|
        #![trigger harmless_space(a, w, b)]
        harmless_space(a, w, b) && ((x == a + seq![w] + b && y == a + b) || (x == a + b && y == a + seq![w] + b))
}

/// Any number of such changes, one after another, change nothing of the
/// parse outcome but where the literals stand: the first and the last text
/// of the chain give agreeing outcomes.
pub proof fn law_respacing_insensitive(texts: Seq<Seq<char>>)
    requires
        texts.len() > 0,
        forall|k: int| 0 <= k < texts.len() ==> (#[trigger] texts[k]).len() <= usize::MAX,
        forall|k: int| 0 <= k < texts.len() - 1 ==> one_space_apart(#[trigger] texts[k], texts[k + 1]),
    ensures
        outcome_agree(
            texts[0],
            spec_parse_expression(texts[0]),
            texts.last(),
            spec_parse_expression(texts.last()),
        ),
    decreases texts.len(),
{
    let n = texts.len() - 1;
    if n == 0 {
        let s = texts[0];
        let r = spec_parse_expression(s);
        match r {
            Ok(e) => {
                lemma_expr_agree_reflexive(s, e);
            },
            Err((_, d)) => {
                assert forall|k: int| 0 <= k < d.len() implies expr_agree(s, #[trigger] d[k], s, d[k]) by {
                    lemma_expr_agree_reflexive(s, d[k]);
                }
            },
        }
    } else {
        let front = texts.drop_last();
        assert forall|k: int| 0 <= k < front.len() - 1 implies one_space_apart(#[trigger] front[k], front[k + 1]) by {
            assert(front[k] == texts[k] && front[k + 1] == texts[k + 1]);
        }
        assert forall|k: int| 0 <= k < front.len() implies (#[trigger] front[k]).len() <= usize::MAX by {
            assert(front[k] == texts[k]);
        }
        law_respacing_insensitive(front);
        let x = texts[n - 1];
        let y = texts[n];
        assert(one_space_apart(texts[n - 1], texts[n - 1 + 1]));
        let (a, w, b) = choose|a: Seq<char>, w: char, b: Seq<char>|
            harmless_space(a, w, b) && ((x == a + seq![w] + b && y == a + b) || (x == a + b && y == a + seq![w] + b));
        assert((a + seq![w] + b).len() == a.len() + 1 + b.len());
        law_spacing_insensitive(a, w, b);
        let s1 = a + seq![w] + b;
        let s2 = a + b;
        if !(x == s1 && y == s2) {
            lemma_outcome_agree_symmetric(s1, spec_parse_expression(s1), s2, spec_parse_expression(s2));
        }
        lemma_outcome_agree_transitive(
            texts[0],
            spec_parse_expression(texts[0]),
            x,
            spec_parse_expression(x),
            y,
            spec_parse_expression(y),
        );
    }
}

proof fn lemma_expr_agree_reflexive(s: Seq<char>, e: Expr)
    ensures
        expr_agree(s, e, s, e),
    decreases e,
{
    match e {
        Expr::Neg(x) => lemma_expr_agree_reflexive(s, *x),
        Expr::Paren(x) => lemma_expr_agree_reflexive(s, *x),
        Expr::Add(x, y) | Expr::Sub(x, y) | Expr::Mul(x, y) | Expr::Div(x, y) => {
            lemma_expr_agree_reflexive(s, *x);
            lemma_expr_agree_reflexive(s, *y);
        },
        _ => {},
    }
}

} // verus!
