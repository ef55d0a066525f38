//! Which texts the calculator's tokenizer accepts: every text made of
//! spaces, tabs, newlines, operators, parentheses and runs of digits and
//! dots in which each run is a decimal number (a digit, at most one dot;
//! leading zeros allowed, as in `0.5` or `007`).

use vstd::prelude::*;
use crate::calculator::{count_dots, lemma_num_end_bounds, num_end, spec_tokenize, tokenize_from, valid_literal};

verus! {

/// An ASCII digit.
pub open spec fn ascii_digit(c: char) -> bool {
    '0' <= c && c <= '9'
}

/// A character that can stand in a number: a digit or a dot.
pub open spec fn number_char(c: char) -> bool {
    ascii_digit(c) || c == '.'
}

/// A character the calculator knows: number characters, blanks,
/// operators and parentheses.
pub open spec fn calc_char(c: char) -> bool {
    number_char(c) || c == ' ' || c == '\t' || c == '\n' || c == '+' || c == '-' || c == '*' || c
        == '/' || c == '(' || c == ')'
}

/// Positions `p` to `q` of `s` (both included) are number characters, so
/// they lie in one run.
pub open spec fn same_run(s: Seq<char>, p: int, q: int) -> bool {
    p <= q && forall|m: int| p <= m <= q ==> number_char(#[trigger] s[m])
}

/// Every run of number characters in `s` is a decimal number: no run holds
/// two dots, and a run with a dot also holds a digit.
pub open spec fn runs_are_numbers(s: Seq<char>) -> bool {
    &&& forall|p: int, q: int|
        0 <= p < q < s.len() && s[p] == '.' && s[q] == '.' ==> !#[trigger] same_run(s, p, q)
    &&& forall|p: int|
        0 <= p < s.len() && s[p] == '.' ==> exists|m: int|
            0 <= m < s.len() && ascii_digit(s[m]) && (#[trigger] same_run(s, p, m) || same_run(s, m, p))
}

proof fn lemma_one_dot(lit: Seq<char>)
    requires
        count_dots(lit) >= 1,
    ensures
        exists|p: int| 0 <= p < lit.len() && lit[p] == '.',
    decreases lit.len(),
{
    let d = lit.drop_last();
    if lit.last() == '.' {
        assert(lit[lit.len() - 1] == '.');
    } else {
        lemma_one_dot(d);
        let p = choose|p: int| 0 <= p < d.len() && d[p] == '.';
        assert(lit[p] == d[p]);
    }
}

proof fn lemma_two_dots(lit: Seq<char>)
    requires
        count_dots(lit) >= 2,
    ensures
        exists|p: int, q: int| 0 <= p < q < lit.len() && lit[p] == '.' && lit[q] == '.',
    decreases lit.len(),
{
    let d = lit.drop_last();
    if count_dots(d) >= 2 {
        lemma_two_dots(d);
        let (p, q) = choose|p: int, q: int| 0 <= p < q < d.len() && d[p] == '.' && d[q] == '.';
        assert(lit[p] == d[p] && lit[q] == d[q]);
    } else {
        assert(lit.last() == '.');
        lemma_one_dot(d);
        let p = choose|p: int| 0 <= p < d.len() && d[p] == '.';
        assert(lit[p] == d[p]);
        assert(lit[lit.len() - 1] == '.');
    }
}

proof fn lemma_num_end_past(s: Seq<char>, i: int, m: int)
    requires
        0 <= i <= m < s.len(),
        forall|k: int| i <= k <= m ==> number_char(#[trigger] s[k]),
    ensures
        num_end(s, i) > m,
    decreases m - i,
{
    assert(number_char(s[i]));
    assert(num_end(s, i) == num_end(s, i + 1));
    if i < m {
        lemma_num_end_past(s, i + 1, m);
    } else {
        lemma_num_end_bounds(s, i + 1);
    }
}

proof fn lemma_accepted_from(s: Seq<char>, i: int)
    requires
        0 <= i <= s.len(),
        forall|k: int| 0 <= k < s.len() ==> calc_char(#[trigger] s[k]),
        runs_are_numbers(s),
        i == 0 || i == s.len() || !number_char(s[i - 1]) || !number_char(s[i]),
    ensures
        tokenize_from(s, i) is Ok,
    decreases s.len() - i,
{
    if i < s.len() {
        let c = s[i];
        assert(calc_char(c));
        if !number_char(c) {
            lemma_accepted_from(s, i + 1);
        } else {
            lemma_num_end_bounds(s, i);
            let e = num_end(s, i);
            assert(e > i) by {
                lemma_num_end_past(s, i, i);
            }
            let lit = s.subrange(i, e);
            // a digit
            if ascii_digit(c) {
                assert(lit[0] == s[i]);
            } else {
                let m = choose|m: int|
                    0 <= m < s.len() && ascii_digit(s[m]) && (#[trigger] same_run(s, i, m) || same_run(s, m, i));
                if same_run(s, m, i) {
                    assert(m != i);
                    assert(number_char(s[i - 1]));
                } else {
                    lemma_num_end_past(s, i, m);
                    assert(lit[m - i] == s[m]);
                }
            }
            // at most one dot
            if count_dots(lit) >= 2 {
                lemma_two_dots(lit);
                let (p, q) = choose|p: int, q: int| 0 <= p < q < lit.len() && lit[p] == '.' && lit[q] == '.';
                assert(s[i + p] == '.' && s[i + q] == '.');
                assert(same_run(s, i + p, i + q));
            }
            assert(valid_literal(lit));
            lemma_accepted_from(s, e);
        }
    }
}

/// Every text made of blanks, operators, parentheses and runs of digits
/// and dots tokenizes, provided each run is a decimal number: it holds a
/// digit and at most one dot.  So `0.5`, `.5`, `5.` and `007` are numbers
/// to the calculator, and only a run such as `1.2.3` or `.` is refused.
pub proof fn law_decimal_runs_tokenize(s: Seq<char>)
    requires
        forall|k: int| 0 <= k < s.len() ==> calc_char(#[trigger] s[k]),
        runs_are_numbers(s),
    ensures
        spec_tokenize(s) is Ok,
{
    lemma_accepted_from(s, 0);
}

} // verus!
