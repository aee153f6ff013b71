//! What becomes of the tokens of a text when something behind them, or one of
//! them, is replaced: the tokens that the new text is cut into.

use vstd::prelude::*;

use crate::sql_lexer;
use crate::sql_lexer::TokenKind;

verus! {

pub(crate) proof fn lemma_line_end_shift(s: Seq<char>, k: int, i: int)
    requires
        0 <= k <= i <= s.len(),
    ensures
        sql_lexer::line_end(s, i) == k + sql_lexer::line_end(s.skip(k), i - k),
    decreases s.len() - i,
{
    if i < s.len() && s[i] != '\n' {
        lemma_line_end_shift(s, k, i + 1);
    }
}

pub(crate) proof fn lemma_comment_end_shift(s: Seq<char>, k: int, i: int)
    requires
        0 <= k <= i <= s.len(),
    ensures
        sql_lexer::comment_end(s, i) == k + sql_lexer::comment_end(s.skip(k), i - k),
    decreases s.len() - i,
{
    if i + 1 < s.len() && !(s[i] == '*' && s[i + 1] == '/') {
        lemma_comment_end_shift(s, k, i + 1);
    }
}

proof fn lemma_word_end_shift(s: Seq<char>, k: int, i: int)
    requires
        0 <= k <= i <= s.len(),
    ensures
        sql_lexer::word_end(s, i) == k + sql_lexer::word_end(s.skip(k), i - k),
    decreases s.len() - i,
{
    if i < s.len() && sql_lexer::is_word_char(s[i]) {
        lemma_word_end_shift(s, k, i + 1);
    }
}

proof fn lemma_digits_end_shift(s: Seq<char>, k: int, i: int)
    requires
        0 <= k <= i <= s.len(),
    ensures
        sql_lexer::digits_end(s, i) == k + sql_lexer::digits_end(s.skip(k), i - k),
    decreases s.len() - i,
{
    if i < s.len() && '0' <= s[i] <= '9' {
        lemma_digits_end_shift(s, k, i + 1);
    }
}

proof fn lemma_quote_end_shift(s: Seq<char>, k: int, i: int, close: char)
    requires
        0 <= k <= i <= s.len(),
    ensures
        sql_lexer::quote_end(s, i, close) == k + sql_lexer::quote_end(s.skip(k), i - k, close),
    decreases s.len() - i,
{
    if i < s.len() {
        if s[i] != close {
            lemma_quote_end_shift(s, k, i + 1, close);
        } else if close != ']' && i + 1 < s.len() && s[i + 1] == close {
            lemma_quote_end_shift(s, k, i + 2, close);
        }
    }
}

pub(crate) proof fn lemma_lead_end_shift(s: Seq<char>, k: int, i: int)
    requires
        0 <= k <= i <= s.len(),
    ensures
        sql_lexer::lead_end(s, i) == k + sql_lexer::lead_end(s.skip(k), i - k),
    decreases s.len() - i,
{
    let r = s.skip(k);
    if i < s.len() {
        if sql_lexer::is_space(s[i]) {
            lemma_lead_end_shift(s, k, i + 1);
        } else if sql_lexer::pair_at(s, i, '-', '-') {
            assert(sql_lexer::pair_at(r, i - k, '-', '-'));
            sql_lexer::lemma_line_end(s, i + 2);
            lemma_line_end_shift(s, k, i + 2);
            lemma_lead_end_shift(s, k, sql_lexer::line_end(s, i + 2));
        } else if sql_lexer::pair_at(s, i, '/', '*') {
            assert(sql_lexer::pair_at(r, i - k, '/', '*'));
            sql_lexer::lemma_comment_end(s, i + 2);
            lemma_comment_end_shift(s, k, i + 2);
            lemma_lead_end_shift(s, k, sql_lexer::comment_end(s, i + 2));
        }
    }
}

pub(crate) proof fn lemma_token_end_shift(s: Seq<char>, k: int, i: int)
    requires
        0 <= k <= i < s.len(),
    ensures
        sql_lexer::token_end(s, i) == k + sql_lexer::token_end(s.skip(k), i - k),
{
    lemma_word_end_shift(s, k, i + 1);
    lemma_digits_end_shift(s, k, i + 1);
    lemma_quote_end_shift(s, k, i + 1, sql_lexer::closing_quote(s[i]));
}

/// The tokens of a text from a place on are those of what stands there.
pub(crate) proof fn lemma_lex_shift(s: Seq<char>, k: int, i: int)
    requires
        0 <= k <= i <= s.len(),
    ensures
        sql_lexer::lex_from(s, i) == sql_lexer::lex_from(s.skip(k), i - k),
        sql_lexer::tail_from(s, i) == k + sql_lexer::tail_from(s.skip(k), i - k),
    decreases s.len() - i,
{
    let r = s.skip(k);
    sql_lexer::lemma_lead_end(s, i);
    lemma_lead_end_shift(s, k, i);
    let from = sql_lexer::lead_end(s, i);
    if i < s.len() && from < s.len() {
        sql_lexer::lemma_token_end(s, from);
        lemma_token_end_shift(s, k, from);
        let to = sql_lexer::token_end(s, from);
        lemma_lex_shift(s, k, to);
        assert(s.subrange(i, from) =~= r.subrange(i - k, from - k));
        assert(s.subrange(from, to) =~= r.subrange(from - k, to - k));
    }
}

/// The text starts with a token: neither with white space nor with a comment.
pub open spec fn starts_token(x: Seq<char>) -> bool {
    &&& x.len() > 0
    &&& !sql_lexer::is_space(x[0])
    &&& !sql_lexer::pair_at(x, 0, '-', '-')
    &&& !sql_lexer::pair_at(x, 0, '/', '*')
}

/// The first token of a text, with what stands before it, and the rest of it.
pub(crate) proof fn lemma_first_token(s: Seq<char>) -> (rest: Seq<char>)
    requires
        sql_lexer::lex(s).len() > 0,
    ensures
        ({
            let t = sql_lexer::lex(s)[0];
            &&& s == t.lead + t.text + rest
            &&& sql_lexer::lex(s) == seq![t] + sql_lexer::lex(rest)
            &&& sql_lexer::tail(s) == sql_lexer::tail(rest)
            &&& sql_lexer::lead_end(s, 0) == t.lead.len()
            &&& t.text.len() > 0
            &&& t.kind == sql_lexer::kind_of(t.text[0])
            &&& starts_token(t.text + rest)
            &&& sql_lexer::token_end(t.text + rest, 0) == t.text.len()
        }),
{
    let t = sql_lexer::lex(s)[0];
    let from = sql_lexer::lead_end(s, 0);
    sql_lexer::lemma_lead_end(s, 0);
    sql_lexer::lemma_token_end(s, from);
    let to = sql_lexer::token_end(s, from);
    let rest = s.skip(to);
    lemma_lex_shift(s, to, to);
    assert(sql_lexer::lex_from(s, 0) =~= seq![t] + sql_lexer::lex_from(s, to));
    assert(s =~= t.lead + t.text + rest);
    sql_lexer::lemma_tail_from(s, to);
    assert(s.skip(sql_lexer::tail_from(s, 0)) =~= rest.skip(sql_lexer::tail_from(rest, 0)));
    assert(t.text + rest =~= s.skip(from));
    lemma_token_end_shift(s, from, from);
    lemma_lead_stops(s, 0);
    rest
}

/// White space and comments end before a token.
proof fn lemma_lead_stops(s: Seq<char>, i: int)
    requires
        0 <= i <= s.len(),
        sql_lexer::lead_end(s, i) < s.len(),
    ensures
        starts_token(s.skip(sql_lexer::lead_end(s, i))),
    decreases s.len() - i,
{
    if i < s.len() {
        if sql_lexer::is_space(s[i]) {
            lemma_lead_stops(s, i + 1);
        } else if sql_lexer::pair_at(s, i, '-', '-') {
            sql_lexer::lemma_line_end(s, i + 2);
            lemma_lead_stops(s, sql_lexer::line_end(s, i + 2));
        } else if sql_lexer::pair_at(s, i, '/', '*') {
            sql_lexer::lemma_comment_end(s, i + 2);
            lemma_lead_stops(s, sql_lexer::comment_end(s, i + 2));
        }
    }
}

proof fn lemma_line_end_inside(l: Seq<char>, x: Seq<char>, y: Seq<char>, i: int)
    requires
        0 <= i <= l.len(),
        x.len() > 0,
        sql_lexer::line_end(l + x, i) <= l.len(),
    ensures
        sql_lexer::line_end(l + y, i) == sql_lexer::line_end(l + x, i),
    decreases l.len() - i,
{
    if i == l.len() {
        sql_lexer::lemma_line_end(l + x, i);
        if (l + x)[i] != '\n' {
            sql_lexer::lemma_line_end(l + x, i + 1);
        }
    } else if l[i] != '\n' {
        lemma_line_end_inside(l, x, y, i + 1);
    }
}

proof fn lemma_comment_end_inside(l: Seq<char>, x: Seq<char>, y: Seq<char>, i: int)
    requires
        0 <= i <= l.len(),
        x.len() > 0,
        y.len() > 0,
        sql_lexer::comment_end(l + x, i) <= l.len(),
    ensures
        sql_lexer::comment_end(l + y, i) == sql_lexer::comment_end(l + x, i),
    decreases l.len() - i,
{
    let a = l + x;
    if i == l.len() {
        if i + 1 < a.len() && !(a[i] == '*' && a[i + 1] == '/') {
            sql_lexer::lemma_comment_end(a, i + 1);
        }
    } else if i + 1 < l.len() {
        assert(a[i] == l[i] && a[i + 1] == l[i + 1]);
        assert((l + y)[i] == l[i] && (l + y)[i + 1] == l[i + 1]);
        if !(l[i] == '*' && l[i + 1] == '/') {
            lemma_comment_end_inside(l, x, y, i + 1);
        }
    } else {
        if !(a[i] == '*' && a[i + 1] == '/') {
            lemma_comment_end_inside(l, x, y, i + 1);
            assert(false) by {
                if i + 2 < a.len() && !(a[i + 1] == '*' && a[i + 2] == '/') {
                    sql_lexer::lemma_comment_end(a, i + 2);
                }
            }
        }
    }
}

/// What stands before a token stands there before any other.
pub(crate) proof fn lemma_lead_holds(l: Seq<char>, x: Seq<char>, y: Seq<char>, i: int)
    requires
        0 <= i <= l.len(),
        x.len() > 0,
        sql_lexer::lead_end(l + x, i) == l.len(),
        starts_token(y),
    ensures
        sql_lexer::lead_end(l + y, i) == l.len(),
    decreases l.len() - i,
{
    let a = l + x;
    let b = l + y;
    if i == l.len() {
        assert(b[i] == y[0]);
        assert(!sql_lexer::pair_at(b, i, '-', '-')) by {
            if sql_lexer::pair_at(b, i, '-', '-') {
                assert(b[i + 1] == y[1]);
            }
        }
        assert(!sql_lexer::pair_at(b, i, '/', '*')) by {
            if sql_lexer::pair_at(b, i, '/', '*') {
                assert(b[i + 1] == y[1]);
            }
        }
    } else {
        assert(a[i] == l[i] && b[i] == l[i]);
        if sql_lexer::is_space(l[i]) {
            lemma_lead_holds(l, x, y, i + 1);
        } else if sql_lexer::pair_at(a, i, '-', '-') {
            sql_lexer::lemma_line_end(a, i + 2);
            sql_lexer::lemma_lead_end(a, sql_lexer::line_end(a, i + 2));
            assert(i + 1 < l.len());
            assert(a[i + 1] == l[i + 1] && b[i + 1] == l[i + 1]);
            lemma_line_end_inside(l, x, y, i + 2);
            lemma_lead_holds(l, x, y, sql_lexer::line_end(a, i + 2));
        } else if sql_lexer::pair_at(a, i, '/', '*') {
            sql_lexer::lemma_comment_end(a, i + 2);
            sql_lexer::lemma_lead_end(a, sql_lexer::comment_end(a, i + 2));
            assert(i + 1 < l.len());
            assert(a[i + 1] == l[i + 1] && b[i + 1] == l[i + 1]);
            lemma_comment_end_inside(l, x, y, i + 2);
            lemma_lead_holds(l, x, y, sql_lexer::comment_end(a, i + 2));
        }
    }
}

pub open spec fn is_letter(c: char) -> bool {
    'a' <= c <= 'z' || 'A' <= c <= 'Z'
}

/// Both texts are over, or both go on with the same character, or with a letter
/// each.
pub open spec fn starts_alike(x: Seq<char>, y: Seq<char>) -> bool {
    &&& x.len() == 0 <==> y.len() == 0
    &&& x.len() > 0 ==> x[0] == y[0] || is_letter(x[0]) && is_letter(y[0])
}

proof fn lemma_word_end_holds(t: Seq<char>, x: Seq<char>, y: Seq<char>, i: int)
    requires
        0 <= i <= t.len(),
        sql_lexer::word_end(t + x, i) == t.len(),
        y.len() == 0 || !sql_lexer::is_word_char(y[0]),
    ensures
        sql_lexer::word_end(t + y, i) == t.len(),
    decreases t.len() - i,
{
    if i < t.len() {
        assert((t + x)[i] == t[i] && (t + y)[i] == t[i]);
        if sql_lexer::is_word_char(t[i]) {
            lemma_word_end_holds(t, x, y, i + 1);
        }
    } else if y.len() > 0 {
        assert((t + y)[i] == y[0]);
    }
}

proof fn lemma_word_end_stops(t: Seq<char>, x: Seq<char>, i: int)
    requires
        0 <= i <= t.len(),
        x.len() > 0,
        sql_lexer::word_end(t + x, i) == t.len(),
    ensures
        !sql_lexer::is_word_char(x[0]),
    decreases t.len() - i,
{
    if i < t.len() {
        assert((t + x)[i] == t[i]);
        if sql_lexer::is_word_char(t[i]) {
            lemma_word_end_stops(t, x, i + 1);
        }
    } else {
        assert((t + x)[i] == x[0]);
        if sql_lexer::is_word_char(x[0]) {
            sql_lexer::lemma_word_end(t + x, i + 1);
        }
    }
}

proof fn lemma_digits_end_holds(t: Seq<char>, x: Seq<char>, y: Seq<char>, i: int)
    requires
        0 <= i <= t.len(),
        sql_lexer::digits_end(t + x, i) == t.len(),
        starts_alike(x, y),
    ensures
        sql_lexer::digits_end(t + y, i) == t.len(),
    decreases t.len() - i,
{
    if i < t.len() {
        assert((t + x)[i] == t[i] && (t + y)[i] == t[i]);
        if '0' <= t[i] <= '9' {
            lemma_digits_end_holds(t, x, y, i + 1);
        }
    } else if x.len() > 0 {
        assert((t + x)[i] == x[0] && (t + y)[i] == y[0]);
        if '0' <= x[0] <= '9' {
            sql_lexer::lemma_digits_end(t + x, i + 1);
        }
    }
}

proof fn lemma_quote_end_holds(t: Seq<char>, x: Seq<char>, y: Seq<char>, i: int, close: char)
    requires
        0 <= i <= t.len(),
        sql_lexer::quote_end(t + x, i, close) == t.len(),
        starts_alike(x, y),
        !is_letter(close),
    ensures
        sql_lexer::quote_end(t + y, i, close) == t.len(),
    decreases t.len() - i,
{
    let a = t + x;
    let b = t + y;
    if i < t.len() {
        assert(a[i] == t[i] && b[i] == t[i]);
        if t[i] != close {
            lemma_quote_end_holds(t, x, y, i + 1, close);
        } else {
            if i + 1 < t.len() {
                assert(a[i + 1] == t[i + 1] && b[i + 1] == t[i + 1]);
            } else if x.len() > 0 {
                assert(a[i + 1] == x[0] && b[i + 1] == y[0]);
            }
            if close != ']' && i + 1 < a.len() && a[i + 1] == close {
                sql_lexer::lemma_quote_end(a, i + 2, close);
                lemma_quote_end_holds(t, x, y, i + 2, close);
            }
        }
    } else if x.len() > 0 {
        sql_lexer::lemma_quote_end(a, i + 1, close);
        if i + 1 < a.len() && a[i + 1] == close {
            sql_lexer::lemma_quote_end(a, i + 2, close);
        }
    }
}

/// A token ends where it ended, whatever follows, as long as that starts alike.
pub(crate) proof fn lemma_token_holds(t: Seq<char>, x: Seq<char>, y: Seq<char>)
    requires
        t.len() > 0,
        starts_token(t + x),
        sql_lexer::token_end(t + x, 0) == t.len(),
        starts_alike(x, y),
    ensures
        starts_token(t + y),
        sql_lexer::token_end(t + y, 0) == t.len(),
{
    assert((t + x)[0] == t[0] && (t + y)[0] == t[0]);
    if t.len() > 1 {
        assert((t + x)[1] == t[1] && (t + y)[1] == t[1]);
    } else if x.len() > 0 {
        assert((t + x)[1] == x[0] && (t + y)[1] == y[0]);
    }
    match sql_lexer::kind_of(t[0]) {
        TokenKind::Quoted => {
            lemma_quote_end_holds(t, x, y, 1, sql_lexer::closing_quote(t[0]));
        },
        TokenKind::Word => {
            if t[0] == '?' {
                lemma_digits_end_holds(t, x, y, 1);
            } else {
                if x.len() > 0 {
                    lemma_word_end_stops(t, x, 1);
                }
                lemma_word_end_holds(t, x, y, 1);
            }
        },
        TokenKind::Symbol => {},
    }
}

/// A word ends where it ended, whatever follows, as long as that is no more of
/// a word; and nothing that followed it was.
pub(crate) proof fn lemma_word_holds(t: Seq<char>, x: Seq<char>, y: Seq<char>)
    requires
        t.len() > 0,
        is_letter(t[0]),
        sql_lexer::token_end(t + x, 0) == t.len(),
    ensures
        x.len() > 0 ==> !sql_lexer::is_word_char(x[0]),
        y.len() == 0 || !sql_lexer::is_word_char(y[0]) ==> {
            &&& starts_token(t + y)
            &&& sql_lexer::token_end(t + y, 0) == t.len()
        },
{
    assert((t + x)[0] == t[0] && (t + y)[0] == t[0]);
    if x.len() > 0 {
        lemma_word_end_stops(t, x, 1);
    }
    if y.len() == 0 || !sql_lexer::is_word_char(y[0]) {
        lemma_word_end_holds(t, x, y, 1);
    }
}

proof fn lemma_letters_end(t: Seq<char>, y: Seq<char>, i: int)
    requires
        0 <= i <= t.len(),
        forall|k: int| 0 <= k < t.len() ==> is_letter(#[trigger] t[k]),
        y.len() == 0 || !sql_lexer::is_word_char(y[0]),
    ensures
        sql_lexer::word_end(t + y, i) == t.len(),
    decreases t.len() - i,
{
    if i < t.len() {
        assert((t + y)[i] == t[i]);
        lemma_letters_end(t, y, i + 1);
    } else if y.len() > 0 {
        assert((t + y)[i] == y[0]);
    }
}

/// Letters are a word, as long as what follows is no more of it.
pub(crate) proof fn lemma_letters_are_a_word(t: Seq<char>, y: Seq<char>)
    requires
        t.len() > 0,
        forall|k: int| 0 <= k < t.len() ==> is_letter(#[trigger] t[k]),
        y.len() == 0 || !sql_lexer::is_word_char(y[0]),
    ensures
        starts_token(t + y),
        sql_lexer::token_end(t + y, 0) == t.len(),
        sql_lexer::kind_of(t[0]) == TokenKind::Word,
{
    assert((t + y)[0] == t[0]);
    assert(is_letter(t[0]));
    lemma_letters_end(t, y, 1);
}

/// A token that stands before a text is the first of the tokens, and the others
/// are those of the text.
#[verifier::rlimit(40)]
pub(crate) proof fn lemma_token_before(l: Seq<char>, t: Seq<char>, rest: Seq<char>)
    requires
        t.len() > 0,
        sql_lexer::lead_end(l + (t + rest), 0) == l.len(),
        sql_lexer::token_end(t + rest, 0) == t.len(),
    ensures
        sql_lexer::lex(l + t + rest) == seq![
            (sql_lexer::Tok { kind: sql_lexer::kind_of(t[0]), lead: l, text: t }),
        ] + sql_lexer::lex(rest),
        sql_lexer::tail(l + t + rest) == sql_lexer::tail(rest),
{
    let s = l + t + rest;
    let from = l.len() as int;
    let to = from + t.len();
    assert(l + (t + rest) =~= s);
    assert(sql_lexer::token_end(s, from) == to) by {
        assert(s.skip(from) =~= t + rest);
        lemma_token_end_shift(s, from, from);
    }
    let first = sql_lexer::Tok { kind: sql_lexer::kind_of(t[0]), lead: l, text: t };
    assert(sql_lexer::first_token(s, 0) == first) by {
        assert(s[from] == t[0]);
        assert(s.subrange(0, from) =~= l);
        assert(s.subrange(from, to) =~= t);
    }
    assert(s.skip(to) =~= rest);
    assert(sql_lexer::lex_from(s, to) == sql_lexer::lex(rest) && sql_lexer::tail_from(s, to) == to
        + sql_lexer::tail_from(rest, 0)) by {
        lemma_lex_shift(s, to, to);
    }
    assert(sql_lexer::lex_from(s, 0) == seq![first] + sql_lexer::lex_from(s, to));
    assert(sql_lexer::tail_from(s, 0) == sql_lexer::tail_from(s, to));
    sql_lexer::lemma_tail_from(rest, 0);
    assert(s.skip(sql_lexer::tail_from(s, 0)) =~= rest.skip(sql_lexer::tail_from(rest, 0)));
}

/// The tokens of a text from the one at `i` on, written out again with what
/// stands behind the last, are cut into the same tokens.
pub(crate) proof fn lemma_lex_suffix(s: Seq<char>, i: int)
    requires
        0 <= i <= sql_lexer::lex(s).len(),
    ensures
        ({
            let r = sql_lexer::rendered(sql_lexer::lex(s), i) + sql_lexer::tail(s);
            sql_lexer::lex(r) == sql_lexer::lex(s).skip(i) && sql_lexer::tail(r) == sql_lexer::tail(s)
        }),
    decreases i,
{
    let ts = sql_lexer::lex(s);
    let r = sql_lexer::rendered(ts, i) + sql_lexer::tail(s);
    if i == 0 {
        sql_lexer::law_lexing_loses_nothing(s);
        assert(ts.skip(0) =~= ts);
    } else {
        lemma_lex_suffix(s, i - 1);
        let before = sql_lexer::rendered(ts, i - 1) + sql_lexer::tail(s);
        assert(ts.skip(i - 1)[0] == ts[i - 1]);
        let rest = lemma_first_token(before);
        let t = ts[i - 1];
        assert(before =~= t.lead + t.text + r);
        assert((t.lead + t.text + r).skip((t.lead + t.text).len() as int) =~= r);
        assert((t.lead + t.text + rest).skip((t.lead + t.text).len() as int) =~= rest);
        assert(rest == r);
        let all = seq![t] + sql_lexer::lex(r);
        assert(all.skip(1) =~= sql_lexer::lex(r));
        assert(ts.skip(i - 1).skip(1) =~= ts.skip(i));
    }
}

/// A text from the token at `i` on, as that token and what follows it.
pub(crate) proof fn lemma_token_at(s: Seq<char>, i: int)
    requires
        0 <= i < sql_lexer::lex(s).len(),
    ensures
        ({
            let ts = sql_lexer::lex(s);
            let t = ts[i];
            let rest = sql_lexer::rendered(ts, i + 1) + sql_lexer::tail(s);
            &&& sql_lexer::rendered(ts, i) + sql_lexer::tail(s) == t.lead + t.text + rest
            &&& t.kind == sql_lexer::kind_of(t.text[0])
            &&& token_stands(t.lead, t.text, rest)
        }),
{
    let ts = sql_lexer::lex(s);
    let t = ts[i];
    lemma_lex_suffix(s, i);
    let r = sql_lexer::rendered(ts, i) + sql_lexer::tail(s);
    assert(ts.skip(i)[0] == t);
    let rest = lemma_first_token(r);
    let after = sql_lexer::rendered(ts, i + 1) + sql_lexer::tail(s);
    assert(r =~= t.lead + t.text + after);
    assert((t.lead + t.text + after).skip((t.lead + t.text).len() as int) =~= after);
    assert((t.lead + t.text + rest).skip((t.lead + t.text).len() as int) =~= rest);
    assert(t.lead + (t.text + rest) =~= r);
}

/// The text starts with the token `t`, behind `l`.
pub open spec fn token_stands(l: Seq<char>, t: Seq<char>, rest: Seq<char>) -> bool {
    &&& t.len() > 0
    &&& sql_lexer::lead_end(l + (t + rest), 0) == l.len()
    &&& starts_token(t + rest)
    &&& sql_lexer::token_end(t + rest, 0) == t.len()
}

/// The text is cut into the token `t` behind `l`, and the tokens of the rest.
pub open spec fn is_cut_into(
    s: Seq<char>,
    l: Seq<char>,
    t: Seq<char>,
    rest: Seq<char>,
) -> bool {
    &&& sql_lexer::lex(s) == seq![
        (sql_lexer::Tok { kind: sql_lexer::kind_of(t[0]), lead: l, text: t }),
    ] + sql_lexer::lex(rest)
    &&& sql_lexer::tail(s) == sql_lexer::tail(rest)
}

/// A token stays as it is where what follows it is replaced by what starts
/// alike.
pub(crate) proof fn lemma_token_kept(l: Seq<char>, t: Seq<char>, x: Seq<char>, y: Seq<char>)
    requires
        token_stands(l, t, x),
        starts_alike(x, y),
    ensures
        is_cut_into(l + t + y, l, t, y),
        starts_alike(l + t + x, l + t + y),
{
    lemma_token_holds(t, x, y);
    lemma_lead_holds(l, t + x, t + y, 0);
    lemma_token_before(l, t, y);
    lemma_same_start(l, t, x, y);
}

proof fn lemma_same_start(l: Seq<char>, t: Seq<char>, x: Seq<char>, y: Seq<char>)
    requires
        t.len() > 0,
    ensures
        starts_alike(l + t + x, l + t + y),
{
    if l.len() > 0 {
        assert((l + t + x)[0] == l[0] && (l + t + y)[0] == l[0]);
    } else {
        assert((l + t + x)[0] == t[0] && (l + t + y)[0] == t[0]);
    }
}

/// A word stays as it is where what follows it is replaced by what is no more of
/// a word.
pub(crate) proof fn lemma_word_kept(l: Seq<char>, t: Seq<char>, x: Seq<char>, y: Seq<char>)
    requires
        token_stands(l, t, x),
        is_letter(t[0]),
        y.len() == 0 || !sql_lexer::is_word_char(y[0]),
    ensures
        is_cut_into(l + t + y, l, t, y),
        starts_alike(l + t + x, l + t + y),
{
    lemma_word_holds(t, x, y);
    lemma_lead_holds(l, t + x, t + y, 0);
    lemma_token_before(l, t, y);
    lemma_same_start(l, t, x, y);
}

/// A word may be replaced by a word of letters.
pub(crate) proof fn lemma_word_replaced(
    l: Seq<char>,
    t: Seq<char>,
    w: Seq<char>,
    x: Seq<char>,
    y: Seq<char>,
)
    requires
        token_stands(l, t, x),
        is_letter(t[0]),
        w.len() > 0,
        forall|k: int| 0 <= k < w.len() ==> is_letter(#[trigger] w[k]),
        starts_alike(x, y),
    ensures
        is_cut_into(l + w + y, l, w, y),
        starts_alike(l + t + x, l + w + y),
        sql_lexer::kind_of(w[0]) == TokenKind::Word,
{
    lemma_word_holds(t, x, y);
    lemma_letters_are_a_word(w, y);
    lemma_lead_holds(l, t + x, w + y, 0);
    lemma_token_before(l, w, y);
    if l.len() > 0 {
        assert((l + t + x)[0] == l[0] && (l + w + y)[0] == l[0]);
    } else {
        assert((l + t + x)[0] == t[0] && (l + w + y)[0] == w[0]);
        assert(is_letter(w[0]));
    }
}

} // verus!
