//! What a text is cut into, said of the characters it is made of.

use vstd::prelude::*;

use crate::relexing;
use crate::sql_lexer;
use crate::sql_lexer::{Tok, TokenKind};

verus! {

/// The tokens `a` are the tokens `b`, but that `before` stands in front of the
/// first.
pub open spec fn same_behind(before: Seq<char>, a: Seq<Tok>, b: Seq<Tok>) -> bool {
    &&& a.len() == b.len()
    &&& forall|i: int| 1 <= i < a.len() ==> a[i] == b[i]
    &&& a.len() > 0 ==> a[0] == (Tok { lead: before + b[0].lead, ..b[0] })
}

#[verifier::rlimit(40)]
proof fn lemma_prepended(p: Seq<char>, s: Seq<char>)
    requires
        p.len() > 0,
        sql_lexer::lead_end(p + s, 0) == p.len() + sql_lexer::lead_end(s, 0),
    ensures
        same_behind(p, sql_lexer::lex(p + s), sql_lexer::lex(s)),
{
    let r = p + s;
    let k = p.len() as int;
    assert(r.skip(k) =~= s);
    sql_lexer::lemma_lead_end(s, 0);
    let from = sql_lexer::lead_end(s, 0);
    if s.len() > 0 && from < s.len() {
        relexing::lemma_token_end_shift(r, k, k + from);
        sql_lexer::lemma_token_end(s, from);
        let to = sql_lexer::token_end(s, from);
        relexing::lemma_lex_shift(r, k, k + to);
        assert(r.subrange(0, k + from) =~= p + s.subrange(0, from));
        assert(r.subrange(k + from, k + to) =~= s.subrange(from, to));
        assert(r[k + from] == s[from]);
        assert(sql_lexer::lex(r) == seq![sql_lexer::first_token(r, 0)] + sql_lexer::lex_from(
            r,
            k + to,
        ));
        assert(sql_lexer::lex(s) == seq![sql_lexer::first_token(s, 0)] + sql_lexer::lex_from(
            s,
            to,
        ));
    } else {
        assert(sql_lexer::lex(s) =~= Seq::empty());
        assert(sql_lexer::lex(r) =~= Seq::empty());
    }
}

/// A blank, a tab, the end of a line or of a page is part of no token: it stands
/// before the next one.
pub proof fn law_white_space_is_no_token(c: char, s: Seq<char>)
    requires
        c == ' ' || c == '\t' || c == '\n' || c == '\r' || c == '\u{c}',
    ensures
        same_behind(seq![c], sql_lexer::lex(seq![c] + s), sql_lexer::lex(s)),
{
    let r = seq![c] + s;
    assert(r[0] == c);
    assert(r.skip(1) =~= s);
    relexing::lemma_lead_end_shift(r, 1, 1);
    lemma_prepended(seq![c], s);
}

proof fn lemma_line(p: Seq<char>, i: int, s: Seq<char>)
    requires
        0 <= i < p.len(),
        p.last() == '\n',
        forall|k: int| i <= k < p.len() - 1 ==> p[k] != '\n',
    ensures
        sql_lexer::line_end(p + s, i) == p.len(),
    decreases p.len() - i,
{
    assert((p + s)[i] == p[i]);
    if i < p.len() - 1 {
        lemma_line(p, i + 1, s);
    }
}

/// A comment from two dashes to the end of its line is part of no token.
pub proof fn law_line_comment_is_no_token(body: Seq<char>, s: Seq<char>)
    requires
        !body.contains('\n'),
    ensures
        ({
            let comment = seq!['-', '-'] + body + seq!['\n'];
            same_behind(comment, sql_lexer::lex(comment + s), sql_lexer::lex(s))
        }),
{
    let p = seq!['-', '-'] + body + seq!['\n'];
    let r = p + s;
    assert(r[0] == '-' && r[1] == '-');
    assert forall|k: int| 2 <= k < p.len() - 1 implies p[k] != '\n' by {
        assert(p[k] == body[k - 2]);
        assert(body.contains(body[k - 2]));
    }
    assert(p.last() == '\n');
    lemma_line(p, 2, s);
    assert(sql_lexer::pair_at(r, 0, '-', '-'));
    assert(r.skip(p.len() as int) =~= s);
    relexing::lemma_lead_end_shift(r, p.len() as int, p.len() as int);
    lemma_prepended(p, s);
}

proof fn lemma_block(p: Seq<char>, i: int, s: Seq<char>)
    requires
        0 <= i <= p.len() - 2,
        p[p.len() - 2] == '*',
        p[p.len() - 1] == '/',
        forall|k: int| i <= k < p.len() - 2 ==> !(p[k] == '*' && #[trigger] p[k + 1] == '/'),
    ensures
        sql_lexer::comment_end(p + s, i) == p.len(),
    decreases p.len() - i,
{
    let r = p + s;
    assert(r[i] == p[i] && r[i + 1] == p[i + 1]);
    if i < p.len() - 2 {
        assert(!(p[i] == '*' && p[i + 1] == '/'));
        lemma_block(p, i + 1, s);
    }
}

/// A comment from `/*` to the next `*/` is part of no token.
pub proof fn law_block_comment_is_no_token(body: Seq<char>, s: Seq<char>)
    requires
        forall|k: int|
            0 <= k < body.len() - 1 ==> !(body[k] == '*' && #[trigger] body[k + 1] == '/'),
    ensures
        ({
            let comment = seq!['/', '*'] + body + seq!['*', '/'];
            same_behind(comment, sql_lexer::lex(comment + s), sql_lexer::lex(s))
        }),
{
    let p = seq!['/', '*'] + body + seq!['*', '/'];
    let r = p + s;
    let n = p.len() as int;
    assert(r[0] == '/' && r[1] == '*');
    assert(p[n - 2] == '*' && p[n - 1] == '/');
    assert forall|k: int| 2 <= k < n - 2 implies !(p[k] == '*' && #[trigger] p[k + 1] == '/') by {
        if k + 1 < n - 2 {
            assert(p[k] == body[k - 2] && p[k + 1] == body[k - 2 + 1]);
        }
    }
    lemma_block(p, 2, s);
    assert(sql_lexer::pair_at(r, 0, '/', '*'));
    assert(!sql_lexer::pair_at(r, 0, '-', '-'));
    assert(r.skip(n) =~= s);
    relexing::lemma_lead_end_shift(r, n, n);
    lemma_prepended(p, s);
}

/// A character of a bare name, a keyword or a number.
pub open spec fn names(c: char) -> bool {
    'a' <= c <= 'z' || 'A' <= c <= 'Z' || '0' <= c <= '9' || c == '_' || c == '$' || c >= '\u{80}'
}

proof fn lemma_names_end(t: Seq<char>, y: Seq<char>, i: int)
    requires
        0 <= i <= t.len(),
        forall|k: int| i <= k < t.len() ==> names(#[trigger] t[k]),
        y.len() == 0 || !names(y[0]),
    ensures
        sql_lexer::word_end(t + y, i) == t.len(),
    decreases t.len() - i,
{
    if i < t.len() {
        assert((t + y)[i] == t[i]);
        lemma_names_end(t, y, i + 1);
    } else if y.len() > 0 {
        assert((t + y)[i] == y[0]);
    }
}

proof fn lemma_at_once(t: Seq<char>, rest: Seq<char>)
    requires
        t.len() > 0,
        relexing::starts_token(t + rest),
        sql_lexer::token_end(t + rest, 0) == t.len(),
    ensures
        sql_lexer::lex(t + rest) == seq![
            (Tok { kind: sql_lexer::kind_of(t[0]), lead: Seq::empty(), text: t }),
        ] + sql_lexer::lex(rest),
{
    let l = Seq::<char>::empty();
    let s = t + rest;
    assert(l + s =~= s);
    assert(l + t =~= t);
    assert(sql_lexer::lead_end(s, 0) == 0);
    relexing::lemma_token_before(l, t, rest);
}

/// Letters, digits, underscores, dollar signs and all that is not ASCII, one
/// behind the other, are one word, up to the first character that is none of
/// these.
pub proof fn law_word_is_one_token(w: Seq<char>, rest: Seq<char>)
    requires
        w.len() > 0,
        forall|k: int| 0 <= k < w.len() ==> names(#[trigger] w[k]),
        rest.len() == 0 || !names(rest[0]),
    ensures
        sql_lexer::lex(w + rest) == seq![
            (Tok { kind: TokenKind::Word, lead: Seq::empty(), text: w }),
        ] + sql_lexer::lex(rest),
{
    assert((w + rest)[0] == w[0]);
    assert(names(w[0]));
    lemma_names_end(w, rest, 1);
    lemma_at_once(w, rest);
}

/// A parameter with a name is one word, with the mark that it starts with.
pub proof fn law_named_parameter_is_one_token(mark: char, w: Seq<char>, rest: Seq<char>)
    requires
        mark == ':' || mark == '@',
        forall|k: int| 0 <= k < w.len() ==> names(#[trigger] w[k]),
        rest.len() == 0 || !names(rest[0]),
    ensures
        sql_lexer::lex(seq![mark] + w + rest) == seq![
            (Tok { kind: TokenKind::Word, lead: Seq::empty(), text: seq![mark] + w }),
        ] + sql_lexer::lex(rest),
{
    let t = seq![mark] + w;
    assert((t + rest)[0] == mark);
    assert forall|k: int| 1 <= k < t.len() implies names(#[trigger] t[k]) by {
        assert(t[k] == w[k - 1]);
    }
    lemma_names_end(t, rest, 1);
    lemma_at_once(t, rest);
}

proof fn lemma_digits(t: Seq<char>, y: Seq<char>, i: int)
    requires
        0 <= i <= t.len(),
        forall|k: int| i <= k < t.len() ==> '0' <= #[trigger] t[k] <= '9',
        y.len() == 0 || !('0' <= y[0] <= '9'),
    ensures
        sql_lexer::digits_end(t + y, i) == t.len(),
    decreases t.len() - i,
{
    if i < t.len() {
        assert((t + y)[i] == t[i]);
        lemma_digits(t, y, i + 1);
    } else if y.len() > 0 {
        assert((t + y)[i] == y[0]);
    }
}

/// A question mark is a parameter with the digits behind it and nothing else.
pub proof fn law_numbered_parameter_is_one_token(digits: Seq<char>, rest: Seq<char>)
    requires
        forall|k: int| 0 <= k < digits.len() ==> '0' <= #[trigger] digits[k] <= '9',
        rest.len() == 0 || !('0' <= rest[0] <= '9'),
    ensures
        sql_lexer::lex(seq!['?'] + digits + rest) == seq![
            (Tok { kind: TokenKind::Word, lead: Seq::empty(), text: seq!['?'] + digits }),
        ] + sql_lexer::lex(rest),
{
    let t = seq!['?'] + digits;
    assert((t + rest)[0] == '?');
    assert forall|k: int| 1 <= k < t.len() implies '0' <= #[trigger] t[k] <= '9' by {
        assert(t[k] == digits[k - 1]);
    }
    lemma_digits(t, rest, 1);
    lemma_at_once(t, rest);
}

/// `v` as it is written before the closing quote `close`: with each such
/// character doubled.
pub open spec fn quoting(v: Seq<char>, close: char) -> Seq<char>
    decreases v.len(),
{
    if v.len() == 0 {
        Seq::empty()
    } else if v[0] == close {
        seq![close, close] + quoting(v.skip(1), close)
    } else {
        seq![v[0]] + quoting(v.skip(1), close)
    }
}

proof fn lemma_quoting(before: Seq<char>, v: Seq<char>, close: char, rest: Seq<char>)
    requires
        close == ']' ==> !v.contains(']'),
        close == ']' || rest.len() == 0 || rest[0] != close,
    ensures
        ({
            let t = before + quoting(v, close) + seq![close];
            &&& sql_lexer::quote_end(t + rest, before.len() as int, close) == t.len()
            &&& sql_lexer::quoted_value(t, before.len() as int, close) == v
        }),
    decreases v.len(),
{
    let t = before + quoting(v, close) + seq![close];
    let i = before.len() as int;
    let s = t + rest;
    if v.len() == 0 {
        assert(s[i] == close && t[i] == close);
        assert(i + 1 == t.len());
        if rest.len() > 0 {
            assert(s[i + 1] == rest[0]);
        }
    } else {
        let first = if v[0] == close {
            seq![close, close]
        } else {
            seq![v[0]]
        };
        assert forall|x: char| v.skip(1).contains(x) implies v.contains(x) by {
            let k = choose|k: int| 0 <= k < v.skip(1).len() && v.skip(1)[k] == x;
            assert(v[k + 1] == x);
        }
        if v[0] == close {
            assert(v.contains(v[0]));
        }
        lemma_quoting(before + first, v.skip(1), close, rest);
        assert(t =~= before + first + quoting(v.skip(1), close) + seq![close]);
        assert(t[i] == first[0] && s[i] == first[0]);
        if v[0] == close {
            assert(t[i + 1] == close && s[i + 1] == close);
        }
        assert(v =~= seq![v[0]] + v.skip(1));
    }
}

/// Quoted text is one token, from its opening to its closing quote, whatever
/// stands between them; and what it stands for is read back from it. A quote is
/// doubled within its own quotes, except that a bracket cannot be.
pub proof fn law_quoted_text_is_one_token(
    open: char,
    close: char,
    v: Seq<char>,
    rest: Seq<char>,
)
    requires
        (open == '\'' || open == '"' || open == '`') && close == open || open == '[' && close
            == ']',
        close == ']' ==> !v.contains(']'),
        close == ']' || rest.len() == 0 || rest[0] != close,
    ensures
        ({
            let t = seq![open] + quoting(v, close) + seq![close];
            &&& sql_lexer::lex(t + rest) == seq![
                (Tok { kind: TokenKind::Quoted, lead: Seq::empty(), text: t }),
            ] + sql_lexer::lex(rest)
            &&& sql_lexer::quoted_value(t, 1, sql_lexer::closing_quote(t[0])) == v
        }),
{
    let t = seq![open] + quoting(v, close) + seq![close];
    lemma_quoting(seq![open], v, close, rest);
    assert((t + rest)[0] == open);
    assert(t[0] == open);
    lemma_at_once(t, rest);
}

/// Any other character is a token by itself: one that is no white space, starts
/// no word, no parameter and no quoted text, and no comment with the character
/// behind it.
pub proof fn law_symbol_is_one_token(c: char, rest: Seq<char>)
    requires
        !names(c),
        c != ' ' && c != '\t' && c != '\n' && c != '\r' && c != '\u{c}',
        c != '\'' && c != '"' && c != '`' && c != '[',
        c != ':' && c != '@' && c != '?',
        c == '-' ==> rest.len() == 0 || rest[0] != '-',
        c == '/' ==> rest.len() == 0 || rest[0] != '*',
    ensures
        sql_lexer::lex(seq![c] + rest) == seq![
            (Tok { kind: TokenKind::Symbol, lead: Seq::empty(), text: seq![c] }),
        ] + sql_lexer::lex(rest),
{
    let s = seq![c] + rest;
    assert(s[0] == c);
    if rest.len() > 0 {
        assert(s[1] == rest[0]);
    }
    lemma_at_once(seq![c], rest);
}

/// Two texts are the same word if and only if they differ in the case of ASCII
/// letters alone.
pub proof fn law_words_match_in_any_case(x: Seq<char>, y: Seq<char>)
    ensures
        sql_lexer::lowered(x) == sql_lexer::lowered(y) <==> x.len() == y.len() && forall|i: int|
            #![trigger x[i], y[i]]
            0 <= i < x.len() ==> x[i] == y[i] || 'A' <= x[i] <= 'Z' && y[i] as int == x[i] as int
                + 32 || 'A' <= y[i] <= 'Z' && x[i] as int == y[i] as int + 32,
{
    let a = sql_lexer::lowered(x);
    let b = sql_lexer::lowered(y);
    assert(a.len() == x.len() && b.len() == y.len());
    if a == b {
        assert forall|i: int|
            #![trigger x[i], y[i]]
            0 <= i < x.len() implies x[i] == y[i] || 'A' <= x[i] <= 'Z' && y[i] as int == x[i] as int
            + 32 || 'A' <= y[i] <= 'Z' && x[i] as int == y[i] as int + 32 by {
            assert(a[i] == b[i]);
        }
    }
    if x.len() == y.len() && forall|i: int|
        #![trigger x[i], y[i]]
        0 <= i < x.len() ==> x[i] == y[i] || 'A' <= x[i] <= 'Z' && y[i] as int == x[i] as int + 32
            || 'A' <= y[i] <= 'Z' && x[i] as int == y[i] as int + 32 {
        assert forall|i: int| 0 <= i < a.len() implies a[i] == b[i] by {
            assert(x[i] == y[i] || 'A' <= x[i] <= 'Z' && y[i] as int == x[i] as int + 32 || 'A'
                <= y[i] <= 'Z' && x[i] as int == y[i] as int + 32);
        }
        assert(a =~= b);
    }
}

/// A token is a word that is written in small letters if it is a bare word with
/// these letters, each of them small or capital, and in no other case: never if
/// it is quoted.
pub proof fn law_word_is_known_in_any_case(ts: Seq<Tok>, i: int, w: Seq<char>)
    requires
        forall|k: int| 0 <= k < w.len() ==> !('A' <= #[trigger] w[k] <= 'Z'),
    ensures
        sql_lexer::is_word(ts, i, w) <==> {
            &&& 0 <= i < ts.len()
            &&& ts[i].kind == TokenKind::Word
            &&& ts[i].text.len() == w.len()
            &&& forall|k: int|
                #![trigger w[k]]
                0 <= k < w.len() ==> ts[i].text[k] == w[k] || 'a' <= w[k] <= 'z'
                    && ts[i].text[k] as int == w[k] as int - 32
        },
{
    if 0 <= i < ts.len() {
        let low = sql_lexer::lowered(ts[i].text);
        assert(low.len() == ts[i].text.len());
        if low == w {
            assert forall|k: int|
                #![trigger w[k]]
                0 <= k < w.len() implies ts[i].text[k] == w[k] || 'a' <= w[k] <= 'z'
                && ts[i].text[k] as int == w[k] as int - 32 by {
                assert(low[k] == sql_lexer::lower_char(ts[i].text[k]));
            }
        }
        if ts[i].text.len() == w.len() && forall|k: int|
            #![trigger w[k]]
            0 <= k < w.len() ==> ts[i].text[k] == w[k] || 'a' <= w[k] <= 'z'
                && ts[i].text[k] as int == w[k] as int - 32 {
            assert forall|k: int| 0 <= k < w.len() implies low[k] == w[k] by {
                assert(ts[i].text[k] == w[k] || 'a' <= w[k] <= 'z' && ts[i].text[k] as int
                    == w[k] as int - 32);
            }
            assert(low =~= w);
        }
    }
}

/// A token is a symbol if it is that one character and nothing else; and it is a
/// name if it is no symbol at all.
pub proof fn law_symbol_is_its_character(ts: Seq<Tok>, i: int, c: char)
    ensures
        sql_lexer::is_symbol(ts, i, c) <==> 0 <= i < ts.len() && ts[i].kind == TokenKind::Symbol
            && ts[i].text.len() == 1 && ts[i].text[0] == c,
        sql_lexer::is_name(ts, i) <==> 0 <= i < ts.len() && (ts[i].kind == TokenKind::Word
            || ts[i].kind == TokenKind::Quoted),
{
    if 0 <= i < ts.len() && ts[i].text.len() == 1 && ts[i].text[0] == c {
        assert(ts[i].text =~= seq![c]);
    }
}

/// A name begins with a prefix if its text does, or, where it is quoted, what
/// stands behind its opening quote.
pub proof fn law_prefix_of_a_name_is_found(lead: Seq<char>, p: Seq<char>, rest: Seq<char>)
    requires
        p.len() > 0,
    ensures
        ({
            let bare = Tok { kind: TokenKind::Word, lead, text: p + rest };
            sql_lexer::is_name_with(seq![bare], 0, sql_lexer::lowered(p))
        }),
        forall|open: char|
            {
                let quoted = Tok {
                    kind: TokenKind::Quoted,
                    lead,
                    text: #[trigger] (seq![open] + (p + rest)),
                };
                sql_lexer::is_name_with(seq![quoted], 0, sql_lexer::lowered(p))
            },
{
    assert((p + rest).take(p.len() as int) =~= p);
    assert forall|open: char|
        {
            let quoted = Tok {
                kind: TokenKind::Quoted,
                lead,
                text: #[trigger] (seq![open] + (p + rest)),
            };
            sql_lexer::is_name_with(seq![quoted], 0, sql_lexer::lowered(p))
        } by {
        assert((seq![open] + (p + rest)).skip(1) =~= p + rest);
    }
}

proof fn lemma_open_quote(t: Seq<char>, i: int, close: char)
    requires
        0 <= i <= t.len(),
        forall|k: int| i <= k < t.len() ==> t[k] != close,
    ensures
        sql_lexer::quote_end(t, i, close) == t.len(),
        sql_lexer::quoted_value(t, i, close) == t.skip(i),
    decreases t.len() - i,
{
    if i < t.len() {
        lemma_open_quote(t, i + 1, close);
        assert(t.skip(i) =~= seq![t[i]] + t.skip(i + 1));
    } else {
        assert(t.skip(i) =~= Seq::<char>::empty());
    }
}

/// Quoted text that is never closed is one token too, to the end of the text, and
/// stands for all of it.
pub proof fn law_open_quote_runs_to_the_end(open: char, close: char, v: Seq<char>)
    requires
        (open == '\'' || open == '"' || open == '`') && close == open || open == '[' && close
            == ']',
        !v.contains(close),
    ensures
        sql_lexer::lex(seq![open] + v) == seq![
            (Tok { kind: TokenKind::Quoted, lead: Seq::empty(), text: seq![open] + v }),
        ],
        sql_lexer::quoted_value(seq![open] + v, 1, close) == v,
{
    let t = seq![open] + v;
    let rest = Seq::<char>::empty();
    assert(t + rest =~= t);
    assert(t[0] == open);
    assert forall|k: int| 1 <= k < t.len() implies t[k] != close by {
        assert(t[k] == v[k - 1]);
        assert(v.contains(v[k - 1]));
    }
    lemma_open_quote(t, 1, close);
    assert(t.skip(1) =~= v);
    lemma_at_once(t, rest);
    assert(sql_lexer::lex(rest) =~= Seq::<Tok>::empty());
    assert(sql_lexer::lex(t) =~= seq![
        (Tok { kind: TokenKind::Quoted, lead: Seq::empty(), text: t }),
    ]);
}

proof fn lemma_no_line_end(s: Seq<char>, i: int)
    requires
        0 <= i <= s.len(),
        forall|k: int| i <= k < s.len() ==> s[k] != '\n',
    ensures
        sql_lexer::line_end(s, i) == s.len(),
    decreases s.len() - i,
{
    if i < s.len() {
        lemma_no_line_end(s, i + 1);
    }
}

proof fn lemma_no_comment_end(s: Seq<char>, i: int)
    requires
        0 <= i <= s.len(),
        forall|k: int| i <= k < s.len() - 1 ==> !(s[k] == '*' && #[trigger] s[k + 1] == '/'),
    ensures
        sql_lexer::comment_end(s, i) == s.len(),
    decreases s.len() - i,
{
    if i + 1 < s.len() {
        assert(!(s[i] == '*' && s[i + 1] == '/'));
        lemma_no_comment_end(s, i + 1);
    }
}

/// A comment that is never closed, or whose line does not end, hides the rest of
/// the text.
pub proof fn law_open_comment_hides_the_rest(body: Seq<char>)
    ensures
        !body.contains('\n') ==> sql_lexer::lex(seq!['-', '-'] + body).len() == 0,
        (forall|k: int|
            0 <= k < body.len() - 1 ==> !(body[k] == '*' && #[trigger] body[k + 1] == '/'))
            ==> sql_lexer::lex(seq!['/', '*'] + body).len() == 0,
{
    if !body.contains('\n') {
        let s = seq!['-', '-'] + body;
        assert(s[0] == '-' && s[1] == '-');
        assert forall|k: int| 2 <= k < s.len() implies s[k] != '\n' by {
            assert(s[k] == body[k - 2]);
            assert(body.contains(body[k - 2]));
        }
        lemma_no_line_end(s, 2);
        assert(sql_lexer::pair_at(s, 0, '-', '-'));
        assert(sql_lexer::lead_end(s, s.len() as int) == s.len());
        assert(sql_lexer::lead_end(s, 0) == s.len());
    }
    if forall|k: int|
        0 <= k < body.len() - 1 ==> !(body[k] == '*' && #[trigger] body[k + 1] == '/') {
        let s = seq!['/', '*'] + body;
        assert(s[0] == '/' && s[1] == '*');
        assert forall|k: int| 2 <= k < s.len() - 1 implies !(s[k] == '*' && #[trigger] s[k + 1]
            == '/') by {
            assert(s[k] == body[k - 2] && s[k + 1] == body[k - 2 + 1]);
        }
        lemma_no_comment_end(s, 2);
        assert(sql_lexer::pair_at(s, 0, '/', '*'));
        assert(sql_lexer::lead_end(s, s.len() as int) == s.len());
        assert(sql_lexer::lead_end(s, 0) == s.len());
    }
}

/// A name begins with no prefix that its text, behind its opening quote where it
/// has one, does not begin with; and punctuation is no name.
pub proof fn law_only_the_prefix_counts(t: Tok, prefix: Seq<char>, other: Seq<char>)
    requires
        sql_lexer::is_name_with(seq![t], 0, prefix),
    ensures
        t.kind != TokenKind::Symbol,
        t.kind == TokenKind::Word ==> exists|p: Seq<char>, rest: Seq<char>|
            t.text == #[trigger] (p + rest) && sql_lexer::lowered(p) == prefix,
        t.kind == TokenKind::Quoted && t.text.len() > 0 ==> exists|p: Seq<char>, rest: Seq<char>|
            t.text.skip(1) == #[trigger] (p + rest) && sql_lexer::lowered(p) == prefix,
        sql_lexer::is_name_with(seq![t], 0, other) && other.len() == prefix.len() ==> other
            == prefix,
{
    let u = sql_lexer::unquoted(t);
    let n = prefix.len() as int;
    assert(u =~= u.take(n) + u.skip(n));
    if sql_lexer::is_name_with(seq![t], 0, other) && other.len() == prefix.len() {
        assert(other == sql_lexer::lowered(u.take(n)));
    }
}

} // verus!
