//! SQL text cut into words, quoted text and symbols. White space and comments
//! belong to the token that follows them, so nothing of the text is lost.

use vstd::prelude::*;

use crate::text;

verus! {

/// What a token is.
#[derive(Clone, Copy, PartialEq, Eq, Structural, Debug)]
pub enum TokenKind {
    /// A keyword, a bare name, a number or a parameter.
    Word,
    /// Quoted text: a literal or a quoted name, with its quotes.
    Quoted,
    /// One character of punctuation.
    Symbol,
}

/// A token: the white space and comments before it, and its own text.
pub ghost struct Tok {
    pub kind: TokenKind,
    pub lead: Seq<char>,
    pub text: Seq<char>,
}

/// A character that separates tokens.
pub open spec fn is_space(c: char) -> bool {
    c == ' ' || c == '\t' || c == '\n' || c == '\r' || c == '\u{c}'
}

/// A character of a keyword, a bare name or a number.
pub open spec fn is_word_char(c: char) -> bool {
    ||| 'a' <= c <= 'z'
    ||| 'A' <= c <= 'Z'
    ||| '0' <= c <= '9'
    ||| c == '_'
    ||| c == '$'
    ||| c >= '\u{80}'
}

/// A character that a parameter starts with.
pub open spec fn is_parameter_mark(c: char) -> bool {
    c == ':' || c == '@' || c == '?'
}

/// A character that opens quoted text.
pub open spec fn is_quote(c: char) -> bool {
    c == '\'' || c == '"' || c == '`' || c == '['
}

/// The character that closes what `open` opens.
pub open spec fn closing_quote(open: char) -> char {
    if open == '[' {
        ']'
    } else {
        open
    }
}

/// Where the line that reaches `i` ends: behind its line feed, or at the end
/// of the text.
pub open spec fn line_end(s: Seq<char>, i: int) -> int
    decreases s.len() - i,
{
    if i < 0 || i >= s.len() {
        s.len() as int
    } else if s[i] == '\n' {
        i + 1
    } else {
        line_end(s, i + 1)
    }
}

/// Where the comment that reaches `i` ends: behind its `*/`, or at the end of
/// the text.
pub open spec fn comment_end(s: Seq<char>, i: int) -> int
    decreases s.len() - i,
{
    if i < 0 || i + 1 >= s.len() {
        s.len() as int
    } else if s[i] == '*' && s[i + 1] == '/' {
        i + 2
    } else {
        comment_end(s, i + 1)
    }
}

/// `a` and `b` stand at `i`, one behind the other.
pub open spec fn pair_at(s: Seq<char>, i: int, a: char, b: char) -> bool {
    0 <= i && i + 1 < s.len() && s[i] == a && s[i + 1] == b
}

/// Where the white space and comments from `i` on end.
pub open spec fn lead_end(s: Seq<char>, i: int) -> int
    decreases s.len() - i,
{
    if i < 0 || i >= s.len() {
        s.len() as int
    } else if is_space(s[i]) {
        lead_end(s, i + 1)
    } else if pair_at(s, i, '-', '-') {
        proof {
            lemma_line_end(s, i + 2);
        }
        lead_end(s, line_end(s, i + 2))
    } else if pair_at(s, i, '/', '*') {
        proof {
            lemma_comment_end(s, i + 2);
        }
        lead_end(s, comment_end(s, i + 2))
    } else {
        i
    }
}

/// Where the word that reaches `i` ends.
pub open spec fn word_end(s: Seq<char>, i: int) -> int
    decreases s.len() - i,
{
    if i < 0 || i >= s.len() {
        s.len() as int
    } else if is_word_char(s[i]) {
        word_end(s, i + 1)
    } else {
        i
    }
}

/// Where the digits from `i` on end.
pub open spec fn digits_end(s: Seq<char>, i: int) -> int
    decreases s.len() - i,
{
    if i < 0 || i >= s.len() {
        s.len() as int
    } else if '0' <= s[i] <= '9' {
        digits_end(s, i + 1)
    } else {
        i
    }
}

/// Where the quoted text that reaches `i` ends: behind its closing quote, or
/// at the end of the text. A doubled quote stands for one and closes nothing,
/// except that `]` cannot be doubled.
pub open spec fn quote_end(s: Seq<char>, i: int, close: char) -> int
    decreases s.len() - i,
{
    if i < 0 || i >= s.len() {
        s.len() as int
    } else if s[i] != close {
        quote_end(s, i + 1, close)
    } else if close != ']' && i + 1 < s.len() && s[i + 1] == close {
        quote_end(s, i + 2, close)
    } else {
        i + 1
    }
}

/// The text that quoted text stands for, from `i` on: up to its closing quote,
/// or to the end where there is none, with each doubled quote as one.
pub open spec fn quoted_value(s: Seq<char>, i: int, close: char) -> Seq<char>
    decreases s.len() - i,
{
    if i < 0 || i >= s.len() {
        Seq::empty()
    } else if s[i] != close {
        seq![s[i]] + quoted_value(s, i + 1, close)
    } else if close != ']' && i + 1 < s.len() && s[i + 1] == close {
        seq![close] + quoted_value(s, i + 2, close)
    } else {
        Seq::empty()
    }
}

pub open spec fn kind_of(c: char) -> TokenKind {
    if is_quote(c) {
        TokenKind::Quoted
    } else if is_word_char(c) || is_parameter_mark(c) {
        TokenKind::Word
    } else {
        TokenKind::Symbol
    }
}

/// Where the token that starts at `i` ends. Behind a question mark only digits
/// belong to a parameter.
pub open spec fn token_end(s: Seq<char>, i: int) -> int {
    match kind_of(s[i]) {
        TokenKind::Quoted => quote_end(s, i + 1, closing_quote(s[i])),
        TokenKind::Word => if s[i] == '?' {
            digits_end(s, i + 1)
        } else {
            word_end(s, i + 1)
        },
        TokenKind::Symbol => i + 1,
    }
}

/// The tokens of `s` from `i` on.
pub open spec fn lex_from(s: Seq<char>, i: int) -> Seq<Tok>
    decreases s.len() - i,
{
    let from = lead_end(s, i);
    if i < 0 || i >= s.len() || from >= s.len() {
        Seq::empty()
    } else {
        proof {
            lemma_lead_end(s, i);
            lemma_token_end(s, from);
        }
        seq![first_token(s, i)] + lex_from(s, token_end(s, from))
    }
}

/// The token whose white space and comments start at `i`.
pub open spec fn first_token(s: Seq<char>, i: int) -> Tok {
    let from = lead_end(s, i);
    Tok {
        kind: kind_of(s[from]),
        lead: s.subrange(i, from),
        text: s.subrange(from, token_end(s, from)),
    }
}

/// Where the last token of `s` from `i` on ends.
pub open spec fn tail_from(s: Seq<char>, i: int) -> int
    decreases s.len() - i,
{
    let from = lead_end(s, i);
    if i < 0 || i >= s.len() || from >= s.len() {
        i
    } else {
        proof {
            lemma_lead_end(s, i);
            lemma_token_end(s, from);
        }
        tail_from(s, token_end(s, from))
    }
}

/// The tokens of a text.
pub open spec fn lex(s: Seq<char>) -> Seq<Tok> {
    lex_from(s, 0)
}

/// What stands behind the last token of a text.
pub open spec fn tail(s: Seq<char>) -> Seq<char> {
    s.skip(tail_from(s, 0))
}

/// The text of the tokens from `i` on.
pub open spec fn rendered(ts: Seq<Tok>, i: int) -> Seq<char>
    decreases ts.len() - i,
{
    if i < 0 || i >= ts.len() {
        Seq::empty()
    } else {
        ts[i].lead + ts[i].text + rendered(ts, i + 1)
    }
}

/// The text of the tokens from `from` to `to`, without what stands before the
/// first.
pub open spec fn joined(ts: Seq<Tok>, from: int, to: int) -> Seq<char>
    decreases to - from,
{
    if to <= from {
        Seq::empty()
    } else if to == from + 1 {
        ts[from].text
    } else {
        joined(ts, from, to - 1) + ts[to - 1].lead + ts[to - 1].text
    }
}

pub proof fn lemma_line_end(s: Seq<char>, i: int)
    requires
        0 <= i <= s.len(),
    ensures
        i <= line_end(s, i) <= s.len(),
    decreases s.len() - i,
{
    if i < s.len() && s[i] != '\n' {
        lemma_line_end(s, i + 1);
    }
}

pub proof fn lemma_comment_end(s: Seq<char>, i: int)
    requires
        0 <= i <= s.len(),
    ensures
        i <= comment_end(s, i) <= s.len(),
    decreases s.len() - i,
{
    if i + 1 < s.len() && !(s[i] == '*' && s[i + 1] == '/') {
        lemma_comment_end(s, i + 1);
    }
}

pub proof fn lemma_word_end(s: Seq<char>, i: int)
    requires
        0 <= i <= s.len(),
    ensures
        i <= word_end(s, i) <= s.len(),
    decreases s.len() - i,
{
    if i < s.len() && is_word_char(s[i]) {
        lemma_word_end(s, i + 1);
    }
}

pub proof fn lemma_digits_end(s: Seq<char>, i: int)
    requires
        0 <= i <= s.len(),
    ensures
        i <= digits_end(s, i) <= s.len(),
    decreases s.len() - i,
{
    if i < s.len() && '0' <= s[i] <= '9' {
        lemma_digits_end(s, i + 1);
    }
}

pub proof fn lemma_quote_end(s: Seq<char>, i: int, close: char)
    requires
        0 <= i <= s.len(),
    ensures
        i <= quote_end(s, i, close) <= s.len(),
    decreases s.len() - i,
{
    if i < s.len() {
        if s[i] != close {
            lemma_quote_end(s, i + 1, close);
        } else if close != ']' && i + 1 < s.len() && s[i + 1] == close {
            lemma_quote_end(s, i + 2, close);
        }
    }
}

pub proof fn lemma_lead_end(s: Seq<char>, i: int)
    requires
        0 <= i <= s.len(),
    ensures
        i <= lead_end(s, i) <= s.len(),
    decreases s.len() - i,
{
    if i < s.len() {
        if is_space(s[i]) {
            lemma_lead_end(s, i + 1);
        } else if pair_at(s, i, '-', '-') {
            lemma_line_end(s, i + 2);
            lemma_lead_end(s, line_end(s, i + 2));
        } else if pair_at(s, i, '/', '*') {
            lemma_comment_end(s, i + 2);
            lemma_lead_end(s, comment_end(s, i + 2));
        }
    }
}

pub proof fn lemma_token_end(s: Seq<char>, i: int)
    requires
        0 <= i < s.len(),
    ensures
        i < token_end(s, i) <= s.len(),
{
    lemma_word_end(s, i + 1);
    lemma_digits_end(s, i + 1);
    lemma_quote_end(s, i + 1, closing_quote(s[i]));
}

pub proof fn lemma_tail_from(s: Seq<char>, i: int)
    requires
        0 <= i <= s.len(),
    ensures
        i <= tail_from(s, i) <= s.len(),
    decreases s.len() - i,
{
    if i < s.len() {
        lemma_lead_end(s, i);
        let from = lead_end(s, i);
        if from < s.len() {
            lemma_token_end(s, from);
            lemma_tail_from(s, token_end(s, from));
        }
    }
}

proof fn lemma_rendered_behind(t: Tok, rest: Seq<Tok>, k: int)
    requires
        0 <= k <= rest.len(),
    ensures
        rendered(seq![t] + rest, k + 1) == rendered(rest, k),
    decreases rest.len() - k,
{
    if k < rest.len() {
        lemma_rendered_behind(t, rest, k + 1);
        assert((seq![t] + rest)[k + 1] == rest[k]);
    }
}

pub proof fn lemma_rendered_push(ts: Seq<Tok>, t: Tok, i: int)
    requires
        0 <= i <= ts.len(),
    ensures
        rendered(ts.push(t), i) == rendered(ts, i) + t.lead + t.text,
    decreases ts.len() - i,
{
    let more = ts.push(t);
    if i < ts.len() {
        lemma_rendered_push(ts, t, i + 1);
        assert(more[i] == ts[i]);
        assert(ts[i].lead + ts[i].text + (rendered(ts, i + 1) + t.lead + t.text) =~= ts[i].lead
            + ts[i].text + rendered(ts, i + 1) + t.lead + t.text);
    } else {
        assert(rendered(more, i + 1) =~= Seq::empty());
        assert(rendered(more, i) =~= rendered(ts, i) + t.lead + t.text);
    }
}

proof fn lemma_rendered_from(s: Seq<char>, i: int)
    requires
        0 <= i <= s.len(),
    ensures
        rendered(lex_from(s, i), 0) + s.skip(tail_from(s, i)) == s.skip(i),
    decreases s.len() - i,
{
    lemma_lead_end(s, i);
    let from = lead_end(s, i);
    if i < s.len() && from < s.len() {
        lemma_token_end(s, from);
        let to = token_end(s, from);
        lemma_rendered_from(s, to);
        lemma_tail_from(s, to);
        let rest = lex_from(s, to);
        let t = first_token(s, i);
        lemma_rendered_behind(t, rest, 0);
        assert((seq![t] + rest)[0] == t);
        assert(rendered(lex_from(s, i), 0) == t.lead + t.text + rendered(rest, 0));
        assert(t.lead + t.text + rendered(rest, 0) + s.skip(tail_from(s, i)) =~= t.lead + t.text
            + (rendered(rest, 0) + s.skip(tail_from(s, i))));
        assert(t.lead + t.text + s.skip(to) =~= s.skip(i));
    } else {
        assert(rendered(lex_from(s, i), 0) + s.skip(i) =~= s.skip(i));
    }
}

/// Cutting a text into tokens loses nothing: the tokens, with what stands
/// before each and behind the last, are the text.
pub proof fn law_lexing_loses_nothing(s: Seq<char>)
    ensures
        rendered(lex(s), 0) + tail(s) == s,
{
    lemma_rendered_from(s, 0);
    assert(s.skip(0) =~= s);
}

fn space(c: char) -> (b: bool)
    ensures
        b == is_space(c),
{
    c == ' ' || c == '\t' || c == '\n' || c == '\r' || c == '\u{c}'
}

fn word_char(c: char) -> (b: bool)
    ensures
        b == is_word_char(c),
{
    ('a' <= c && c <= 'z') || ('A' <= c && c <= 'Z') || ('0' <= c && c <= '9') || c == '_' || c
        == '$' || c >= '\u{80}'
}

fn parameter_mark(c: char) -> (b: bool)
    ensures
        b == is_parameter_mark(c),
{
    c == ':' || c == '@' || c == '?'
}

fn quote(c: char) -> (b: bool)
    ensures
        b == is_quote(c),
{
    c == '\'' || c == '"' || c == '`' || c == '['
}

fn find_line_end(s: &[char], start: usize) -> (end: usize)
    requires
        start <= s@.len(),
    ensures
        end == line_end(s@, start as int),
        start <= end <= s@.len(),
{
    let n = s.len();
    let mut i: usize = start;
    while i < n
        invariant
            n == s@.len(),
            start <= i <= n,
            line_end(s@, i as int) == line_end(s@, start as int),
        decreases n - i,
    {
        if s[i] == '\n' {
            return i + 1;
        }
        i = i + 1;
    }
    n
}

fn find_comment_end(s: &[char], start: usize) -> (end: usize)
    requires
        start <= s@.len(),
    ensures
        end == comment_end(s@, start as int),
        start <= end <= s@.len(),
{
    let n = s.len();
    let mut i: usize = start;
    while i < n && n - i > 1
        invariant
            n == s@.len(),
            start <= i <= n,
            comment_end(s@, i as int) == comment_end(s@, start as int),
        decreases n - i,
    {
        if s[i] == '*' && s[i + 1] == '/' {
            return i + 2;
        }
        i = i + 1;
    }
    n
}

fn find_lead_end(s: &[char], start: usize) -> (end: usize)
    requires
        start <= s@.len(),
    ensures
        end == lead_end(s@, start as int),
        start <= end <= s@.len(),
{
    let n = s.len();
    let mut i: usize = start;
    while i < n
        invariant
            n == s@.len(),
            start <= i <= n,
            lead_end(s@, i as int) == lead_end(s@, start as int),
        decreases n - i,
    {
        let c = s[i];
        if space(c) {
            i = i + 1;
        } else if c == '-' && n - i > 1 && s[i + 1] == '-' {
            i = find_line_end(s, i + 2);
        } else if c == '/' && n - i > 1 && s[i + 1] == '*' {
            i = find_comment_end(s, i + 2);
        } else {
            return i;
        }
    }
    n
}

fn find_word_end(s: &[char], start: usize) -> (end: usize)
    requires
        start <= s@.len(),
    ensures
        end == word_end(s@, start as int),
        start <= end <= s@.len(),
{
    let n = s.len();
    let mut i: usize = start;
    while i < n
        invariant
            n == s@.len(),
            start <= i <= n,
            word_end(s@, i as int) == word_end(s@, start as int),
        decreases n - i,
    {
        if !word_char(s[i]) {
            return i;
        }
        i = i + 1;
    }
    n
}

fn find_digits_end(s: &[char], start: usize) -> (end: usize)
    requires
        start <= s@.len(),
    ensures
        end == digits_end(s@, start as int),
        start <= end <= s@.len(),
{
    let n = s.len();
    let mut i: usize = start;
    while i < n
        invariant
            n == s@.len(),
            start <= i <= n,
            digits_end(s@, i as int) == digits_end(s@, start as int),
        decreases n - i,
    {
        if !('0' <= s[i] && s[i] <= '9') {
            return i;
        }
        i = i + 1;
    }
    n
}

fn find_quote_end(s: &[char], start: usize, close: char) -> (end: usize)
    requires
        start <= s@.len(),
    ensures
        end == quote_end(s@, start as int, close),
        start <= end <= s@.len(),
{
    let n = s.len();
    let mut i: usize = start;
    while i < n
        invariant
            n == s@.len(),
            start <= i <= n,
            quote_end(s@, i as int, close) == quote_end(s@, start as int, close),
        decreases n - i,
    {
        if s[i] != close {
            i = i + 1;
        } else if close != ']' && n - i > 1 && s[i + 1] == close {
            i = i + 2;
        } else {
            return i + 1;
        }
    }
    n
}

/// The text that quoted text stands for.
pub fn read_quoted(s: &[char]) -> (out: Vec<char>)
    requires
        s@.len() > 0,
    ensures
        out@ == quoted_value(s@, 1, closing_quote(s@[0])),
{
    let close = if s[0] == '[' {
        ']'
    } else {
        s[0]
    };
    let n = s.len();
    let mut out: Vec<char> = Vec::new();
    let mut i: usize = 1;
    assert(out@ + quoted_value(s@, 1, close) =~= quoted_value(s@, 1, close));
    while i < n && (s[i] != close || (close != ']' && n - i > 1 && s[i + 1] == close))
        invariant
            n == s@.len(),
            1 <= i <= n,
            out@ + quoted_value(s@, i as int, close) == quoted_value(s@, 1, close),
        decreases n - i,
    {
        let c = s[i];
        let ghost before = out@;
        let next = if c == close {
            i + 2
        } else {
            i + 1
        };
        out.push(c);
        assert(before + quoted_value(s@, i as int, close) =~= out@ + quoted_value(
            s@,
            next as int,
            close,
        ));
        i = next;
    }
    assert(out@ =~= out@ + quoted_value(s@, i as int, close));
    out
}

/// Where a token stands in its text.
#[derive(Clone, Copy, Debug)]
pub struct Span {
    pub kind: TokenKind,
    /// Where the white space and comments before the token start.
    pub start: usize,
    /// Where the token starts.
    pub from: usize,
    /// Where it ends.
    pub to: usize,
}

/// The span lies within a text of `n` characters.
pub open spec fn span_fits(span: Span, n: nat) -> bool {
    span.start <= span.from <= span.to <= n
}

/// The token that stands at `span`.
pub open spec fn token_at(s: Seq<char>, span: Span) -> Tok {
    Tok {
        kind: span.kind,
        lead: s.subrange(span.start as int, span.from as int),
        text: s.subrange(span.from as int, span.to as int),
    }
}

/// A text and its tokens.
pub struct Lexed {
    pub source: Vec<char>,
    pub spans: Vec<Span>,
}

/// Where the last of the tokens ends.
pub open spec fn last_end(spans: Seq<Span>) -> int {
    if spans.len() == 0 {
        0
    } else {
        spans.last().to as int
    }
}

impl Lexed {
    /// The tokens of the text.
    pub open spec fn tokens(&self) -> Seq<Tok> {
        Seq::new(self.spans@.len(), |i: int| token_at(self.source@, self.spans@[i]))
    }

    /// The tokens are those of the text, and each lies within it.
    pub open spec fn well_formed(&self) -> bool {
        &&& self.tokens() == lex(self.source@)
        &&& self.source@.skip(last_end(self.spans@)) == tail(self.source@)
        &&& forall|i: int|
            0 <= i < self.spans@.len() ==> span_fits(#[trigger] self.spans@[i], self.source@.len())
    }

    /// Cuts a text into tokens.
    pub fn new(source: Vec<char>) -> (lexed: Lexed)
        ensures
            lexed.source@ == source@,
            lexed.well_formed(),
    {
        let n = source.len();
        let ghost s = source@;
        let mut spans: Vec<Span> = Vec::new();
        let mut i: usize = 0;
        let mut from: usize = find_lead_end(source.as_slice(), 0);
        while from < n
            invariant
                n == source@.len(),
                s == source@,
                i <= from <= n,
                i <= n,
                from == lead_end(s, i as int),
                i == last_end(spans@),
                forall|k: int| 0 <= k < spans@.len() ==> span_fits(#[trigger] spans@[k], n as nat),
                Seq::new(spans@.len(), |k: int| token_at(s, spans@[k])) + lex_from(s, i as int)
                    == lex(s),
                tail_from(s, i as int) == tail_from(s, 0),
            decreases n - i,
        {
            let c = source[from];
            let kind = if quote(c) {
                TokenKind::Quoted
            } else if word_char(c) || parameter_mark(c) {
                TokenKind::Word
            } else {
                TokenKind::Symbol
            };
            let to = match kind {
                TokenKind::Quoted => {
                    let close = if c == '[' {
                        ']'
                    } else {
                        c
                    };
                    find_quote_end(source.as_slice(), from + 1, close)
                },
                TokenKind::Word => if c == '?' {
                    find_digits_end(source.as_slice(), from + 1)
                } else {
                    find_word_end(source.as_slice(), from + 1)
                },
                TokenKind::Symbol => from + 1,
            };
            let span = Span { kind, start: i, from, to };
            let ghost before = Seq::new(spans@.len(), |k: int| token_at(s, spans@[k]));
            spans.push(span);
            proof {
                let after = Seq::new(spans@.len(), |k: int| token_at(s, spans@[k]));
                let t = first_token(s, i as int);
                assert(token_at(s, span) == t);
                assert(after =~= before.push(t));
                assert(after + lex_from(s, to as int) =~= before + (seq![t] + lex_from(
                    s,
                    to as int,
                )));
            }
            i = to;
            from = find_lead_end(source.as_slice(), i);
        }
        let lexed = Lexed { source, spans };
        assert(lex_from(s, i as int) =~= Seq::empty());
        assert(lexed.tokens() =~= lex(s));
        assert(tail_from(s, i as int) == i);
        lexed
    }
}

/// `c` as a lower-case letter, if it is an ASCII letter.
pub open spec fn lower_char(c: char) -> char {
    if 'A' <= c <= 'Z' {
        (c as int + 32) as char
    } else {
        c
    }
}

/// `s` with its ASCII letters in lower case.
pub open spec fn lowered(s: Seq<char>) -> Seq<char> {
    Seq::new(s.len(), |i: int| lower_char(s[i]))
}

/// Token `i` is the word `w`, in whatever case; `w` is in lower case.
pub open spec fn is_word(ts: Seq<Tok>, i: int, w: Seq<char>) -> bool {
    0 <= i < ts.len() && ts[i].kind == TokenKind::Word && lowered(ts[i].text) == w
}

/// Token `i` is the symbol `c`.
pub open spec fn is_symbol(ts: Seq<Tok>, i: int, c: char) -> bool {
    0 <= i < ts.len() && ts[i].kind == TokenKind::Symbol && ts[i].text == seq![c]
}

/// Token `i` is a word or quoted text.
pub open spec fn is_name(ts: Seq<Tok>, i: int) -> bool {
    0 <= i < ts.len() && ts[i].kind != TokenKind::Symbol
}

/// A name without its opening quote.
pub open spec fn unquoted(t: Tok) -> Seq<char> {
    if t.kind == TokenKind::Quoted && t.text.len() > 0 {
        t.text.skip(1)
    } else {
        t.text
    }
}

/// Token `i` is a name that begins with `prefix`, in whatever case; `prefix`
/// is in lower case.
pub open spec fn is_name_with(ts: Seq<Tok>, i: int, prefix: Seq<char>) -> bool {
    &&& is_name(ts, i)
    &&& unquoted(ts[i]).len() >= prefix.len()
    &&& lowered(unquoted(ts[i]).take(prefix.len() as int)) == prefix
}

fn to_lower_char(c: char) -> (l: char)
    ensures
        l == lower_char(c),
{
    if 'A' <= c && c <= 'Z' {
        (c as u8 + 32) as char
    } else {
        c
    }
}

/// `part` with its ASCII letters in lower case.
pub fn lower(part: &[char]) -> (low: Vec<char>)
    ensures
        low@ == lowered(part@),
{
    let mut low: Vec<char> = Vec::new();
    let mut i: usize = 0;
    while i < part.len()
        invariant
            i <= part@.len(),
            low@.len() == i,
            forall|k: int| 0 <= k < i ==> low@[k] == lower_char(#[trigger] part@[k]),
        decreases part@.len() - i,
    {
        low.push(to_lower_char(part[i]));
        i = i + 1;
    }
    assert(low@ =~= lowered(part@));
    low
}

/// Whether `part`, in lower case, is `w`.
pub fn is_lowered(part: &[char], w: &str) -> (same: bool)
    ensures
        same == (lowered(part@) == w@),
{
    let wanted = text::to_chars(w);
    if part.len() != wanted.len() {
        return false;
    }
    let mut i: usize = 0;
    while i < part.len()
        invariant
            i <= part@.len(),
            part@.len() == wanted@.len(),
            wanted@ == w@,
            forall|k: int| 0 <= k < i ==> lower_char(#[trigger] part@[k]) == wanted@[k],
        decreases part@.len() - i,
    {
        if to_lower_char(part[i]) != wanted[i] {
            assert(lowered(part@)[i as int] != w@[i as int]);
            return false;
        }
        i = i + 1;
    }
    assert(lowered(part@) =~= w@);
    true
}

/// Appends `part` to `out`.
pub fn append(out: &mut Vec<char>, part: &[char])
    ensures
        final(out)@ == old(out)@ + part@,
{
    let ghost before = out@;
    let mut i: usize = 0;
    while i < part.len()
        invariant
            i <= part@.len(),
            out@ == before + part@.take(i as int),
        decreases part@.len() - i,
    {
        out.push(part[i]);
        i = i + 1;
        assert(out@ =~= before + part@.take(i as int));
    }
    assert(out@ =~= before + part@);
}

/// Appends a text to `out`.
pub fn append_str(out: &mut Vec<char>, part: &str)
    ensures
        final(out)@ == old(out)@ + part@,
{
    let chars = text::to_chars(part);
    append(out, chars.as_slice());
}

impl Lexed {
    /// Whether there is a token `k` behind token `i`.
    pub fn has(&self, i: usize, k: usize) -> (b: bool)
        ensures
            b == (i + k < self.tokens().len()),
            b ==> i + k < usize::MAX,
    {
        let n = self.spans.len();
        i < n && k < n - i
    }

    /// What stands behind the last token.
    pub fn tail(&self) -> (rest: &[char])
        requires
            self.well_formed(),
        ensures
            rest@ == tail(self.source@),
    {
        let n = self.spans.len();
        let end: usize = if n == 0 {
            0
        } else {
            self.spans[n - 1].to
        };
        let rest = vstd::slice::slice_subrange(self.source.as_slice(), end, self.source.len());
        assert(rest@ =~= self.source@.skip(last_end(self.spans@)));
        rest
    }

    /// The white space and comments before token `i`.
    pub fn lead(&self, i: usize) -> (lead: &[char])
        requires
            self.well_formed(),
            i < self.tokens().len(),
        ensures
            lead@ == self.tokens()[i as int].lead,
    {
        let span = self.spans[i];
        vstd::slice::slice_subrange(self.source.as_slice(), span.start, span.from)
    }

    /// The text of token `i`.
    pub fn text(&self, i: usize) -> (part: &[char])
        requires
            self.well_formed(),
            i < self.tokens().len(),
        ensures
            part@ == self.tokens()[i as int].text,
    {
        let span = self.spans[i];
        vstd::slice::slice_subrange(self.source.as_slice(), span.from, span.to)
    }

    /// The text of the tokens from `from` to `to`, without what stands before
    /// the first.
    pub fn join(&self, from: usize, to: usize) -> (out: Vec<char>)
        requires
            self.well_formed(),
            from < to <= self.tokens().len(),
        ensures
            out@ == joined(self.tokens(), from as int, to as int),
    {
        let n = self.spans.len();
        let mut out: Vec<char> = Vec::new();
        append(&mut out, self.text(from));
        assert(out@ =~= self.tokens()[from as int].text);
        let mut i: usize = from + 1;
        while i < to
            invariant
                self.well_formed(),
                from < i <= to <= self.tokens().len(),
                out@ == joined(self.tokens(), from as int, i as int),
            decreases to - i,
        {
            append(&mut out, self.lead(i));
            append(&mut out, self.text(i));
            i = i + 1;
        }
        out
    }

    /// Whether the token `k` behind token `i` is the word `w`.
    pub fn is_word(&self, i: usize, k: usize, w: &str) -> (b: bool)
        requires
            self.well_formed(),
        ensures
            b == is_word(self.tokens(), i + k, w@),
            b ==> i + k < usize::MAX,
    {
        self.has(i, k) && self.spans[i + k].kind == TokenKind::Word && is_lowered(
            self.text(i + k),
            w,
        )
    }

    /// Whether the token `k` behind token `i` is the symbol `c`.
    pub fn is_symbol(&self, i: usize, k: usize, c: char) -> (b: bool)
        requires
            self.well_formed(),
        ensures
            b == is_symbol(self.tokens(), i + k, c),
            b ==> i + k < usize::MAX,
    {
        if !self.has(i, k) || self.spans[i + k].kind != TokenKind::Symbol {
            return false;
        }
        let part = self.text(i + k);
        let same = part.len() == 1 && part[0] == c;
        assert(same == (part@ =~= seq![c]));
        same
    }

    /// Whether the token `k` behind token `i` is a word or quoted text.
    pub fn is_name(&self, i: usize, k: usize) -> (b: bool)
        ensures
            b == is_name(self.tokens(), i + k),
            b ==> i + k < usize::MAX,
    {
        self.has(i, k) && self.spans[i + k].kind != TokenKind::Symbol
    }

    /// Whether the token `k` behind token `i` is a name that begins with
    /// `prefix`.
    pub fn is_name_with(&self, i: usize, k: usize, prefix: &str) -> (b: bool)
        requires
            self.well_formed(),
        ensures
            b == is_name_with(self.tokens(), i + k, prefix@),
            b ==> i + k < usize::MAX,
    {
        if !self.is_name(i, k) {
            return false;
        }
        let part = self.text(i + k);
        let from: usize = if self.spans[i + k].kind == TokenKind::Quoted && part.len() > 0 {
            1
        } else {
            0
        };
        let wanted = text::to_chars(prefix);
        if part.len() - from < wanted.len() {
            return false;
        }
        let head = vstd::slice::slice_subrange(part, from, from + wanted.len());
        assert(head@ =~= unquoted(self.tokens()[i + k]).take(prefix@.len() as int));
        is_lowered(head, prefix)
    }
}

} // verus!
