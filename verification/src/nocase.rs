//! Collations that ignore case. A sort term with one is sorted in lower case,
//! and in a comparison with one both sides are compared in lower case.

use vstd::prelude::*;

use crate::keywords;
use crate::keywords::{copy_two, Edit, Replacement};
use crate::sql_lexer;
use crate::sql_lexer::{append, append_str, Lexed};

verus! {

/// `COLLATE NOCASE` stands at token `i`.
pub open spec fn is_nocase(ts: Seq<sql_lexer::Tok>, i: int) -> bool {
    &&& sql_lexer::is_word(ts, i, "collate"@)
    &&& sql_lexer::is_word(ts, i + 1, "nocase"@)
    &&& !sql_lexer::is_symbol(ts, i - 1, '.')
}

fn at_nocase(lx: &Lexed, i: usize) -> (b: bool)
    requires
        lx.well_formed(),
    ensures
        b == is_nocase(lx.tokens(), i as int),
        b ==> i + 2 <= lx.tokens().len(),
{
    lx.is_word(i, 0, "collate") && lx.is_word(i, 1, "nocase") && !(i > 0 && lx.is_symbol(
        i - 1,
        0,
        '.',
    ))
}

/// Token `i` opens something that a token closes.
pub open spec fn is_opening(ts: Seq<sql_lexer::Tok>, i: int) -> bool {
    sql_lexer::is_symbol(ts, i, '(') || sql_lexer::is_word(ts, i, "case"@)
}

/// Token `i` closes what a token opened.
pub open spec fn is_closing(ts: Seq<sql_lexer::Tok>, i: int) -> bool {
    sql_lexer::is_symbol(ts, i, ')') || sql_lexer::is_word(ts, i, "end"@)
}

/// Token `i` is the second word of `ORDER BY`.
pub open spec fn is_order_by(ts: Seq<sql_lexer::Tok>, i: int) -> bool {
    sql_lexer::is_word(ts, i, "by"@) && sql_lexer::is_word(ts, i - 1, "order"@)
}

/// Token `i` belongs to no `ORDER BY`, and neither does what follows it.
pub open spec fn leaves_order_by(ts: Seq<sql_lexer::Tok>, i: int) -> bool {
    ||| sql_lexer::is_symbol(ts, i, ';')
    ||| sql_lexer::is_word(ts, i, "select"@)
    ||| sql_lexer::is_word(ts, i, "from"@)
    ||| sql_lexer::is_word(ts, i, "where"@)
    ||| sql_lexer::is_word(ts, i, "having"@)
    ||| sql_lexer::is_word(ts, i, "limit"@)
    ||| sql_lexer::is_word(ts, i, "rows"@)
    ||| sql_lexer::is_word(ts, i, "range"@)
}

/// Token `i` ends a sort term or what is sorted by in it.
pub open spec fn ends_sort_term(ts: Seq<sql_lexer::Tok>, i: int) -> bool {
    ||| sql_lexer::is_symbol(ts, i, ',')
    ||| sql_lexer::is_word(ts, i, "asc"@)
    ||| sql_lexer::is_word(ts, i, "desc"@)
    ||| sql_lexer::is_word(ts, i, "nulls"@)
    ||| is_order_by(ts, i)
    ||| leaves_order_by(ts, i)
}

fn opening(lx: &Lexed, i: usize) -> (b: bool)
    requires
        lx.well_formed(),
    ensures
        b == is_opening(lx.tokens(), i as int),
{
    lx.is_symbol(i, 0, '(') || lx.is_word(i, 0, "case")
}

fn closing(lx: &Lexed, i: usize) -> (b: bool)
    requires
        lx.well_formed(),
    ensures
        b == is_closing(lx.tokens(), i as int),
{
    lx.is_symbol(i, 0, ')') || lx.is_word(i, 0, "end")
}

fn order_left(lx: &Lexed, i: usize) -> (b: bool)
    requires
        lx.well_formed(),
    ensures
        b == leaves_order_by(lx.tokens(), i as int),
{
    lx.is_symbol(i, 0, ';') || lx.is_word(i, 0, "select") || lx.is_word(i, 0, "from")
        || lx.is_word(i, 0, "where") || lx.is_word(i, 0, "having") || lx.is_word(i, 0, "limit")
        || lx.is_word(i, 0, "rows") || lx.is_word(i, 0, "range")
}

fn term_ended(lx: &Lexed, i: usize) -> (b: bool)
    requires
        lx.well_formed(),
    ensures
        b == ends_sort_term(lx.tokens(), i as int),
{
    lx.is_symbol(i, 0, ',') || lx.is_word(i, 0, "asc") || lx.is_word(i, 0, "desc") || lx.is_word(
        i,
        0,
        "nulls",
    ) || (lx.is_word(i, 0, "by") && i > 0 && lx.is_word(i - 1, 0, "order")) || order_left(lx, i)
}

/// Where the sort term starts that the place behind token `i` belongs to, -1 if
/// it belongs to none. `depth` is how many closings were passed on the way back
/// from there, and `start` where the term starts, once its comma was passed.
/// Parentheses with which a sort term begins hold a sort term too.
pub open spec fn sort_term(ts: Seq<sql_lexer::Tok>, i: int, depth: int, start: int) -> int
    decreases i + 1,
{
    if i < 0 || i >= ts.len() {
        -1
    } else if is_closing(ts, i) {
        sort_term(ts, i - 1, depth + 1, start)
    } else if is_opening(ts, i) {
        if depth > 0 {
            sort_term(ts, i - 1, depth - 1, start)
        } else if start == -1 && sql_lexer::is_symbol(ts, i, '(') && sort_term(ts, i - 1, 0, -1)
            == i {
            i + 1
        } else {
            -1
        }
    } else if depth > 0 {
        sort_term(ts, i - 1, depth, start)
    } else if is_order_by(ts, i) {
        if start == -1 {
            i + 1
        } else {
            start
        }
    } else if leaves_order_by(ts, i) {
        -1
    } else if start == -1 && sql_lexer::is_symbol(ts, i, ',') {
        sort_term(ts, i - 1, 0, i + 1)
    } else {
        sort_term(ts, i - 1, depth, start)
    }
}

/// The sort term that token `i` belongs to.
pub open spec fn term_of(ts: Seq<sql_lexer::Tok>, i: int) -> int {
    sort_term(ts, i - 1, 0, -1)
}

/// The first `COLLATE NOCASE` from token `i` on in its sort term, outside
/// whatever is opened from there on; -1 if there is none.
pub open spec fn nocase_at(ts: Seq<sql_lexer::Tok>, i: int, depth: int) -> int
    decreases ts.len() - i,
{
    if i < 0 || i >= ts.len() {
        -1
    } else if is_closing(ts, i) {
        if depth <= 0 {
            -1
        } else {
            nocase_at(ts, i + 1, depth - 1)
        }
    } else if is_opening(ts, i) {
        nocase_at(ts, i + 1, depth + 1)
    } else if depth > 0 {
        nocase_at(ts, i + 1, depth)
    } else if is_nocase(ts, i) {
        i
    } else if ends_sort_term(ts, i) {
        -1
    } else {
        nocase_at(ts, i + 1, depth)
    }
}

/// What is found there is a `COLLATE NOCASE`.
pub proof fn lemma_nocase_at(ts: Seq<sql_lexer::Tok>, i: int, depth: int)
    requires
        0 <= i,
    ensures
        nocase_at(ts, i, depth) == -1 || i <= nocase_at(ts, i, depth) && is_nocase(
            ts,
            nocase_at(ts, i, depth),
        ),
    decreases ts.len() - i,
{
    if i < ts.len() {
        lemma_nocase_at(ts, i + 1, depth + 1);
        lemma_nocase_at(ts, i + 1, depth);
        lemma_nocase_at(ts, i + 1, depth - 1);
    }
}

fn find_term(lx: &Lexed, n: usize) -> (term: Option<usize>)
    requires
        lx.well_formed(),
        n <= lx.tokens().len(),
    ensures
        term is None == (term_of(lx.tokens(), n as int) == -1),
        term is Some ==> term->0 == term_of(lx.tokens(), n as int) && term->0 <= n,
    decreases n,
{
    let mut i: usize = n;
    let mut depth: usize = 0;
    let mut start: Option<usize> = None;
    while i > 0
        invariant
            lx.well_formed(),
            i <= n <= lx.tokens().len(),
            depth <= n - i,
            start is Some ==> i < start->0 <= n,
            sort_term(
                lx.tokens(),
                i - 1,
                depth as int,
                match start {
                    Some(t) => t as int,
                    None => -1,
                },
            ) == term_of(lx.tokens(), n as int),
        decreases i,
    {
        i = i - 1;
        if closing(lx, i) {
            depth = depth + 1;
        } else if opening(lx, i) {
            if depth > 0 {
                depth = depth - 1;
            } else {
                if start.is_none() && lx.is_symbol(i, 0, '(') {
                    if let Some(outer) = find_term(lx, i) {
                        if outer == i {
                            return Some(i + 1);
                        }
                    }
                }
                return None;
            }
        } else if depth > 0 {
        } else if lx.is_word(i, 0, "by") && i > 0 && lx.is_word(i - 1, 0, "order") {
            return match start {
                Some(t) => Some(t),
                None => Some(i + 1),
            };
        } else if order_left(lx, i) {
            return None;
        } else if start.is_none() && lx.is_symbol(i, 0, ',') {
            start = Some(i + 1);
        }
    }
    None
}

fn find_nocase(lx: &Lexed, from: usize) -> (at: Option<usize>)
    requires
        lx.well_formed(),
        from <= lx.tokens().len(),
    ensures
        at is None == (nocase_at(lx.tokens(), from as int, 0) == -1),
        at is Some ==> at->0 == nocase_at(lx.tokens(), from as int, 0),
{
    let n = lx.spans.len();
    let mut i: usize = from;
    let mut depth: usize = 0;
    while i < n
        invariant
            lx.well_formed(),
            n == lx.tokens().len(),
            from <= i <= n,
            depth <= i - from,
            nocase_at(lx.tokens(), i as int, depth as int) == nocase_at(lx.tokens(), from as int, 0),
        decreases n - i,
    {
        if closing(lx, i) {
            if depth == 0 {
                return None;
            }
            depth = depth - 1;
        } else if opening(lx, i) {
            depth = depth + 1;
        } else if depth > 0 {
        } else if at_nocase(lx, i) {
            return Some(i);
        } else if term_ended(lx, i) {
            return None;
        }
        i = i + 1;
    }
    None
}

/// A sort term starts at token `i`, and what is sorted by in it ends with a
/// `COLLATE NOCASE`.
pub open spec fn opens_lower(ts: Seq<sql_lexer::Tok>, i: int) -> bool {
    term_of(ts, i) == i && nocase_at(ts, i, 0) > i
}

/// The `COLLATE NOCASE` at token `i` ends what is sorted by in a sort term.
pub open spec fn closes_lower(ts: Seq<sql_lexer::Tok>, i: int) -> bool {
    let start = term_of(ts, i);
    start != -1 && start < i && nocase_at(ts, start, 0) == i
}

/// How many tokens a value by itself takes at `i`, zero if there is none:
/// quoted text, or a word that is no number, or a column of a table.
pub open spec fn operand_len(ts: Seq<sql_lexer::Tok>, i: int) -> int {
    if !(sql_lexer::is_name(ts, i) && ts[i].text.len() > 0 && !('0' <= ts[i].text[0] <= '9')) {
        0
    } else if sql_lexer::is_symbol(ts, i + 1, '.') {
        if sql_lexer::is_name(ts, i + 2) {
            3
        } else {
            0
        }
    } else {
        1
    }
}

fn find_operand(lx: &Lexed, i: usize) -> (n: usize)
    requires
        lx.well_formed(),
        i <= lx.tokens().len(),
    ensures
        n == operand_len(lx.tokens(), i as int),
        i + n <= lx.tokens().len(),
{
    if !lx.is_name(i, 0) {
        return 0;
    }
    let part = lx.text(i);
    if part.len() == 0 || ('0' <= part[0] && part[0] <= '9') {
        return 0;
    }
    if lx.is_symbol(i, 1, '.') {
        if lx.is_name(i, 2) {
            3
        } else {
            0
        }
    } else {
        1
    }
}

/// Token `i + 1` is the symbol `c` and stands directly behind token `i`.
pub open spec fn goes_on_with(ts: Seq<sql_lexer::Tok>, i: int, c: char) -> bool {
    sql_lexer::is_symbol(ts, i + 1, c) && ts[i + 1].lead.len() == 0
}

/// How many tokens an operator that compares takes at `i`, zero if there is
/// none.
pub open spec fn comparison_len(ts: Seq<sql_lexer::Tok>, i: int) -> int {
    let equals = sql_lexer::is_symbol(ts, i, '=');
    let less = sql_lexer::is_symbol(ts, i, '<');
    let more = sql_lexer::is_symbol(ts, i, '>');
    if (equals || less || more || sql_lexer::is_symbol(ts, i, '!')) && goes_on_with(ts, i, '=') {
        2
    } else if less && goes_on_with(ts, i, '>') {
        2
    } else if equals || less || more {
        1
    } else {
        0
    }
}

fn find_comparison_op(lx: &Lexed, i: usize) -> (n: usize)
    requires
        lx.well_formed(),
        i <= lx.tokens().len(),
    ensures
        n == comparison_len(lx.tokens(), i as int),
        i + n <= lx.tokens().len(),
{
    let equals = lx.is_symbol(i, 0, '=');
    let less = lx.is_symbol(i, 0, '<');
    let more = lx.is_symbol(i, 0, '>');
    let joined = lx.has(i, 1) && lx.lead(i + 1).len() == 0;
    if (equals || less || more || lx.is_symbol(i, 0, '!')) && joined && lx.is_symbol(i, 1, '=') {
        2
    } else if less && joined && lx.is_symbol(i, 1, '>') {
        2
    } else if equals || less || more {
        1
    } else {
        0
    }
}

/// A comparison may begin at token `i`: at the beginning, or behind a token
/// that binds less than one.
pub open spec fn may_begin(ts: Seq<sql_lexer::Tok>, i: int) -> bool {
    ||| i == 0
    ||| sql_lexer::is_symbol(ts, i - 1, '(')
    ||| sql_lexer::is_symbol(ts, i - 1, ',')
    ||| sql_lexer::is_word(ts, i - 1, "where"@)
    ||| sql_lexer::is_word(ts, i - 1, "and"@)
    ||| sql_lexer::is_word(ts, i - 1, "or"@)
    ||| sql_lexer::is_word(ts, i - 1, "not"@)
    ||| sql_lexer::is_word(ts, i - 1, "on"@)
    ||| sql_lexer::is_word(ts, i - 1, "having"@)
    ||| sql_lexer::is_word(ts, i - 1, "when"@)
    ||| sql_lexer::is_word(ts, i - 1, "select"@)
    ||| sql_lexer::is_word(ts, i - 1, "by"@)
}

fn begins(lx: &Lexed, i: usize) -> (b: bool)
    requires
        lx.well_formed(),
    ensures
        b == may_begin(lx.tokens(), i as int),
{
    if i == 0 {
        return true;
    }
    let k = i - 1;
    lx.is_symbol(k, 0, '(') || lx.is_symbol(k, 0, ',') || lx.is_word(k, 0, "where") || lx.is_word(
        k,
        0,
        "and",
    ) || lx.is_word(k, 0, "or") || lx.is_word(k, 0, "not") || lx.is_word(k, 0, "on") || lx.is_word(
        k,
        0,
        "having",
    ) || lx.is_word(k, 0, "when") || lx.is_word(k, 0, "select") || lx.is_word(k, 0, "by")
}

/// A comparison may end before token `i`: at the end, or before a token that
/// binds less than one.
pub open spec fn may_end(ts: Seq<sql_lexer::Tok>, i: int) -> bool {
    ||| i >= ts.len()
    ||| is_closing(ts, i)
    ||| ends_sort_term(ts, i)
    ||| sql_lexer::is_word(ts, i, "and"@)
    ||| sql_lexer::is_word(ts, i, "or"@)
    ||| sql_lexer::is_word(ts, i, "then"@)
    ||| sql_lexer::is_word(ts, i, "order"@)
    ||| sql_lexer::is_word(ts, i, "group"@)
    ||| sql_lexer::is_word(ts, i, "union"@)
    ||| sql_lexer::is_word(ts, i, "join"@)
    ||| sql_lexer::is_word(ts, i, "left"@)
    ||| sql_lexer::is_word(ts, i, "inner"@)
}

fn ended(lx: &Lexed, i: usize) -> (b: bool)
    requires
        lx.well_formed(),
    ensures
        b == may_end(lx.tokens(), i as int),
{
    i >= lx.spans.len() || closing(lx, i) || term_ended(lx, i) || lx.is_word(i, 0, "and")
        || lx.is_word(i, 0, "or") || lx.is_word(i, 0, "then") || lx.is_word(i, 0, "order")
        || lx.is_word(i, 0, "group") || lx.is_word(i, 0, "union") || lx.is_word(i, 0, "join")
        || lx.is_word(i, 0, "left") || lx.is_word(i, 0, "inner")
}

/// The parts of a comparison: where its operator starts, where its right side
/// starts and ends, and where the whole ends.
pub ghost struct Comparison {
    pub operator: int,
    pub right: int,
    pub right_end: int,
    pub end: int,
}

/// The token behind a `COLLATE NOCASE` that may stand at `i`.
pub open spec fn behind_nocase(ts: Seq<sql_lexer::Tok>, i: int) -> int {
    if is_nocase(ts, i) {
        i + 2
    } else {
        i
    }
}

/// The parts of what begins at token `i`, as those of a comparison.
pub open spec fn parts_at(ts: Seq<sql_lexer::Tok>, i: int) -> Comparison {
    let operator = behind_nocase(ts, i + operand_len(ts, i));
    let right = operator + comparison_len(ts, operator);
    let right_end = right + operand_len(ts, right);
    Comparison { operator, right, right_end, end: behind_nocase(ts, right_end) }
}

/// Two values by themselves are compared at token `i`, at least one of them
/// with `COLLATE NOCASE`.
pub open spec fn is_comparison(ts: Seq<sql_lexer::Tok>, i: int) -> bool {
    let c = parts_at(ts, i);
    &&& operand_len(ts, i) > 0
    &&& c.operator < c.right < c.right_end
    &&& is_nocase(ts, i + operand_len(ts, i)) || is_nocase(ts, c.right_end)
    &&& may_begin(ts, i)
    &&& may_end(ts, c.end)
    &&& term_of(ts, i) == -1 || term_of(ts, i) == i
}

/// That comparison, with both sides in lower case.
pub open spec fn lowered_comparison(ts: Seq<sql_lexer::Tok>, i: int) -> Seq<char> {
    let c = parts_at(ts, i);
    ts[i].lead + "LOWER("@ + sql_lexer::joined(ts, i, i + operand_len(ts, i)) + ")"@
        + ts[c.operator].lead + sql_lexer::joined(ts, c.operator, c.right) + ts[c.right].lead
        + "LOWER("@ + sql_lexer::joined(ts, c.right, c.right_end) + ")"@
}

fn apply_comparison(lx: &Lexed, i: usize) -> (done: Option<Replacement>)
    requires
        lx.well_formed(),
        i < lx.tokens().len(),
    ensures
        match done {
            Some(r) => is_comparison(lx.tokens(), i as int) && r.taken == parts_at(lx.tokens(), i as int).end - i
                && r.text@ == lowered_comparison(lx.tokens(), i as int),
            None => !is_comparison(lx.tokens(), i as int),
        },
{
    let n = lx.spans.len();
    assert(n == lx.tokens().len());
    let left = find_operand(lx, i);
    if left == 0 {
        return None;
    }
    let left_end = i + left;
    let first = at_nocase(lx, left_end);
    let operator = if first {
        left_end + 2
    } else {
        left_end
    };
    let sign = find_comparison_op(lx, operator);
    if sign == 0 {
        return None;
    }
    let right = operator + sign;
    let right_len = find_operand(lx, right);
    if right_len == 0 {
        return None;
    }
    let right_end = right + right_len;
    let second = at_nocase(lx, right_end);
    let end = if second {
        right_end + 2
    } else {
        right_end
    };
    if !(first || second) || !begins(lx, i) || !ended(lx, end) {
        return None;
    }
    if let Some(term) = find_term(lx, i) {
        if term != i {
            return None;
        }
    }
    let mut out: Vec<char> = Vec::new();
    append(&mut out, lx.lead(i));
    append_str(&mut out, "LOWER(");
    let part = lx.join(i, left_end);
    append(&mut out, part.as_slice());
    append_str(&mut out, ")");
    append(&mut out, lx.lead(operator));
    let part = lx.join(operator, right);
    append(&mut out, part.as_slice());
    append(&mut out, lx.lead(right));
    append_str(&mut out, "LOWER(");
    let part = lx.join(right, right_end);
    append(&mut out, part.as_slice());
    append_str(&mut out, ")");
    assert(out@ =~= lowered_comparison(lx.tokens(), i as int));
    Some(Replacement { taken: end - i, text: out })
}

/// The rule for `COLLATE NOCASE`: both sides of a comparison, and what is sorted
/// by, are taken in lower case; elsewhere the collation is dropped.
pub open spec fn nocase_rule(ts: Seq<sql_lexer::Tok>, i: int) -> Option<Edit> {
    if is_comparison(ts, i) {
        Some(Edit { taken: parts_at(ts, i).end - i, text: lowered_comparison(ts, i) })
    } else if opens_lower(ts, i) {
        Some(Edit { taken: 1, text: ts[i].lead + "LOWER("@ + ts[i].text })
    } else if is_nocase(ts, i) {
        Some(
            Edit {
                taken: 2,
                text: if closes_lower(ts, i) {
                    ")"@
                } else {
                    Seq::empty()
                },
            },
        )
    } else if sql_lexer::is_symbol(ts, i, '.') && sql_lexer::is_name(ts, i + 1) {
        Some(Edit { taken: 2, text: keywords::two_tokens(ts, i) })
    } else {
        None
    }
}

pub(crate) fn apply_nocase_rule(lx: &Lexed, i: usize) -> (done: Option<Replacement>)
    requires
        lx.well_formed(),
        i < lx.tokens().len(),
    ensures
        keywords::agrees(done, nocase_rule(lx.tokens(), i as int)),
{
    let compared = apply_comparison(lx, i);
    if compared.is_some() {
        return compared;
    }
    let term = find_term(lx, i);
    let mut out: Vec<char> = Vec::new();
    assert(out@ =~= Seq::empty());
    if let Some(start) = term {
        if start == i {
            if let Some(at) = find_nocase(lx, i) {
                if at > i {
                    append(&mut out, lx.lead(i));
                    append_str(&mut out, "LOWER(");
                    append(&mut out, lx.text(i));
                    assert(out@ =~= lx.tokens()[i as int].lead + "LOWER("@ + lx.tokens()[i as int].text);
                    return Some(Replacement { taken: 1, text: out });
                }
            }
        }
    }
    if at_nocase(lx, i) {
        if let Some(start) = term {
            if start < i {
                if let Some(at) = find_nocase(lx, start) {
                    if at == i {
                        append_str(&mut out, ")");
                        assert(out@ =~= ")"@);
                    }
                }
            }
        }
        return Some(Replacement { taken: 2, text: out });
    }
    if lx.is_symbol(i, 0, '.') && lx.is_name(i, 1) {
        let copy = copy_two(lx, i);
        return Some(Replacement { taken: 2, text: copy });
    }
    None
}

proof fn lemma_term_reaches_nocase(ts: Seq<sql_lexer::Tok>, k: int, depth: int)
    requires
        0 <= k,
        0 <= depth,
        nocase_at(ts, k, depth) != -1,
    ensures
        term_of(ts, nocase_at(ts, k, depth)) == sort_term(ts, k - 1, depth, -1),
    decreases ts.len() - k,
{
    if is_closing(ts, k) {
        lemma_term_reaches_nocase(ts, k + 1, depth - 1);
    } else if is_opening(ts, k) {
        lemma_term_reaches_nocase(ts, k + 1, depth + 1);
    } else if depth > 0 || !is_nocase(ts, k) {
        lemma_term_reaches_nocase(ts, k + 1, depth);
    }
}

proof fn lemma_term_starts_itself(ts: Seq<sql_lexer::Tok>, i: int, depth: int, start: int)
    requires
        start != -1 ==> term_of(ts, start) == sort_term(ts, i, depth, start),
        start >= -1,
        depth >= 0,
    ensures
        sort_term(ts, i, depth, start) != -1 ==> term_of(ts, sort_term(ts, i, depth, start))
            == sort_term(ts, i, depth, start),
    decreases i + 1,
{
    if 0 <= i < ts.len() {
        if is_closing(ts, i) {
            lemma_term_starts_itself(ts, i - 1, depth + 1, start);
        } else if is_opening(ts, i) {
            if depth > 0 {
                lemma_term_starts_itself(ts, i - 1, depth - 1, start);
            }
        } else if depth > 0 {
            lemma_term_starts_itself(ts, i - 1, depth, start);
        } else if is_order_by(ts, i) || leaves_order_by(ts, i) {
        } else if start == -1 && sql_lexer::is_symbol(ts, i, ',') {
            lemma_term_starts_itself(ts, i - 1, 0, i + 1);
        } else {
            lemma_term_starts_itself(ts, i - 1, depth, start);
        }
    }
}

/// What is opened for a sort term is closed in it, and nothing else is: the
/// `COLLATE NOCASE` that a term is opened for closes it, and one that closes
/// closes the term that was opened.
pub proof fn law_every_lower_is_closed(ts: Seq<sql_lexer::Tok>, i: int)
    requires
        0 <= i < ts.len(),
    ensures
        opens_lower(ts, i) ==> closes_lower(ts, nocase_at(ts, i, 0)),
        closes_lower(ts, i) ==> opens_lower(ts, term_of(ts, i)) && nocase_at(
            ts,
            term_of(ts, i),
            0,
        ) == i,
{
    if opens_lower(ts, i) {
        lemma_term_reaches_nocase(ts, i, 0);
    }
    lemma_term_starts_itself(ts, i - 1, 0, -1);
}

} // verus!
