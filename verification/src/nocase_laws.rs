//! What becomes of `COLLATE NOCASE`, said of the text that is written.

use vstd::prelude::*;

use crate::keywords;
use crate::keywords::Pass;
use crate::nocase;
use crate::sql_lexer;
use crate::sql_lexer::{Tok, TokenKind};

verus! {

/// What the walk over the collations makes of the tokens from `i` on.
pub open spec fn written(ts: Seq<Tok>, i: int) -> Seq<char> {
    keywords::rewritten(Pass::LowerNocase, ts, i)
}

/// `COLLATE NOCASE` stands at token `i`, and no dot before it.
pub open spec fn ignores_case(ts: Seq<Tok>, i: int) -> bool {
    &&& sql_lexer::is_word(ts, i, "collate"@)
    &&& sql_lexer::is_word(ts, i + 1, "nocase"@)
    &&& !sql_lexer::is_symbol(ts, i - 1, '.')
}

/// Token `i` is a symbol with which an operator that compares begins.
pub open spec fn compares(ts: Seq<Tok>, i: int) -> bool {
    ||| sql_lexer::is_symbol(ts, i, '=')
    ||| sql_lexer::is_symbol(ts, i, '<')
    ||| sql_lexer::is_symbol(ts, i, '>')
    ||| sql_lexer::is_symbol(ts, i, '!')
}

/// `ORDER BY` stands at tokens `i - 1` and `i`.
pub open spec fn orders(ts: Seq<Tok>, i: int) -> bool {
    sql_lexer::is_word(ts, i - 1, "order"@) && sql_lexer::is_word(ts, i, "by"@)
}

/// Token `i` may stand within the terms of an `ORDER BY`: it opens and closes
/// nothing and starts no other clause.
pub open spec fn stays_in_order_by(ts: Seq<Tok>, i: int) -> bool {
    &&& !sql_lexer::is_symbol(ts, i, '(') && !sql_lexer::is_symbol(ts, i, ')')
    &&& !sql_lexer::is_word(ts, i, "case"@) && !sql_lexer::is_word(ts, i, "end"@)
    &&& !sql_lexer::is_symbol(ts, i, ';')
    &&& !sql_lexer::is_word(ts, i, "select"@) && !sql_lexer::is_word(ts, i, "from"@)
    &&& !sql_lexer::is_word(ts, i, "where"@) && !sql_lexer::is_word(ts, i, "having"@)
    &&& !sql_lexer::is_word(ts, i, "limit"@) && !sql_lexer::is_word(ts, i, "rows"@)
    &&& !sql_lexer::is_word(ts, i, "range"@)
    &&& !orders(ts, i)
}

/// Token `i` may stand within what is sorted by in one sort term.
pub open spec fn stays_in_term(ts: Seq<Tok>, i: int) -> bool {
    &&& stays_in_order_by(ts, i)
    &&& !sql_lexer::is_symbol(ts, i, ',')
    &&& !sql_lexer::is_word(ts, i, "asc"@) && !sql_lexer::is_word(ts, i, "desc"@)
    &&& !sql_lexer::is_word(ts, i, "nulls"@)
}

proof fn lemma_words_of_by()
    ensures
        "by"@.len() == 2,
        "case"@.len() == 4 && "case"@[0] == 'c',
        "end"@.len() == 3 && "end"@[0] == 'e',
        "collate"@.len() == 7 && "collate"@[0] == 'c',
        "asc"@.len() == 3 && "asc"@[0] == 'a',
        "desc"@.len() == 4 && "desc"@[0] == 'd',
        "nulls"@.len() == 5,
        "select"@.len() == 6,
        "from"@.len() == 4 && "from"@[0] == 'f',
        "where"@.len() == 5,
        "having"@.len() == 6,
        "limit"@.len() == 5,
        "rows"@.len() == 4 && "rows"@[0] == 'r',
        "range"@.len() == 5,
{
    reveal_strlit("by");
    reveal_strlit("case");
    reveal_strlit("end");
    reveal_strlit("collate");
    reveal_strlit("asc");
    reveal_strlit("desc");
    reveal_strlit("nulls");
    reveal_strlit("select");
    reveal_strlit("from");
    reveal_strlit("where");
    reveal_strlit("having");
    reveal_strlit("limit");
    reveal_strlit("rows");
    reveal_strlit("range");
}

/// Going back from within the terms of an `ORDER BY` leads to it.
proof fn lemma_back_to_order_by(ts: Seq<Tok>, order: int, i: int, start: int)
    requires
        orders(ts, order),
        order <= i < ts.len(),
        start != -1,
        forall|k: int| order < k <= i ==> #[trigger] stays_in_order_by(ts, k),
    ensures
        nocase::sort_term(ts, i, 0, start) == start,
    decreases i,
{
    lemma_words_of_by();
    if i > order {
        assert(stays_in_order_by(ts, i));
        lemma_back_to_order_by(ts, order, i - 1, start);
    }
}

/// Going back from within a sort term leads to its start.
proof fn lemma_back_to_term(ts: Seq<Tok>, order: int, start: int, i: int)
    requires
        orders(ts, order),
        order < start,
        start - 1 <= i < ts.len(),
        start == order + 1 || sql_lexer::is_symbol(ts, start - 1, ','),
        forall|k: int| order < k <= i ==> #[trigger] stays_in_order_by(ts, k),
        forall|k: int| start <= k <= i ==> !sql_lexer::is_symbol(ts, k, ','),
    ensures
        nocase::sort_term(ts, i, 0, -1) == start,
    decreases i,
{
    lemma_words_of_by();
    assert(seq![','][0] == ',' && seq!['('][0] == '(' && seq![')'][0] == ')' && seq![';'][0] == ';');
    if i == start - 1 {
        if start > order + 1 {
            assert(stays_in_order_by(ts, i));
            lemma_back_to_order_by(ts, order, i - 1, start);
        }
    } else {
        assert(stays_in_order_by(ts, i));
        lemma_back_to_term(ts, order, start, i - 1);
    }
}

/// Going on from within a sort term leads to its collation.
proof fn lemma_on_to_collation(ts: Seq<Tok>, i: int, end: int)
    requires
        0 <= i <= end,
        ignores_case(ts, end),
        forall|k: int| i <= k < end ==> #[trigger] stays_in_term(ts, k) && !ignores_case(ts, k),
    ensures
        nocase::nocase_at(ts, i, 0) == end,
    decreases end - i,
{
    lemma_words_of_by();
    if i < end {
        assert(stays_in_term(ts, i));
        lemma_on_to_collation(ts, i + 1, end);
    }
}

/// A sort term that ends with `COLLATE NOCASE` is sorted in lower case: what is
/// sorted by stands between `LOWER(` and `)`, and the collation is gone. It is so
/// for every term of an `ORDER BY`, the first and those behind a comma.
pub proof fn law_sort_term_is_lowered(ts: Seq<Tok>, order: int, start: int, end: int)
    requires
        orders(ts, order),
        order < start < end,
        start == order + 1 || sql_lexer::is_symbol(ts, start - 1, ','),
        ignores_case(ts, end),
        forall|k: int| order < k < end ==> #[trigger] stays_in_order_by(ts, k),
        forall|k: int| start <= k < end ==> #[trigger] stays_in_term(ts, k),
        forall|k: int| start <= k < end ==> !#[trigger] ignores_case(ts, k),
        forall|k: int| start <= k <= end + 2 ==> !#[trigger] compares(ts, k),
    ensures
        written(ts, start) == ts[start].lead + seq!['L', 'O', 'W', 'E', 'R', '('] + ts[start].text
            + written(ts, start + 1),
        written(ts, end) == seq![')'] + written(ts, end + 2),
        nocase::term_of(ts, start) == start,
        nocase::term_of(ts, end) == start,
{
    lemma_words_of_by();
    lemma_back_to_term(ts, order, start, start - 1);
    assert forall|k: int| start <= k <= end - 1 implies !sql_lexer::is_symbol(ts, k, ',') by {
        assert(stays_in_term(ts, k));
    }
    lemma_back_to_term(ts, order, start, end - 1);
    assert forall|k: int| start <= k < end implies #[trigger] stays_in_term(ts, k)
        && !ignores_case(ts, k) by {
        assert(stays_in_term(ts, k));
        assert(!ignores_case(ts, k));
    }
    lemma_on_to_collation(ts, start, end);
    lemma_no_comparison(ts, start, end);
    reveal_strlit("LOWER(");
    reveal_strlit(")");
    assert("LOWER("@ =~= seq!['L', 'O', 'W', 'E', 'R', '(']);
    assert(")"@ =~= seq![')']);
    assert(!nocase::opens_lower(ts, end));
}

/// Neither a sort term without an operator that compares nor its collation is a
/// comparison.
proof fn lemma_no_comparison(ts: Seq<Tok>, start: int, end: int)
    requires
        0 <= start < end,
        ignores_case(ts, end),
        forall|k: int| start <= k < end ==> !#[trigger] ignores_case(ts, k),
        forall|k: int| start <= k <= end + 2 ==> !#[trigger] compares(ts, k),
    ensures
        !nocase::is_comparison(ts, start),
        !nocase::is_comparison(ts, end),
{
    lemma_words_of_by();
    reveal_strlit("nocase");
    assert("nocase"@.len() == 6);
    assert(seq!['.'][0] == '.');
    let c = nocase::parts_at(ts, start);
    if nocase::is_comparison(ts, start) {
        let n = nocase::operand_len(ts, start);
        assert(nocase::comparison_len(ts, c.operator) > 0);
        if n == 3 {
            assert(sql_lexer::is_symbol(ts, start + 1, '.'));
            assert(end != start + 1);
            assert(end != start + 2);
        }
        assert(start + n <= end);
        if start + n < end {
            assert(!ignores_case(ts, start + n));
            assert(c.operator == start + n);
        } else {
            assert(c.operator == end + 2);
        }
        assert(!compares(ts, c.operator));
    }
    let d = nocase::parts_at(ts, end);
    if nocase::is_comparison(ts, end) {
        assert(!sql_lexer::is_symbol(ts, end + 1, '.'));
        assert(nocase::operand_len(ts, end) == 1);
        assert(!nocase::is_nocase(ts, end + 1));
        assert(d.operator == end + 1);
        assert(!compares(ts, d.operator));
        assert(nocase::comparison_len(ts, d.operator) > 0);
    }
}

/// Without an `ORDER BY` before it a token belongs to no sort term.
proof fn lemma_no_term(ts: Seq<Tok>, i: int, depth: int, start: int)
    requires
        forall|k: int| k <= i ==> !#[trigger] orders(ts, k),
    ensures
        nocase::sort_term(ts, i, depth, start) == -1,
    decreases i + 1,
{
    if 0 <= i < ts.len() {
        assert(!orders(ts, i));
        lemma_no_term(ts, i - 1, depth + 1, start);
        lemma_no_term(ts, i - 1, depth - 1, start);
        lemma_no_term(ts, i - 1, depth, start);
        lemma_no_term(ts, i - 1, 0, -1);
        lemma_no_term(ts, i - 1, 0, i + 1);
    }
}

/// Token `i` may stand directly before a comparison: it binds less than one.
pub open spec fn stands_before_a_comparison(ts: Seq<Tok>, i: int) -> bool {
    ||| sql_lexer::is_symbol(ts, i, '(') || sql_lexer::is_symbol(ts, i, ',')
    ||| sql_lexer::is_word(ts, i, "where"@) || sql_lexer::is_word(ts, i, "and"@)
    ||| sql_lexer::is_word(ts, i, "or"@) || sql_lexer::is_word(ts, i, "not"@)
    ||| sql_lexer::is_word(ts, i, "on"@) || sql_lexer::is_word(ts, i, "having"@)
    ||| sql_lexer::is_word(ts, i, "when"@) || sql_lexer::is_word(ts, i, "select"@)
    ||| sql_lexer::is_word(ts, i, "by"@)
}

/// Token `i` may stand directly behind a comparison.
pub open spec fn stands_behind_a_comparison(ts: Seq<Tok>, i: int) -> bool {
    ||| sql_lexer::is_symbol(ts, i, ')') || sql_lexer::is_symbol(ts, i, ';')
    ||| sql_lexer::is_symbol(ts, i, ',') || sql_lexer::is_word(ts, i, "end"@)
    ||| sql_lexer::is_word(ts, i, "and"@) || sql_lexer::is_word(ts, i, "or"@)
    ||| sql_lexer::is_word(ts, i, "then"@) || sql_lexer::is_word(ts, i, "order"@)
    ||| sql_lexer::is_word(ts, i, "group"@) || sql_lexer::is_word(ts, i, "union"@)
    ||| sql_lexer::is_word(ts, i, "join"@) || sql_lexer::is_word(ts, i, "left"@)
    ||| sql_lexer::is_word(ts, i, "inner"@) || sql_lexer::is_word(ts, i, "asc"@)
    ||| sql_lexer::is_word(ts, i, "desc"@) || sql_lexer::is_word(ts, i, "nulls"@)
    ||| sql_lexer::is_word(ts, i, "select"@) || sql_lexer::is_word(ts, i, "from"@)
    ||| sql_lexer::is_word(ts, i, "where"@) || sql_lexer::is_word(ts, i, "having"@)
    ||| sql_lexer::is_word(ts, i, "limit"@) || sql_lexer::is_word(ts, i, "rows"@)
    ||| sql_lexer::is_word(ts, i, "range"@) || orders(ts, i)
}

/// What is compared is what stands by itself: behind anything that binds more
/// than a comparison no comparison begins.
pub proof fn law_part_of_a_value_is_not_compared(ts: Seq<Tok>, i: int)
    requires
        0 < i < ts.len(),
        !stands_before_a_comparison(ts, i - 1),
    ensures
        !nocase::is_comparison(ts, i),
{
}

/// The tokens from `i` on are a value of `n` tokens that stands by itself: a word
/// that is no number, or quoted text, with or without the name of its table
/// before it.
pub open spec fn is_value_of(ts: Seq<Tok>, i: int, n: int) -> bool {
    &&& 0 <= i && i + n <= ts.len()
    &&& n == 1 || n == 3
    &&& ts[i].kind != TokenKind::Symbol
    &&& ts[i].text.len() > 0
    &&& !('0' <= ts[i].text[0] <= '9')
    &&& n == 1 ==> !sql_lexer::is_symbol(ts, i + 1, '.')
    &&& n == 3 ==> sql_lexer::is_symbol(ts, i + 1, '.') && ts[i + 2].kind != TokenKind::Symbol
}

/// The text of such a value, without what stands before it.
pub open spec fn value_text(ts: Seq<Tok>, i: int, n: int) -> Seq<char> {
    if n == 1 {
        ts[i].text
    } else {
        ts[i].text + ts[i + 1].lead + ts[i + 1].text + ts[i + 2].lead + ts[i + 2].text
    }
}

/// The tokens from `i` on are an operator of `n` symbols that compares: one of
/// `=`, `<` and `>`, or two, one directly behind the other.
pub open spec fn is_operator_of(ts: Seq<Tok>, i: int, n: int) -> bool {
    let joined = i + 1 < ts.len() && ts[i + 1].lead.len() == 0;
    &&& 0 <= i && i + n <= ts.len()
    &&& n == 1 || n == 2
    &&& n == 1 ==> {
        &&& sql_lexer::is_symbol(ts, i, '=') || sql_lexer::is_symbol(ts, i, '<')
            || sql_lexer::is_symbol(ts, i, '>')
        &&& !sql_lexer::is_symbol(ts, i + 1, '=') && !sql_lexer::is_symbol(ts, i + 1, '>')
    }
    &&& n == 2 ==> joined && {
        ||| sql_lexer::is_symbol(ts, i + 1, '=') && (sql_lexer::is_symbol(ts, i, '=')
            || sql_lexer::is_symbol(ts, i, '<') || sql_lexer::is_symbol(ts, i, '>')
            || sql_lexer::is_symbol(ts, i, '!'))
        ||| sql_lexer::is_symbol(ts, i, '<') && sql_lexer::is_symbol(ts, i + 1, '>')
    }
}

/// The text of such an operator.
pub open spec fn operator_text(ts: Seq<Tok>, i: int, n: int) -> Seq<char> {
    if n == 1 {
        ts[i].text
    } else {
        ts[i].text + ts[i + 1].text
    }
}

/// Where what follows token `i` stands, once a `COLLATE NOCASE` there is passed.
pub open spec fn behind(ts: Seq<Tok>, i: int) -> int {
    if ignores_case(ts, i) {
        i + 2
    } else {
        i
    }
}

/// Two values that are compared, one of them or both with `COLLATE NOCASE`, are
/// compared in lower case: each stands between `LOWER(` and `)`, the operator and
/// what stood before the three stays, and the collations are gone.
#[verifier::rlimit(40)]
pub proof fn law_comparison_is_lowered(
    ts: Seq<Tok>,
    i: int,
    left: int,
    operator: int,
    sign: int,
    right: int,
    width: int,
    end: int,
)
    requires
        i == 0 || stands_before_a_comparison(ts, i - 1),
        is_value_of(ts, i, left),
        operator == behind(ts, i + left),
        is_operator_of(ts, operator, sign),
        right == operator + sign,
        is_value_of(ts, right, width),
        end == behind(ts, right + width),
        ignores_case(ts, i + left) || ignores_case(ts, right + width),
        end == ts.len() || stands_behind_a_comparison(ts, end),
        forall|k: int| k < i ==> !#[trigger] orders(ts, k),
    ensures
        ({
            let lower = seq!['L', 'O', 'W', 'E', 'R', '('];
            written(ts, i) == ts[i].lead + lower + value_text(ts, i, left) + seq![')']
                + ts[operator].lead + operator_text(ts, operator, sign) + ts[right].lead + lower
                + value_text(ts, right, width) + seq![')'] + written(ts, end)
        }),
{
    lemma_no_term(ts, i - 1, 0, -1);
    reveal_strlit("LOWER(");
    reveal_strlit(")");
    assert("LOWER("@ =~= seq!['L', 'O', 'W', 'E', 'R', '(']);
    assert(")"@ =~= seq![')']);
    assert(seq!['='][0] == '=' && seq!['<'][0] == '<' && seq!['>'][0] == '>' && seq!['!'][0]
        == '!');
    let c = nocase::parts_at(ts, i);
    assert(nocase::operand_len(ts, i) == left);
    assert(c.operator == operator);
    assert(nocase::comparison_len(ts, operator) == sign);
    assert(c.right == right);
    assert(nocase::operand_len(ts, right) == width);
    assert(c.right_end == right + width);
    assert(c.end == end);
    assert(nocase::is_comparison(ts, i));
    lemma_joined_value(ts, i, left);
    lemma_joined_value(ts, right, width);
    lemma_joined_operator(ts, operator, sign);
}

proof fn lemma_joined_value(ts: Seq<Tok>, i: int, n: int)
    requires
        n == 1 || n == 3,
    ensures
        sql_lexer::joined(ts, i, i + n) == value_text(ts, i, n),
{
    reveal_with_fuel(sql_lexer::joined, 4);
}

proof fn lemma_joined_operator(ts: Seq<Tok>, i: int, n: int)
    requires
        n == 1 || n == 2,
        n == 2 ==> ts[i + 1].lead.len() == 0,
    ensures
        sql_lexer::joined(ts, i, i + n) == operator_text(ts, i, n),
{
    reveal_with_fuel(sql_lexer::joined, 3);
    if n == 2 {
        assert(ts[i].text + ts[i + 1].lead + ts[i + 1].text =~= ts[i].text + ts[i + 1].text);
    }
}

/// An operator of two symbols, one directly behind the other, is one operator:
/// both stay.
pub proof fn law_double_operator_is_one(ts: Seq<Tok>, i: int)
    requires
        i + 1 < ts.len(),
        ts[i + 1].lead.len() == 0,
    ensures
        (sql_lexer::is_symbol(ts, i, '=') || sql_lexer::is_symbol(ts, i, '!')
            || sql_lexer::is_symbol(ts, i, '<') || sql_lexer::is_symbol(ts, i, '>'))
            && sql_lexer::is_symbol(ts, i + 1, '=') ==> nocase::comparison_len(ts, i) == 2,
        sql_lexer::is_symbol(ts, i, '<') && sql_lexer::is_symbol(ts, i + 1, '>')
            ==> nocase::comparison_len(ts, i) == 2,
        sql_lexer::is_symbol(ts, i, '!') && !sql_lexer::is_symbol(ts, i + 1, '=')
            ==> nocase::comparison_len(ts, i) == 0,
{
    assert(seq!['='][0] == '=' && seq!['<'][0] == '<' && seq!['>'][0] == '>' && seq!['!'][0] == '!');
}

/// Elsewhere `COLLATE NOCASE` is dropped: behind a value that is neither compared
/// nor sorted by.
pub proof fn law_other_collation_is_dropped(ts: Seq<Tok>, i: int)
    requires
        ignores_case(ts, i),
        i > 0,
        !stands_before_a_comparison(ts, i - 1),
        forall|k: int| k < i ==> !#[trigger] orders(ts, k),
    ensures
        written(ts, i) == written(ts, i + 2),
{
    lemma_no_term(ts, i - 1, 0, -1);
    assert(!nocase::may_begin(ts, i));
    assert(Seq::<char>::empty() + written(ts, i + 2) =~= written(ts, i + 2));
}

/// A name behind a dot is left as it is, whatever it is.
pub proof fn law_name_behind_a_dot_stays(ts: Seq<Tok>, i: int)
    requires
        sql_lexer::is_symbol(ts, i, '.'),
        i + 1 < ts.len(),
        ts[i + 1].kind != TokenKind::Symbol,
        forall|k: int| k < i ==> !#[trigger] orders(ts, k),
    ensures
        written(ts, i) == ts[i].lead + ts[i].text + ts[i + 1].lead + ts[i + 1].text + written(
            ts,
            i + 2,
        ),
{
    lemma_no_term(ts, i - 1, 0, -1);
}

/// A statement without `COLLATE NOCASE` is written as it is.
pub proof fn law_statement_with_case_stays(ts: Seq<Tok>, i: int)
    requires
        0 <= i <= ts.len(),
        forall|k: int| !#[trigger] ignores_case(ts, k),
    ensures
        written(ts, i) == sql_lexer::rendered(ts, i),
    decreases ts.len() - i,
{
    if i < ts.len() {
        assert forall|k: int| !nocase::is_nocase(ts, k) by {
            assert(!ignores_case(ts, k));
        }
        nocase::lemma_nocase_at(ts, i, 0);
        assert(!nocase::is_comparison(ts, i)) by {
            let c = nocase::parts_at(ts, i);
            assert(!nocase::is_nocase(ts, c.right_end));
            assert(!nocase::is_nocase(ts, i + nocase::operand_len(ts, i)));
        }
        assert(!nocase::opens_lower(ts, i));
        law_statement_with_case_stays(ts, i + 1);
        if sql_lexer::is_symbol(ts, i, '.') && sql_lexer::is_name(ts, i + 1) {
            law_statement_with_case_stays(ts, i + 2);
            assert(sql_lexer::rendered(ts, i + 1) == ts[i + 1].lead + ts[i + 1].text
                + sql_lexer::rendered(ts, i + 2));
            assert(keywords::two_tokens(ts, i) + sql_lexer::rendered(ts, i + 2) =~= ts[i].lead
                + ts[i].text + (ts[i + 1].lead + ts[i + 1].text + sql_lexer::rendered(ts, i + 2)));
        }
    }
}

/// Token `i` ends the terms of an `ORDER BY`.
pub open spec fn ends_order_by(ts: Seq<Tok>, i: int) -> bool {
    ||| sql_lexer::is_symbol(ts, i, ';')
    ||| sql_lexer::is_word(ts, i, "select"@) || sql_lexer::is_word(ts, i, "from"@)
    ||| sql_lexer::is_word(ts, i, "where"@) || sql_lexer::is_word(ts, i, "having"@)
    ||| sql_lexer::is_word(ts, i, "limit"@) || sql_lexer::is_word(ts, i, "rows"@)
    ||| sql_lexer::is_word(ts, i, "range"@)
}

proof fn lemma_back_to_the_end(ts: Seq<Tok>, ended: int, i: int, start: int)
    requires
        ends_order_by(ts, ended),
        ended <= i < ts.len(),
        forall|k: int| ended < k <= i ==> #[trigger] stays_in_order_by(ts, k),
    ensures
        nocase::sort_term(ts, i, 0, start) == -1,
    decreases i,
{
    lemma_words_of_by();
    assert(seq![','][0] == ',' && seq!['('][0] == '(' && seq![')'][0] == ')' && seq![';'][0] == ';');
    if i > ended {
        assert(stays_in_order_by(ts, i));
        lemma_back_to_the_end(ts, ended, i - 1, start);
        lemma_back_to_the_end(ts, ended, i - 1, i + 1);
    }
}

/// Behind the clause that an `ORDER BY` ends with nothing is sorted by it: a
/// collation there belongs to no sort term.
pub proof fn law_clause_behind_order_by_is_not_sorted(ts: Seq<Tok>, ended: int, i: int)
    requires
        ends_order_by(ts, ended),
        ended < i <= ts.len(),
        forall|k: int| ended < k < i ==> #[trigger] stays_in_order_by(ts, k),
    ensures
        nocase::term_of(ts, i) == -1,
{
    lemma_back_to_the_end(ts, ended, i - 1, -1);
}

proof fn lemma_on_to_the_end(ts: Seq<Tok>, i: int, end: int)
    requires
        0 <= i <= end < ts.len(),
        sql_lexer::is_symbol(ts, end, ',') || sql_lexer::is_word(ts, end, "asc"@)
            || sql_lexer::is_word(ts, end, "desc"@) || sql_lexer::is_word(ts, end, "nulls"@)
            || ends_order_by(ts, end) || orders(ts, end) || sql_lexer::is_symbol(ts, end, ')'),
        forall|k: int| i <= k < end ==> #[trigger] stays_in_term(ts, k) && !ignores_case(ts, k),
    ensures
        nocase::nocase_at(ts, i, 0) == -1,
    decreases end - i,
{
    lemma_words_of_by();
    assert(seq![','][0] == ',' && seq!['('][0] == '(' && seq![')'][0] == ')' && seq![';'][0] == ';');
    if i < end {
        assert(stays_in_term(ts, i));
        lemma_on_to_the_end(ts, i + 1, end);
    }
}

/// A sort term without `COLLATE NOCASE` is not sorted in lower case, whatever the
/// next one has: it ends with its comma, with its direction, with what it says of
/// nulls, or with the clause.
pub proof fn law_sort_term_with_case_stays(ts: Seq<Tok>, start: int, end: int)
    requires
        0 <= start <= end < ts.len(),
        sql_lexer::is_symbol(ts, end, ',') || sql_lexer::is_word(ts, end, "asc"@)
            || sql_lexer::is_word(ts, end, "desc"@) || sql_lexer::is_word(ts, end, "nulls"@)
            || ends_order_by(ts, end) || orders(ts, end) || sql_lexer::is_symbol(ts, end, ')'),
        forall|k: int| start <= k < end ==> #[trigger] stays_in_term(ts, k) && !ignores_case(ts, k),
    ensures
        !nocase::opens_lower(ts, start),
{
    assert forall|k: int| start <= k < end implies #[trigger] stays_in_term(ts, k)
        && !ignores_case(ts, k) by {
        assert(stays_in_term(ts, k));
        assert(!ignores_case(ts, k));
    }
    lemma_on_to_the_end(ts, start, end);
}

/// How many more parentheses and `CASE` are opened than closed by the tokens from
/// `from` to `to`.
pub open spec fn opened(ts: Seq<Tok>, from: int, to: int) -> int
    decreases to - from,
{
    if to <= from {
        0
    } else {
        opened(ts, from, to - 1) + if sql_lexer::is_symbol(ts, to - 1, '(') || sql_lexer::is_word(
            ts,
            to - 1,
            "case"@,
        ) {
            1int
        } else if sql_lexer::is_symbol(ts, to - 1, ')') || sql_lexer::is_word(ts, to - 1, "end"@) {
            -1int
        } else {
            0int
        }
    }
}

/// The tokens from `from` to `to` are one thing in parentheses, or one `CASE`:
/// what is opened first is closed last.
pub open spec fn is_enclosed(ts: Seq<Tok>, from: int, to: int) -> bool {
    &&& 0 <= from < to <= ts.len()
    &&& sql_lexer::is_symbol(ts, from, '(') || sql_lexer::is_word(ts, from, "case"@)
    &&& opened(ts, from, to) == 0
    &&& forall|k: int| from < k < to ==> #[trigger] opened(ts, from, k) > 0
}

proof fn lemma_enclosed_forward(ts: Seq<Tok>, from: int, i: int, to: int)
    requires
        is_enclosed(ts, from, to),
        from < i <= to,
    ensures
        nocase::nocase_at(ts, i, opened(ts, from, i)) == nocase::nocase_at(ts, to, 0),
    decreases to - i,
{
    lemma_words_of_by();
    assert(seq!['('][0] == '(' && seq![')'][0] == ')');
    if i < to {
        assert(opened(ts, from, i) > 0);
        assert(i + 1 < to ==> opened(ts, from, i + 1) > 0);
        lemma_enclosed_forward(ts, from, i + 1, to);
    }
}

proof fn lemma_enclosed_backward(ts: Seq<Tok>, from: int, i: int, to: int, start: int)
    requires
        is_enclosed(ts, from, to),
        from <= i < to,
    ensures
        nocase::sort_term(ts, to - 1, 0, start) == nocase::sort_term(
            ts,
            i,
            opened(ts, from, i + 1),
            start,
        ),
    decreases to - i,
{
    lemma_words_of_by();
    assert(seq!['('][0] == '(' && seq![')'][0] == ')');
    if i < to - 1 {
        lemma_enclosed_backward(ts, from, i + 1, to, start);
        assert(opened(ts, from, i + 1) > 0);
    }
}

/// What stands in parentheses, or from `CASE` to its `END`, is passed over as one
/// thing, whatever it holds: a sort term goes on behind it as if it were not
/// there, and starts where it started.
pub proof fn law_enclosed_text_is_passed_over(ts: Seq<Tok>, from: int, to: int)
    requires
        is_enclosed(ts, from, to),
    ensures
        nocase::nocase_at(ts, from, 0) == nocase::nocase_at(ts, to, 0),
        nocase::sort_term(ts, to - 1, 0, -1) == nocase::sort_term(ts, from - 1, 0, -1),
        forall|start: int| #[trigger]
            nocase::sort_term(ts, to - 1, 0, start) == nocase::sort_term(ts, from - 1, 0, start),
{
    lemma_words_of_by();
    assert(seq!['('][0] == '(' && seq![')'][0] == ')');
    assert(opened(ts, from, from + 1) == 1) by {
        assert(opened(ts, from, from) == 0);
    }
    lemma_enclosed_forward(ts, from, from + 1, to);
    assert forall|start: int| #[trigger]
        nocase::sort_term(ts, to - 1, 0, start) == nocase::sort_term(ts, from - 1, 0, start) by {
        lemma_enclosed_backward(ts, from, from, to, start);
    }
}

/// Parentheses with which a sort term begins hold a sort term; those that stand
/// elsewhere in it, as behind a function's name, do not, and neither does a
/// `CASE`.
pub proof fn law_parentheses_about_a_term_hold_one(ts: Seq<Tok>, i: int)
    requires
        0 <= i < ts.len(),
    ensures
        sql_lexer::is_symbol(ts, i, '(') && nocase::term_of(ts, i) == i ==> nocase::term_of(
            ts,
            i + 1,
        ) == i + 1,
        sql_lexer::is_symbol(ts, i, '(') && nocase::term_of(ts, i) != i ==> nocase::term_of(
            ts,
            i + 1,
        ) == -1,
        sql_lexer::is_word(ts, i, "case"@) ==> nocase::term_of(ts, i + 1) == -1,
{
    lemma_words_of_by();
    assert(seq!['('][0] == '(' && seq![')'][0] == ')');
}

proof fn lemma_back_to_parenthesis(ts: Seq<Tok>, open: int, i: int, start: int)
    requires
        sql_lexer::is_symbol(ts, open, '('),
        open <= i < ts.len(),
        start != -1,
        forall|k: int| open < k <= i ==> #[trigger] stays_in_order_by(ts, k),
    ensures
        nocase::sort_term(ts, i, 0, start) == -1,
    decreases i,
{
    lemma_words_of_by();
    assert(seq!['('][0] == '(' && seq![')'][0] == ')');
    if i > open {
        assert(stays_in_order_by(ts, i));
        lemma_back_to_parenthesis(ts, open, i - 1, start);
    }
}

/// What stands behind a comma in parentheses belongs to no sort term: it is one
/// of a list.
pub proof fn law_list_in_parentheses_is_not_sorted(ts: Seq<Tok>, open: int, comma: int, i: int)
    requires
        sql_lexer::is_symbol(ts, open, '('),
        open < comma < i <= ts.len(),
        sql_lexer::is_symbol(ts, comma, ','),
        forall|k: int| open < k < i ==> #[trigger] stays_in_order_by(ts, k),
    ensures
        nocase::term_of(ts, i) == -1,
    decreases i,
{
    lemma_words_of_by();
    assert(seq!['('][0] == '(' && seq![')'][0] == ')' && seq![','][0] == ',' && seq![';'][0] == ';');
    assert(stays_in_order_by(ts, i - 1));
    if sql_lexer::is_symbol(ts, i - 1, ',') {
        lemma_back_to_parenthesis(ts, open, i - 2, i);
    } else {
        law_list_in_parentheses_is_not_sorted(ts, open, comma, i - 1);
    }
}

} // verus!
