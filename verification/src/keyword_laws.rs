//! What becomes of each word of SQLite, said of the text that is written.

use vstd::prelude::*;

use crate::keywords;
use crate::keywords::Pass;
use crate::nocase_laws;
use crate::sql_lexer;
use crate::sql_lexer::{Tok, TokenKind};

verus! {

proof fn lemma_rule_words_differ()
    ensures
        "collate"@.len() == 7 && "collate"@[0] == 'c',
        "indexed"@.len() == 7 && "indexed"@[0] == 'i',
        "not"@.len() == 3,
        "group"@.len() == 5 && "group"@[0] == 'g',
        "regexp"@.len() == 6,
        "glob"@.len() == 4 && "glob"@[0] == 'g',
        "in"@.len() == 2,
        "raise"@.len() == 5 && "raise"@[0] == 'r',
        "limit"@.len() == 5 && "limit"@[0] == 'l',
        "main"@.len() == 4 && "main"@[0] == 'm',
        "sqlite_master"@.len() == 13,
{
    reveal_strlit("collate");
    reveal_strlit("indexed");
    reveal_strlit("not");
    reveal_strlit("group");
    reveal_strlit("regexp");
    reveal_strlit("glob");
    reveal_strlit("in");
    reveal_strlit("raise");
    reveal_strlit("limit");
    reveal_strlit("main");
    reveal_strlit("sqlite_master");
}

/// What the walk over the words of SQLite makes of the tokens from `i` on.
pub open spec fn written(ts: Seq<Tok>, i: int, table: bool) -> Seq<char> {
    keywords::rewritten(Pass::SqliteWords { table }, ts, i)
}

/// `REGEXP` becomes `~` and `NOT REGEXP` becomes `!~`, each where it stood.
pub proof fn law_regexp_becomes_a_tilde(ts: Seq<Tok>, i: int, table: bool)
    ensures
        sql_lexer::is_word(ts, i, "regexp"@) ==> written(ts, i, table) == ts[i].lead + seq!['~']
            + written(ts, i + 1, table),
        sql_lexer::is_word(ts, i, "not"@) && sql_lexer::is_word(ts, i + 1, "regexp"@) ==> written(
            ts,
            i,
            table,
        ) == ts[i].lead + seq!['!', '~'] + written(ts, i + 2, table),
{
    lemma_rule_words_differ();
    reveal_strlit("~");
    reveal_strlit("!~");
    assert("~"@ =~= seq!['~']);
    assert("!~"@ =~= seq!['!', '~']);
}

/// A text matches a pattern of `GLOB` without character classes.
pub open spec fn glob_matches(p: Seq<char>, s: Seq<char>) -> bool
    decreases p.len(), s.len(),
{
    if p.len() == 0 {
        s.len() == 0
    } else if p[0] == '*' {
        glob_matches(p.skip(1), s) || s.len() > 0 && glob_matches(p, s.skip(1))
    } else if p[0] == '?' {
        s.len() > 0 && glob_matches(p.skip(1), s.skip(1))
    } else {
        s.len() > 0 && s[0] == p[0] && glob_matches(p.skip(1), s.skip(1))
    }
}

/// A text matches a pattern of `LIKE`, in which a backslash takes the meaning
/// from the character behind it.
pub open spec fn like_matches(p: Seq<char>, s: Seq<char>) -> bool
    decreases p.len(), s.len(),
{
    if p.len() == 0 {
        s.len() == 0
    } else if p[0] == '%' {
        like_matches(p.skip(1), s) || s.len() > 0 && like_matches(p, s.skip(1))
    } else if p[0] == '_' {
        s.len() > 0 && like_matches(p.skip(1), s.skip(1))
    } else if p[0] == '\\' && p.len() > 1 {
        s.len() > 0 && s[0] == p[1] && like_matches(p.skip(2), s.skip(1))
    } else {
        s.len() > 0 && s[0] == p[0] && like_matches(p.skip(1), s.skip(1))
    }
}

proof fn lemma_liked_first(c: char, rest: Seq<char>)
    ensures
        keywords::liked(seq![c] + rest) == keywords::liked_char(c) + keywords::liked(rest),
    decreases rest.len(),
{
    let p = seq![c] + rest;
    assert(p.last() == if rest.len() > 0 {
        rest.last()
    } else {
        c
    });
    if rest.len() == 0 {
        assert(p.drop_last() =~= Seq::<char>::empty());
        assert(keywords::liked(p.drop_last()) =~= Seq::<char>::empty());
        assert(keywords::liked(p) =~= keywords::liked_char(c) + keywords::liked(rest));
    } else {
        assert(p.drop_last() =~= seq![c] + rest.drop_last());
        lemma_liked_first(c, rest.drop_last());
        assert(keywords::liked(p) =~= keywords::liked_char(c) + keywords::liked(rest));
    }
}

/// A pattern that was made for `LIKE` of one for `GLOB` matches what that
/// matched, and nothing else.
pub proof fn law_like_matches_what_glob_did(p: Seq<char>, s: Seq<char>)
    ensures
        like_matches(keywords::liked(p), s) == glob_matches(p, s),
    decreases p.len(), s.len(),
{
    if p.len() > 0 {
        let rest = p.skip(1);
        let q = keywords::liked(rest);
        assert(p =~= seq![p[0]] + rest);
        lemma_liked_first(p[0], rest);
        let l = keywords::liked(p);
        law_like_matches_what_glob_did(rest, s);
        if s.len() > 0 {
            law_like_matches_what_glob_did(rest, s.skip(1));
            law_like_matches_what_glob_did(p, s.skip(1));
        }
        if p[0] == '%' || p[0] == '_' || p[0] == '\\' {
            assert(l =~= seq!['\\', p[0]] + q);
            assert(l.skip(2) =~= q);
        } else {
            assert(l =~= keywords::liked_char(p[0]) + q);
            assert(l.skip(1) =~= q);
        }
    } else {
        assert(keywords::liked(p) =~= Seq::<char>::empty());
    }
}

/// `GLOB` with a literal pattern without character classes becomes `LIKE` with
/// the pattern that matches the same; what stood before each stays. With any
/// other pattern it is left as it is.
pub proof fn law_glob_becomes_like(ts: Seq<Tok>, i: int, table: bool)
    requires
        sql_lexer::is_word(ts, i, "glob"@),
        i + 1 < ts.len(),
    ensures
        ts[i + 1].kind == TokenKind::Quoted && ts[i + 1].text.len() > 0 && ts[i + 1].text[0] == '\''
            && !ts[i + 1].text.contains('[') ==> written(ts, i, table) == ts[i].lead + seq![
            'L',
            'I',
            'K',
            'E',
        ] + ts[i + 1].lead + keywords::liked(ts[i + 1].text) + written(ts, i + 2, table),
        !(ts[i + 1].kind == TokenKind::Quoted && ts[i + 1].text.len() > 0 && ts[i + 1].text[0]
            == '\'') || ts[i + 1].text.contains('[') ==> written(ts, i, table) == ts[i].lead
            + ts[i].text + written(ts, i + 1, table),
{
    lemma_rule_words_differ();
    reveal_strlit("LIKE");
    assert("LIKE"@ =~= seq!['L', 'I', 'K', 'E']);
}

/// The quotes about a pattern stay, and so does every character of it that means
/// itself.
pub proof fn law_pattern_keeps_its_quotes(inner: Seq<char>)
    ensures
        keywords::liked(seq!['\''] + inner + seq!['\'']) == seq!['\''] + keywords::liked(inner)
            + seq!['\''],
{
    let p = seq!['\''] + inner + seq!['\''];
    assert(p.drop_last() =~= seq!['\''] + inner);
    lemma_liked_first('\'', inner);
    assert(keywords::liked(p) =~= seq!['\''] + keywords::liked(inner) + seq!['\'']);
}

/// `IN ()` asks for a row of an empty query; the word stays as it was written.
pub proof fn law_empty_list_is_an_empty_query(ts: Seq<Tok>, i: int, table: bool)
    requires
        sql_lexer::is_word(ts, i, "in"@),
        sql_lexer::is_symbol(ts, i + 1, '('),
    ensures
        sql_lexer::is_symbol(ts, i + 2, ')') ==> written(ts, i, table) == ts[i].lead + ts[i].text
            + " (SELECT NULL WHERE FALSE)"@ + written(ts, i + 3, table),
        !sql_lexer::is_symbol(ts, i + 2, ')') ==> written(ts, i, table) == ts[i].lead + ts[i].text
            + written(ts, i + 1, table),
{
    lemma_rule_words_differ();
}

/// How many more parentheses are opened than closed by the tokens from `from` to
/// `to`.
pub open spec fn opened(ts: Seq<Tok>, from: int, to: int) -> int
    decreases to - from,
{
    if to <= from {
        0
    } else {
        opened(ts, from, to - 1) + if sql_lexer::is_symbol(ts, to - 1, '(') {
            1int
        } else if sql_lexer::is_symbol(ts, to - 1, ')') {
            -1int
        } else {
            0int
        }
    }
}

proof fn lemma_closing_found(ts: Seq<Tok>, from: int, i: int, last: int)
    requires
        0 <= from <= i <= last < ts.len(),
        forall|k: int| from <= k <= last ==> #[trigger] opened(ts, from, k) >= 0,
        opened(ts, from, last) == 0,
        sql_lexer::is_symbol(ts, last, ')'),
    ensures
        keywords::behind_closing(ts, i, opened(ts, from, i) + 1) == last + 1,
    decreases last - i,
{
    assert(opened(ts, from, i) >= 0);
    assert(seq!['('][0] == '(' && seq![')'][0] == ')');
    if i < last {
        assert(opened(ts, from, i + 1) >= 0);
        lemma_closing_found(ts, from, i + 1, last);
    }
}

/// `RAISE` with all that stands in its parentheses, whatever is opened and
/// closed there, becomes `NULL`, and nothing behind its closing parenthesis does.
pub proof fn law_raise_becomes_null(ts: Seq<Tok>, i: int, last: int, table: bool)
    requires
        sql_lexer::is_word(ts, i, "raise"@),
        sql_lexer::is_symbol(ts, i + 1, '('),
        i + 2 <= last < ts.len(),
        forall|k: int| i + 2 <= k <= last ==> #[trigger] opened(ts, i + 2, k) >= 0,
        opened(ts, i + 2, last) == 0,
        sql_lexer::is_symbol(ts, last, ')'),
    ensures
        written(ts, i, table) == ts[i].lead + seq!['N', 'U', 'L', 'L'] + written(
            ts,
            last + 1,
            table,
        ),
{
    lemma_rule_words_differ();
    lemma_closing_found(ts, i + 2, i + 2, last);
    reveal_strlit("NULL");
    assert("NULL"@ =~= seq!['N', 'U', 'L', 'L']);
}

proof fn lemma_no_closing(ts: Seq<Tok>, from: int, i: int)
    requires
        0 <= from <= i <= ts.len(),
        forall|k: int| from <= k <= ts.len() ==> #[trigger] opened(ts, from, k) >= 0,
    ensures
        keywords::behind_closing(ts, i, opened(ts, from, i) + 1) == -1,
    decreases ts.len() - i,
{
    assert(opened(ts, from, i) >= 0);
    assert(seq!['('][0] == '(' && seq![')'][0] == ')');
    if i < ts.len() {
        assert(opened(ts, from, i + 1) >= 0);
        lemma_no_closing(ts, from, i + 1);
    }
}

/// `RAISE` whose parenthesis is never closed is left as it is, and so is the word
/// where no parenthesis follows.
pub proof fn law_open_raise_stays(ts: Seq<Tok>, i: int, table: bool)
    requires
        sql_lexer::is_word(ts, i, "raise"@),
        sql_lexer::is_symbol(ts, i + 1, '(') ==> forall|k: int|
            i + 2 <= k <= ts.len() ==> #[trigger] opened(ts, i + 2, k) >= 0,
    ensures
        written(ts, i, table) == ts[i].lead + ts[i].text + written(ts, i + 1, table),
{
    lemma_rule_words_differ();
    if sql_lexer::is_symbol(ts, i + 1, '(') {
        lemma_no_closing(ts, i + 2, i + 2);
    }
}

/// A collation that PostgreSQL does without goes with the word before it and all
/// that stood before them. Any other collation stays.
pub proof fn law_collations_are_dropped(ts: Seq<Tok>, i: int, table: bool)
    requires
        sql_lexer::is_word(ts, i, "collate"@),
    ensures
        sql_lexer::is_word(ts, i + 1, "icu_root"@) || sql_lexer::is_word(ts, i + 1, "rtrim"@)
            || sql_lexer::is_word(ts, i + 1, "binary"@) || sql_lexer::is_word(
            ts,
            i + 1,
            "unicode"@,
        ) ==> written(ts, i, table) == written(ts, i + 2, table),
        !(sql_lexer::is_word(ts, i + 1, "icu_root"@) || sql_lexer::is_word(ts, i + 1, "rtrim"@)
            || sql_lexer::is_word(ts, i + 1, "binary"@) || sql_lexer::is_word(
            ts,
            i + 1,
            "unicode"@,
        )) ==> written(ts, i, table) == ts[i].lead + ts[i].text + written(ts, i + 1, table),
{
    lemma_rule_words_differ();
    assert(forall|x: Seq<char>| Seq::<char>::empty() + x =~= x);
}

/// An index hint is dropped: `INDEXED BY` with the name of the index, and `NOT
/// INDEXED`.
pub proof fn law_index_hints_are_dropped(ts: Seq<Tok>, i: int, table: bool)
    ensures
        sql_lexer::is_word(ts, i, "indexed"@) && sql_lexer::is_word(ts, i + 1, "by"@) && i + 2
            < ts.len() && ts[i + 2].kind != TokenKind::Symbol ==> written(ts, i, table) == written(
            ts,
            i + 3,
            table,
        ),
        sql_lexer::is_word(ts, i, "not"@) && sql_lexer::is_word(ts, i + 1, "indexed"@) ==> written(
            ts,
            i,
            table,
        ) == written(ts, i + 2, table),
        sql_lexer::is_word(ts, i, "not"@) && !sql_lexer::is_word(ts, i + 1, "indexed"@)
            && !sql_lexer::is_word(ts, i + 1, "regexp"@) ==> written(ts, i, table) == ts[i].lead
            + ts[i].text + written(ts, i + 1, table),
{
    lemma_rule_words_differ();
    assert(forall|x: Seq<char>| Seq::<char>::empty() + x =~= x);
}

/// Token `i` is a word with which the next clause of a query begins.
pub open spec fn begins_a_clause(ts: Seq<Tok>, i: int) -> bool {
    &&& 0 <= i < ts.len()
    &&& ts[i].kind == TokenKind::Word
    &&& {
        let low = sql_lexer::lowered(ts[i].text);
        ||| low == "where"@ || low == "order"@ || low == "group"@ || low == "limit"@
        ||| low == "join"@ || low == "inner"@ || low == "left"@ || low == "right"@
        ||| low == "full"@ || low == "cross"@ || low == "natural"@ || low == "union"@
        ||| low == "except"@ || low == "intersect"@ || low == "on"@ || low == "using"@
        ||| low == "having"@ || low == "window"@ || low == "indexed"@ || low == "not"@
    }
}

/// `GROUP BY NULL` is dropped where it is all that is grouped by: at the end of
/// the statement or of a subquery, or before the next clause.
pub proof fn law_grouping_by_nothing_is_dropped(ts: Seq<Tok>, i: int, table: bool)
    requires
        sql_lexer::is_word(ts, i, "group"@),
        sql_lexer::is_word(ts, i + 1, "by"@),
        sql_lexer::is_word(ts, i + 2, "null"@),
    ensures
        i + 3 == ts.len() || sql_lexer::is_symbol(ts, i + 3, ';') || sql_lexer::is_symbol(
            ts,
            i + 3,
            ')',
        ) || begins_a_clause(ts, i + 3) ==> written(ts, i, table) == written(ts, i + 3, table),
        i + 3 < ts.len() && !sql_lexer::is_symbol(ts, i + 3, ';') && !sql_lexer::is_symbol(
            ts,
            i + 3,
            ')',
        ) && !begins_a_clause(ts, i + 3) ==> written(ts, i, table) == ts[i].lead + ts[i].text
            + written(ts, i + 1, table),
{
    lemma_rule_words_differ();
    assert(seq![','][0] == ',' && seq!['.'][0] == '.' && seq!['('][0] == '(' && seq!['|'][0] == '|'
        && seq!['+'][0] == '+' && seq![';'][0] == ';' && seq![')'][0] == ')');
    assert(forall|x: Seq<char>| Seq::<char>::empty() + x =~= x);
}

/// The options `WITHOUT ROWID` and `STRICT`, in whatever order, are dropped
/// behind the columns of a table that is created; the closing parenthesis stays.
/// In any other statement they stay as well.
pub proof fn law_table_options_are_dropped(ts: Seq<Tok>, i: int)
    requires
        sql_lexer::is_symbol(ts, i, ')'),
    ensures
        sql_lexer::is_word(ts, i + 1, "without"@) && sql_lexer::is_word(ts, i + 2, "rowid"@) && (i
            + 3 == ts.len() || sql_lexer::is_symbol(ts, i + 3, ';')) ==> written(ts, i, true)
            == ts[i].lead + ts[i].text + written(ts, i + 3, true),
        sql_lexer::is_word(ts, i + 1, "strict"@) && (i + 2 == ts.len() || sql_lexer::is_symbol(
            ts,
            i + 2,
            ';',
        )) ==> written(ts, i, true) == ts[i].lead + ts[i].text + written(ts, i + 2, true),
        sql_lexer::is_word(ts, i + 1, "without"@) && sql_lexer::is_word(ts, i + 2, "rowid"@)
            && sql_lexer::is_symbol(ts, i + 3, ',') && sql_lexer::is_word(ts, i + 4, "strict"@)
            && (i + 5 == ts.len() || sql_lexer::is_symbol(ts, i + 5, ';')) ==> written(ts, i, true)
            == ts[i].lead + ts[i].text + written(ts, i + 5, true),
        sql_lexer::is_word(ts, i + 1, "strict"@) && sql_lexer::is_symbol(ts, i + 2, ',')
            && sql_lexer::is_word(ts, i + 3, "without"@) && sql_lexer::is_word(
            ts,
            i + 4,
            "rowid"@,
        ) && (i + 5 == ts.len() || sql_lexer::is_symbol(ts, i + 5, ';')) ==> written(ts, i, true)
            == ts[i].lead + ts[i].text + written(ts, i + 5, true),
        written(ts, i, false) == ts[i].lead + ts[i].text + written(ts, i + 1, false),
{
    reveal_strlit("without");
    reveal_strlit("strict");
    assert("without"@.len() == 7 && "strict"@.len() == 6);
    assert(seq![','][0] == ',' && seq![';'][0] == ';' && seq![')'][0] == ')' && seq!['.'][0] == '.');
}

/// A statement creates a table that begins with `CREATE TABLE`, with or without
/// a word for a temporary one.
pub proof fn law_created_table_is_recognised(ts: Seq<Tok>)
    requires
        sql_lexer::is_word(ts, 0, "create"@),
    ensures
        sql_lexer::is_word(ts, 1, "table"@) ==> keywords::creates_table(ts),
        (sql_lexer::is_word(ts, 1, "temp"@) || sql_lexer::is_word(ts, 1, "temporary"@))
            && sql_lexer::is_word(ts, 2, "table"@) ==> keywords::creates_table(ts),
        !sql_lexer::is_word(ts, 1, "table"@) && !sql_lexer::is_word(ts, 2, "table"@)
            ==> !keywords::creates_table(ts),
{
}

/// `LIMIT a, b` gives `b` rows behind the first `a`: it becomes `LIMIT b OFFSET
/// a`. Without a comma it stays as it is.
pub proof fn law_limit_pair_is_turned_round(ts: Seq<Tok>, i: int, table: bool)
    requires
        sql_lexer::is_word(ts, i, "limit"@),
    ensures
        i + 3 < ts.len() && ts[i + 1].kind != TokenKind::Symbol && sql_lexer::is_symbol(
            ts,
            i + 2,
            ',',
        ) && ts[i + 3].kind != TokenKind::Symbol && (i + 4 == ts.len() || sql_lexer::is_symbol(
            ts,
            i + 4,
            ';',
        ) || sql_lexer::is_symbol(ts, i + 4, ')')) ==> written(ts, i, table) == ts[i].lead
            + ts[i].text + ts[i + 1].lead + ts[i + 3].text + seq![
            ' ',
            'O',
            'F',
            'F',
            'S',
            'E',
            'T',
            ' ',
        ] + ts[i + 1].text + written(ts, i + 4, table),
        !sql_lexer::is_symbol(ts, i + 2, ',') ==> written(ts, i, table) == ts[i].lead + ts[i].text
            + written(ts, i + 1, table),
        i + 4 < ts.len() && !sql_lexer::is_symbol(ts, i + 4, ';') && !sql_lexer::is_symbol(
            ts,
            i + 4,
            ')',
        ) ==> written(ts, i, table) == ts[i].lead + ts[i].text + written(ts, i + 1, table),
{
    lemma_rule_words_differ();
    reveal_strlit(" OFFSET ");
    assert(" OFFSET "@ =~= seq![' ', 'O', 'F', 'F', 'S', 'E', 'T', ' ']);
}

/// `sqlite_master`, with or without `main.` before it, becomes a query on
/// PostgreSQL's catalog. Where the statement names it the query has that name,
/// and else it is called `pg_objects`; in front of a column it is that name.
pub proof fn law_catalog_is_queried_under_one_name(ts: Seq<Tok>, i: int, table: bool)
    requires
        sql_lexer::is_word(ts, i, "sqlite_master"@),
    ensures
        sql_lexer::is_symbol(ts, i + 1, '.') ==> written(ts, i, table) == ts[i].lead
            + "pg_objects"@ + written(ts, i + 1, table),
        i + 1 == ts.len() || sql_lexer::is_symbol(ts, i + 1, ';') || sql_lexer::is_symbol(
            ts,
            i + 1,
            ')',
        ) || sql_lexer::is_symbol(ts, i + 1, ',') || begins_a_clause(ts, i + 1) ==> written(ts, i, table) == ts[i].lead + keywords::CATALOG@ + " AS pg_objects"@
            + written(ts, i + 1, table),
        i + 1 < ts.len() && ts[i + 1].kind != TokenKind::Symbol && !begins_a_clause(ts, i + 1)
            ==> written(ts, i, table) == ts[i].lead
            + keywords::CATALOG@ + written(ts, i + 1, table),
{
    lemma_rule_words_differ();
    assert(seq![','][0] == ',' && seq!['.'][0] == '.' && seq![';'][0] == ';' && seq![')'][0]
        == ')');
    let n = ts[i].lead;
    let rest = written(ts, i + 1, table);
    assert(n + keywords::CATALOG@ + " AS pg_objects"@ + rest =~= n + (keywords::CATALOG@
        + " AS pg_objects"@) + rest);
}

/// `main.sqlite_master` is `sqlite_master`: what is written in its place, behind
/// what stood before it, is the same.
pub proof fn law_schema_of_the_catalog_does_not_count(ts: Seq<Tok>, i: int, table: bool)
    requires
        sql_lexer::is_word(ts, i, "main"@),
        sql_lexer::is_symbol(ts, i + 1, '.'),
        sql_lexer::is_word(ts, i + 2, "sqlite_master"@),
    ensures
        exists|x: Seq<char>|
            {
                &&& written(ts, i, table) == #[trigger] (ts[i].lead + x)
                &&& written(ts, i + 2, table) == ts[i + 2].lead + x
            },
{
    lemma_rule_words_differ();
    let rest = written(ts, i + 3, table);
    let x = if sql_lexer::is_symbol(ts, i + 3, '.') {
        "pg_objects"@ + rest
    } else {
        keywords::catalog_text(ts, i + 2) + rest
    };
    assert(written(ts, i, table) =~= ts[i].lead + x);
    assert(written(ts, i + 2, table) =~= ts[i + 2].lead + x);
}

/// A name behind a dot is left as it is, whatever it is.
pub proof fn law_name_behind_a_dot_stays(ts: Seq<Tok>, i: int, table: bool)
    requires
        sql_lexer::is_symbol(ts, i, '.'),
        i + 1 < ts.len(),
        ts[i + 1].kind != TokenKind::Symbol,
    ensures
        written(ts, i, table) == ts[i].lead + ts[i].text + ts[i + 1].lead + ts[i + 1].text
            + written(ts, i + 2, table),
{
}

/// Quoted text stays as it is, and so does every symbol but a dot and a closing
/// parenthesis, and every word but those that SQLite's dialect has for itself.
pub proof fn law_other_tokens_stay(ts: Seq<Tok>, i: int, table: bool)
    requires
        0 <= i < ts.len(),
        match ts[i].kind {
            TokenKind::Quoted => true,
            TokenKind::Symbol => !sql_lexer::is_symbol(ts, i, '.') && !sql_lexer::is_symbol(
                ts,
                i,
                ')',
            ),
            TokenKind::Word => {
                let low = sql_lexer::lowered(ts[i].text);
                &&& low != "collate"@ && low != "indexed"@ && low != "not"@ && low != "group"@
                &&& low != "regexp"@ && low != "glob"@ && low != "in"@ && low != "raise"@
                &&& low != "limit"@ && low != "main"@ && low != "sqlite_master"@
            },
        },
    ensures
        written(ts, i, table) == ts[i].lead + ts[i].text + written(ts, i + 1, table),
{
}

/// A word of SQLite that stands without what makes it one stays as it is.
pub proof fn law_words_by_themselves_stay(ts: Seq<Tok>, i: int, table: bool)
    requires
        ({
            ||| sql_lexer::is_word(ts, i, "in"@) && !sql_lexer::is_symbol(ts, i + 1, '(')
            ||| sql_lexer::is_word(ts, i, "glob"@) && i + 1 == ts.len()
            ||| sql_lexer::is_word(ts, i, "indexed"@) && !sql_lexer::is_word(ts, i + 1, "by"@)
            ||| sql_lexer::is_word(ts, i, "indexed"@) && i + 2 < ts.len() && ts[i + 2].kind
                == TokenKind::Symbol
            ||| sql_lexer::is_word(ts, i, "group"@) && !sql_lexer::is_word(ts, i + 1, "by"@)
            ||| sql_lexer::is_word(ts, i, "group"@) && !sql_lexer::is_word(ts, i + 2, "null"@)
            ||| sql_lexer::is_word(ts, i, "main"@) && !sql_lexer::is_symbol(ts, i + 1, '.')
            ||| sql_lexer::is_word(ts, i, "main"@) && !sql_lexer::is_word(
                ts,
                i + 2,
                "sqlite_master"@,
            )
            ||| sql_lexer::is_symbol(ts, i, '.') && i + 1 < ts.len() && ts[i + 1].kind
                == TokenKind::Symbol
            ||| sql_lexer::is_symbol(ts, i, ')') && !sql_lexer::is_word(ts, i + 1, "without"@)
                && !sql_lexer::is_word(ts, i + 1, "strict"@)
        }),
    ensures
        written(ts, i, table) == ts[i].lead + ts[i].text + written(ts, i + 1, table),
{
    lemma_rule_words_differ();
    assert(seq!['.'][0] == '.' && seq![')'][0] == ')');
}

/// Options of a table that are not the last of the statement stay.
pub proof fn law_table_options_elsewhere_stay(ts: Seq<Tok>, i: int, table: bool)
    requires
        sql_lexer::is_symbol(ts, i, ')'),
        i + 5 < ts.len(),
        forall|k: int| i < k <= i + 5 ==> !#[trigger] sql_lexer::is_symbol(ts, k, ';'),
    ensures
        written(ts, i, table) == ts[i].lead + ts[i].text + written(ts, i + 1, table),
{
    assert(seq![','][0] == ',' && seq![';'][0] == ';' && seq![')'][0] == ')' && seq!['.'][0] == '.');
    assert(!sql_lexer::is_symbol(ts, i + 2, ';') && !sql_lexer::is_symbol(ts, i + 3, ';')
        && !sql_lexer::is_symbol(ts, i + 5, ';'));
}

/// A statement, once it has the alias that it may need, is walked over once, from
/// its first token to its last, and what stands behind that stays.
pub proof fn law_statement_is_walked_over_once(s: Seq<char>)
    ensures
        ({
            let t = keywords::with_alias(s);
            let ts = sql_lexer::lex(t);
            keywords::preprocessed(s) == written(ts, 0, keywords::creates_table(ts))
                + sql_lexer::tail(t)
        }),
        forall|ts: Seq<Tok>, table: bool| #[trigger] written(ts, ts.len() as int, table).len() == 0,
{
}

/// The query that stands in for `sqlite_master` is one relation with the columns
/// of that table: the tables and views of the schema in use, and its indexes.
pub proof fn law_catalog_has_the_columns()
    ensures
        keywords::CATALOG@ == "(SELECT CASE table_type WHEN 'VIEW' THEN 'view' ELSE 'table' END AS type, table_name::text AS name, table_name::text AS tbl_name, 0 AS rootpage, NULL::text AS sql FROM information_schema.tables WHERE table_schema = current_schema() UNION ALL SELECT 'index', indexname::text, tablename::text, 0, NULL::text FROM pg_indexes WHERE schemaname = current_schema())"@,
{
}

/// A statement that has no collation which ignores case, once the words of SQLite
/// are gone, is passed on without them and otherwise as it is.
pub proof fn law_rewording_takes_the_words_out(s: Seq<char>)
    requires
        forall|k: int|
            !#[trigger] nocase_laws::ignores_case(sql_lexer::lex(keywords::preprocessed(s)), k),
    ensures
        keywords::reworded(s) == keywords::preprocessed(s),
{
    let t = keywords::preprocessed(s);
    nocase_laws::law_statement_with_case_stays(sql_lexer::lex(t), 0);
    sql_lexer::law_lexing_loses_nothing(t);
}

/// And one that has such collations is passed on with them taken out too, from
/// its first token to its last.
pub proof fn law_rewording_takes_the_collations_out(s: Seq<char>)
    ensures
        ({
            let t = keywords::preprocessed(s);
            keywords::reworded(s) == nocase_laws::written(sql_lexer::lex(t), 0) + sql_lexer::tail(t)
        }),
{
}

} // verus!
