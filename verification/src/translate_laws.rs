//! What becomes of each statement that is more than a query, said of what is
//! written and of what PostgreSQL is asked.

use vstd::prelude::*;

use crate::keywords;
use crate::pragma;
use crate::sql_lexer;
use crate::sql_lexer::{Tok, TokenKind};
use crate::translate;
use crate::translate::{TranslateError, Translation};

verus! {

proof fn lemma_first_words_differ()
    ensures
        "begin"@.len() == 5,
        "end"@.len() == 3,
        "release"@.len() == 7 && "release"@[2] == 'l' && "release"@[0] == 'r',
        "reindex"@.len() == 7 && "reindex"@[2] == 'i' && "reindex"@[0] == 'r',
        "explain"@.len() == 7 && "explain"@[0] == 'e',
        "analyze"@.len() == 7 && "analyze"@[0] == 'a',
        "rollback"@.len() == 8,
        "vacuum"@.len() == 6 && "vacuum"@[0] == 'v',
        "attach"@.len() == 6 && "attach"@[0] == 'a',
        "detach"@.len() == 6 && "detach"@[0] == 'd',
        "create"@.len() == 6 && "create"@[0] == 'c',
        "pragma"@.len() == 6 && "pragma"@[0] == 'p',
        "drop"@.len() == 4,
{
    reveal_strlit("begin");
    reveal_strlit("end");
    reveal_strlit("release");
    reveal_strlit("reindex");
    reveal_strlit("explain");
    reveal_strlit("analyze");
    reveal_strlit("rollback");
    reveal_strlit("vacuum");
    reveal_strlit("attach");
    reveal_strlit("detach");
    reveal_strlit("create");
    reveal_strlit("pragma");
    reveal_strlit("drop");
}

/// The statement is over behind its first `n` tokens, with or without a
/// semicolon.
pub open spec fn is_over(ts: Seq<Tok>, n: int) -> bool {
    ts.len() == n || ts.len() == n + 1 && sql_lexer::is_symbol(ts, n, ';')
}

/// PostgreSQL is asked `sql` in the place of `s`.
pub open spec fn becomes(s: Seq<char>, strict: bool, sql: Seq<char>) -> bool {
    translate::translated(s, strict) == Ok::<Seq<char>, TranslateError>(sql)
}

/// A transaction is begun with `BEGIN`, whatever locks it asks for, and ended
/// with `COMMIT`.
pub proof fn law_transactions_are_begun_and_ended(s: Seq<char>, strict: bool)
    ensures
        ({
            let ts = sql_lexer::lex(s);
            let locks = sql_lexer::is_word(ts, 1, "immediate"@) || sql_lexer::is_word(
                ts,
                1,
                "deferred"@,
            ) || sql_lexer::is_word(ts, 1, "exclusive"@);
            &&& sql_lexer::is_word(ts, 0, "begin"@) && is_over(ts, 1) ==> becomes(
                s,
                strict,
                "BEGIN"@,
            )
            &&& sql_lexer::is_word(ts, 0, "begin"@) && locks && is_over(ts, 2) ==> becomes(
                s,
                strict,
                "BEGIN"@,
            )
            &&& sql_lexer::is_word(ts, 0, "begin"@) && locks && sql_lexer::is_word(
                ts,
                2,
                "transaction"@,
            ) && is_over(ts, 3) ==> becomes(s, strict, "BEGIN"@)
            &&& sql_lexer::is_word(ts, 0, "end"@) && is_over(ts, 1) ==> becomes(
                s,
                strict,
                "COMMIT"@,
            )
            &&& sql_lexer::is_word(ts, 0, "end"@) && sql_lexer::is_word(ts, 1, "transaction"@)
                && is_over(ts, 2) ==> becomes(s, strict, "COMMIT"@)
        }),
{
    lemma_first_words_differ();
}

/// A savepoint is released and rolled back to under the name that the statement
/// gives it, as it is written there.
pub proof fn law_savepoints_keep_their_names(s: Seq<char>, strict: bool)
    ensures
        ({
            let ts = sql_lexer::lex(s);
            &&& sql_lexer::is_word(ts, 0, "release"@) && is_over(ts, 2) && ts.len() > 1
                && ts[1].kind != TokenKind::Symbol ==> becomes(
                s,
                strict,
                "RELEASE SAVEPOINT "@ + ts[1].text,
            )
            &&& sql_lexer::is_word(ts, 0, "rollback"@) && sql_lexer::is_word(ts, 1, "to"@)
                && is_over(ts, 3) && ts.len() > 2 && ts[2].kind != TokenKind::Symbol ==> becomes(
                s,
                strict,
                "ROLLBACK TO SAVEPOINT "@ + ts[2].text,
            )
            &&& sql_lexer::is_word(ts, 0, "rollback"@) && sql_lexer::is_word(ts, 1, "to"@)
                && sql_lexer::is_word(ts, 2, "savepoint"@) && is_over(ts, 4) && ts.len() > 3
                && ts[3].kind != TokenKind::Symbol ==> becomes(
                s,
                strict,
                "ROLLBACK TO SAVEPOINT "@ + ts[3].text,
            )
            &&& sql_lexer::is_word(ts, 0, "rollback"@) && sql_lexer::is_word(
                ts,
                1,
                "transaction"@,
            ) && sql_lexer::is_word(ts, 2, "to"@) && is_over(ts, 4) && ts.len() > 3 && ts[3].kind
                != TokenKind::Symbol ==> becomes(s, strict, "ROLLBACK TO SAVEPOINT "@ + ts[3].text)
            &&& sql_lexer::is_word(ts, 0, "rollback"@) && sql_lexer::is_word(
                ts,
                1,
                "transaction"@,
            ) && sql_lexer::is_word(ts, 2, "to"@) && sql_lexer::is_word(ts, 3, "savepoint"@)
                && is_over(ts, 5) && ts.len() > 4 && ts[4].kind != TokenKind::Symbol ==> becomes(
                s,
                strict,
                "ROLLBACK TO SAVEPOINT "@ + ts[4].text,
            )
        }),
{
    lemma_first_words_differ();
    reveal_strlit("to");
    reveal_strlit("transaction");
    assert("to"@.len() == 2 && "transaction"@.len() == 11);
}

/// How a query would be run is asked of the query itself: all that stands behind
/// `EXPLAIN QUERY PLAN`.
pub proof fn law_plan_of_a_query_is_explained(s: Seq<char>, rest: Seq<char>, strict: bool)
    requires
        ({
            let ts = sql_lexer::lex(s);
            &&& sql_lexer::is_word(ts, 0, "explain"@)
            &&& sql_lexer::is_word(ts, 1, "query"@)
            &&& sql_lexer::is_word(ts, 2, "plan"@)
            &&& s == ts[0].lead + ts[0].text + ts[1].lead + ts[1].text + ts[2].lead + ts[2].text
                + rest
        }),
    ensures
        becomes(s, strict, "EXPLAIN"@ + keywords::reworded(rest)),
{
    lemma_first_words_differ();
    let ts = sql_lexer::lex(s);
    let head = ts[0].lead + ts[0].text + ts[1].lead + ts[1].text + ts[2].lead + ts[2].text;
    let behind = translate::behind_three(s);
    sql_lexer::law_lexing_loses_nothing(s);
    reveal_with_fuel(sql_lexer::rendered, 4);
    assert(s =~= head + behind);
    assert((head + behind).skip(head.len() as int) =~= behind);
    assert((head + rest).skip(head.len() as int) =~= rest);
}

/// Work on the database file has nothing to do on PostgreSQL.
pub proof fn law_file_work_does_nothing(s: Seq<char>, strict: bool)
    requires
        ({
            let ts = sql_lexer::lex(s);
            ||| sql_lexer::is_word(ts, 0, "vacuum"@)
            ||| sql_lexer::is_word(ts, 0, "reindex"@)
            ||| sql_lexer::is_word(ts, 0, "attach"@)
            ||| sql_lexer::is_word(ts, 0, "detach"@)
            ||| sql_lexer::is_word(ts, 0, "analyze"@) && sql_lexer::is_name_with(ts, 1, "sqlite_"@)
        }),
    ensures
        becomes(s, strict, "SELECT 1"@),
{
    lemma_first_words_differ();
}

/// So has work on the search index: dropping a table or a trigger of it, and
/// creating one.
pub proof fn law_search_index_is_left_alone(s: Seq<char>, strict: bool, i: int)
    requires
        ({
            let ts = sql_lexer::lex(s);
            ||| {
                &&& sql_lexer::is_word(ts, 0, "drop"@)
                &&& sql_lexer::is_word(ts, 1, "table"@) || sql_lexer::is_word(ts, 1, "trigger"@)
                &&& {
                    ||| !sql_lexer::is_word(ts, 2, "if"@) && sql_lexer::is_name_with(
                        ts,
                        2,
                        "fts4_"@,
                    )
                    ||| sql_lexer::is_word(ts, 2, "if"@) && sql_lexer::is_word(ts, 3, "exists"@)
                        && sql_lexer::is_name_with(ts, 4, "fts4_"@)
                }
            }
            ||| {
                &&& sql_lexer::is_word(ts, 0, "create"@)
                &&& sql_lexer::is_word(ts, 1, "virtual"@)
                &&& sql_lexer::is_word(ts, 2, "table"@)
                &&& sql_lexer::is_word(ts, i, "using"@)
                &&& sql_lexer::is_word(ts, i + 1, "fts4"@)
            }
            ||| {
                &&& sql_lexer::is_word(ts, 0, "create"@)
                &&& {
                    ||| i == 1
                    ||| i == 2 && (sql_lexer::is_word(ts, 1, "temp"@) || sql_lexer::is_word(
                        ts,
                        1,
                        "temporary"@,
                    ))
                }
                &&& sql_lexer::is_word(ts, i, "trigger"@)
                &&& {
                    ||| !sql_lexer::is_word(ts, i + 1, "if"@) && sql_lexer::is_name_with(
                        ts,
                        i + 1,
                        "fts4_"@,
                    )
                    ||| sql_lexer::is_word(ts, i + 1, "if"@) && sql_lexer::is_word(
                        ts,
                        i + 2,
                        "not"@,
                    ) && sql_lexer::is_word(ts, i + 3, "exists"@) && sql_lexer::is_name_with(
                        ts,
                        i + 4,
                        "fts4_"@,
                    )
                }
            }
        }),
    ensures
        becomes(s, strict, "SELECT 1"@),
{
    lemma_first_words_differ();
    reveal_strlit("temp");
    reveal_strlit("temporary");
    reveal_strlit("trigger");
    assert("temp"@.len() == 4 && "temporary"@.len() == 9 && "trigger"@.len() == 7);
    let ts = sql_lexer::lex(s);
    if sql_lexer::is_word(ts, 1, "virtual"@) && sql_lexer::is_word(ts, i, "using"@) {
        assert(translate::uses_fts4(ts, i) || !sql_lexer::is_word(ts, i + 1, "fts4"@));
    }
}

/// A statement that begins with none of the words that decide what becomes of
/// it is passed on, without the words of SQLite.
pub proof fn law_other_statements_are_passed_on(s: Seq<char>, strict: bool)
    requires
        ({
            let ts = sql_lexer::lex(s);
            &&& !sql_lexer::is_word(ts, 0, "begin"@) && !sql_lexer::is_word(ts, 0, "end"@)
            &&& !sql_lexer::is_word(ts, 0, "release"@) && !sql_lexer::is_word(ts, 0, "rollback"@)
            &&& !sql_lexer::is_word(ts, 0, "explain"@) && !sql_lexer::is_word(ts, 0, "vacuum"@)
            &&& !sql_lexer::is_word(ts, 0, "reindex"@) && !sql_lexer::is_word(ts, 0, "attach"@)
            &&& !sql_lexer::is_word(ts, 0, "detach"@) && !sql_lexer::is_word(ts, 0, "analyze"@)
            &&& !sql_lexer::is_word(ts, 0, "drop"@) && !sql_lexer::is_word(ts, 0, "create"@)
            &&& !sql_lexer::is_word(ts, 0, "pragma"@)
        }),
    ensures
        becomes(s, strict, keywords::reworded(s)),
{
}

/// A statement on tables that are none of the search index's is passed on too.
pub proof fn law_other_tables_are_created_and_dropped(s: Seq<char>, strict: bool)
    requires
        ({
            let ts = sql_lexer::lex(s);
            &&& sql_lexer::is_word(ts, 0, "create"@) || sql_lexer::is_word(ts, 0, "drop"@)
            &&& forall|k: int| !#[trigger] sql_lexer::is_name_with(ts, k, "fts4_"@)
            &&& forall|k: int|
                !(#[trigger] sql_lexer::is_word(ts, k, "using"@) && sql_lexer::is_word(
                    ts,
                    k + 1,
                    "fts4"@,
                ))
        }),
    ensures
        becomes(s, strict, keywords::reworded(s)),
{
    lemma_first_words_differ();
    let ts = sql_lexer::lex(s);
    assert forall|k: int| !translate::uses_fts4(ts, k) by {
        assert(!(sql_lexer::is_word(ts, k, "using"@) && sql_lexer::is_word(ts, k + 1, "fts4"@)));
    }
}

/// What begins like a statement that is treated on its own, and then goes on in
/// another way, is passed on: a transaction that is begun or rolled back without
/// more, a savepoint that is released by that word, a plan that is not asked for,
/// and statistics of a table of the application's.
pub proof fn law_other_forms_are_passed_on(s: Seq<char>, strict: bool)
    requires
        ({
            let ts = sql_lexer::lex(s);
            ||| sql_lexer::is_word(ts, 0, "begin"@) && ts.len() >= 2 && sql_lexer::is_word(
                ts,
                1,
                "transaction"@,
            )
            ||| sql_lexer::is_word(ts, 0, "rollback"@) && !sql_lexer::is_word(ts, 1, "to"@)
                && !sql_lexer::is_word(ts, 2, "to"@)
            ||| sql_lexer::is_word(ts, 0, "release"@) && ts.len() >= 3 && !sql_lexer::is_symbol(
                ts,
                2,
                ';',
            )
            ||| sql_lexer::is_word(ts, 0, "explain"@) && !sql_lexer::is_word(ts, 1, "query"@)
            ||| sql_lexer::is_word(ts, 0, "analyze"@) && !sql_lexer::is_name_with(ts, 1, "sqlite_"@)
            ||| sql_lexer::is_word(ts, 0, "end"@) && ts.len() >= 2 && !sql_lexer::is_word(
                ts,
                1,
                "transaction"@,
            ) && !sql_lexer::is_symbol(ts, 1, ';')
        }),
    ensures
        becomes(s, strict, keywords::reworded(s)),
{
    lemma_first_words_differ();
    reveal_strlit("transaction");
    reveal_strlit("immediate");
    reveal_strlit("deferred");
    reveal_strlit("exclusive");
    assert("transaction"@.len() == 11 && "immediate"@.len() == 9 && "deferred"@.len() == 8
        && "exclusive"@.len() == 9);
}

/// A pragma that sets a known setting is asked of PostgreSQL with all of its
/// value, in either form and with or without a semicolon.
pub proof fn law_pragma_is_asked_with_its_whole_value(
    s: Seq<char>,
    name: Tok,
    vs: Seq<Tok>,
    strict: bool,
)
    requires
        sql_lexer::is_word(sql_lexer::lex(s), 0, "pragma"@),
        pragma::is_pragma_setting(sql_lexer::lex(s), name, vs),
        vs.len() > 0,
        name.kind == TokenKind::Word,
        ({
            let low = sql_lexer::lowered(name.text);
            ||| low == "busy_timeout"@
            ||| low == "journal_mode"@
            ||| low == "temp_store"@
            ||| low == "cache_size"@
            ||| low == "locking_mode"@
            ||| low == "wal_autocheckpoint"@
            ||| low == "mmap_size"@
            ||| low == "page_size"@
            ||| low == "auto_vacuum"@
        }),
    ensures
        translate::translated(s, strict) matches Ok(sql) && pragma::sets_to(
            Some(sql),
            if sql_lexer::lowered(name.text) == "busy_timeout"@ {
                "lock_timeout"@
            } else {
                "plex.sqlite."@ + sql_lexer::lowered(name.text)
            },
            vs,
        ),
{
    lemma_first_words_differ();
    pragma::law_pragma_sets_the_whole_value(sql_lexer::lex(s), name, vs);
}

/// A pragma that is not known is an error under `strict`, and else nothing is
/// asked in its place.
pub proof fn law_unknown_pragma_is_dropped_or_refused(s: Seq<char>)
    requires
        ({
            let ts = sql_lexer::lex(s);
            &&& sql_lexer::is_word(ts, 0, "pragma"@)
            &&& pragma::pragma_sql(ts) is None
        }),
    ensures
        translate::translated(s, true) == Err::<Seq<char>, TranslateError>(
            TranslateError::UnknownPragma,
        ),
        translate::translated(s, false) == Ok::<Seq<char>, TranslateError>(Seq::empty()),
{
    lemma_first_words_differ();
}

/// What the library hands out is what is asked of PostgreSQL, and an error where
/// nothing is.
pub proof fn law_translation_is_handed_out(
    sql: &str,
    strict: bool,
    result: Result<Translation, TranslateError>,
    asked: Seq<char>,
    out: String,
)
    requires
        call_ensures(translate::translate, (sql, strict), result),
        call_ensures(keywords::preprocess, (sql,), out),
    ensures
        becomes(sql@, strict, asked) ==> (result matches Ok(t) && t.sql@ == asked),
        result is Err <==> translate::translated(sql@, strict) is Err,
        keywords::with_alias(sql@) == sql@ ==> out@ == keywords::rewritten(
            keywords::Pass::SqliteWords {
                table: keywords::creates_table(sql_lexer::lex(sql@)),
            },
            sql_lexer::lex(sql@),
            0,
        ) + sql_lexer::tail(sql@),
{
}

} // verus!
