//! A statement of SQLite as one of PostgreSQL.

use vstd::prelude::*;

use crate::keywords;
use crate::pragma;
use crate::sql_lexer;
use crate::sql_lexer::{append, Lexed};
use crate::text;

verus! {

/// A statement for PostgreSQL.
#[derive(Debug)]
pub struct Translation {
    pub sql: String,
}

/// Why there is no statement for PostgreSQL.
#[derive(Clone, Copy, PartialEq, Eq, Structural, Debug)]
pub enum TranslateError {
    /// The statement is a `PRAGMA` that is not known, and unknown ones are not
    /// let pass.
    UnknownPragma,
}

/// What a statement is, as far as that decides what becomes of it.
#[derive(Clone, Copy, PartialEq, Eq, Structural, Debug)]
pub enum Statement {
    Begin,
    Commit,
    /// Releases the savepoint that token 1 names.
    Release,
    /// Rolls back to the savepoint that a token names.
    RollbackTo { name: usize },
    /// Asks how a query would be run.
    ExplainPlan,
    /// Has nothing to do on PostgreSQL.
    NoOp,
    Pragma,
    Other,
}

/// A word that says how SQLite locks for a transaction.
pub open spec fn is_lock_mode(ts: Seq<sql_lexer::Tok>, i: int) -> bool {
    ||| sql_lexer::is_word(ts, i, "immediate"@)
    ||| sql_lexer::is_word(ts, i, "deferred"@)
    ||| sql_lexer::is_word(ts, i, "exclusive"@)
}

/// `BEGIN`, with or without a lock mode.
pub open spec fn is_begin(ts: Seq<sql_lexer::Tok>) -> bool {
    let n = pragma::stop(ts);
    &&& sql_lexer::is_word(ts, 0, "begin"@)
    &&& {
        ||| n == 1
        ||| is_lock_mode(ts, 1) && n == 2
        ||| is_lock_mode(ts, 1) && n == 3 && sql_lexer::is_word(ts, 2, "transaction"@)
    }
}

/// `END` or `END TRANSACTION`.
pub open spec fn is_end(ts: Seq<sql_lexer::Tok>) -> bool {
    let n = pragma::stop(ts);
    &&& sql_lexer::is_word(ts, 0, "end"@)
    &&& n == 1 || n == 2 && sql_lexer::is_word(ts, 1, "transaction"@)
}

/// `RELEASE name`.
pub open spec fn is_release(ts: Seq<sql_lexer::Tok>) -> bool {
    sql_lexer::is_word(ts, 0, "release"@) && sql_lexer::is_name(ts, 1) && pragma::stop(ts) == 2
}

/// Where `TO` stands in `ROLLBACK [TRANSACTION] TO`.
pub open spec fn rollback_word(ts: Seq<sql_lexer::Tok>) -> int {
    if sql_lexer::is_word(ts, 1, "transaction"@) {
        2
    } else {
        1
    }
}

/// Where the savepoint's name stands in `ROLLBACK [TRANSACTION] TO [SAVEPOINT]
/// name`.
pub open spec fn rollback_name(ts: Seq<sql_lexer::Tok>) -> int {
    let to = rollback_word(ts);
    if sql_lexer::is_word(ts, to + 1, "savepoint"@) && pragma::stop(ts) == to + 3 {
        to + 2
    } else {
        to + 1
    }
}

pub open spec fn is_rollback_to(ts: Seq<sql_lexer::Tok>) -> bool {
    &&& sql_lexer::is_word(ts, 0, "rollback"@)
    &&& sql_lexer::is_word(ts, rollback_word(ts), "to"@)
    &&& sql_lexer::is_name(ts, rollback_name(ts))
    &&& pragma::stop(ts) == rollback_name(ts) + 1
}

/// Work on the database file, which PostgreSQL has no use for.
pub open spec fn is_file_work(ts: Seq<sql_lexer::Tok>) -> bool {
    ||| sql_lexer::is_word(ts, 0, "vacuum"@)
    ||| sql_lexer::is_word(ts, 0, "reindex"@)
    ||| sql_lexer::is_word(ts, 0, "attach"@)
    ||| sql_lexer::is_word(ts, 0, "detach"@)
    ||| sql_lexer::is_word(ts, 0, "analyze"@) && sql_lexer::is_name_with(ts, 1, "sqlite_"@)
}

/// Where the name behind an optional `IF EXISTS` at `i` stands.
pub open spec fn behind_if_exists(ts: Seq<sql_lexer::Tok>, i: int) -> int {
    if sql_lexer::is_word(ts, i, "if"@) && sql_lexer::is_word(ts, i + 1, "exists"@) {
        i + 2
    } else {
        i
    }
}

/// Where the name behind an optional `IF NOT EXISTS` at `i` stands.
pub open spec fn behind_if_not_exists(ts: Seq<sql_lexer::Tok>, i: int) -> int {
    if sql_lexer::is_word(ts, i, "if"@) && sql_lexer::is_word(ts, i + 1, "not"@)
        && sql_lexer::is_word(ts, i + 2, "exists"@) {
        i + 3
    } else {
        i
    }
}

/// Drops a table or a trigger of the search index.
pub open spec fn drops_search_index(ts: Seq<sql_lexer::Tok>) -> bool {
    &&& sql_lexer::is_word(ts, 0, "drop"@)
    &&& sql_lexer::is_word(ts, 1, "table"@) || sql_lexer::is_word(ts, 1, "trigger"@)
    &&& sql_lexer::is_name_with(ts, behind_if_exists(ts, 2), "fts4_"@)
}

/// `USING fts4` stands at token `i`.
pub open spec fn uses_fts4(ts: Seq<sql_lexer::Tok>, i: int) -> bool {
    sql_lexer::is_word(ts, i, "using"@) && sql_lexer::is_word(ts, i + 1, "fts4"@)
}

/// Creates a table of the search index.
pub open spec fn creates_search_table(ts: Seq<sql_lexer::Tok>) -> bool {
    &&& sql_lexer::is_word(ts, 0, "create"@)
    &&& sql_lexer::is_word(ts, 1, "virtual"@)
    &&& sql_lexer::is_word(ts, 2, "table"@)
    &&& exists|i: int| uses_fts4(ts, i)
}

/// Where `TRIGGER` stands in `CREATE [TEMP] TRIGGER`.
pub open spec fn trigger_word(ts: Seq<sql_lexer::Tok>) -> int {
    if sql_lexer::is_word(ts, 1, "temp"@) || sql_lexer::is_word(ts, 1, "temporary"@) {
        2
    } else {
        1
    }
}

/// Creates a trigger of the search index.
pub open spec fn creates_search_trigger(ts: Seq<sql_lexer::Tok>) -> bool {
    let k = trigger_word(ts);
    &&& sql_lexer::is_word(ts, 0, "create"@)
    &&& sql_lexer::is_word(ts, k, "trigger"@)
    &&& sql_lexer::is_name_with(ts, behind_if_not_exists(ts, k + 1), "fts4_"@)
}

/// Has nothing to do on PostgreSQL: work on the database file, or on the search
/// index, whose tables are views there.
pub open spec fn is_no_op(ts: Seq<sql_lexer::Tok>) -> bool {
    ||| is_file_work(ts)
    ||| drops_search_index(ts)
    ||| creates_search_table(ts)
    ||| creates_search_trigger(ts)
}

pub open spec fn statement(ts: Seq<sql_lexer::Tok>) -> Statement {
    if is_begin(ts) {
        Statement::Begin
    } else if is_end(ts) {
        Statement::Commit
    } else if is_release(ts) {
        Statement::Release
    } else if is_rollback_to(ts) {
        Statement::RollbackTo { name: rollback_name(ts) as usize }
    } else if sql_lexer::is_word(ts, 0, "explain"@) && sql_lexer::is_word(ts, 1, "query"@)
        && sql_lexer::is_word(ts, 2, "plan"@) {
        Statement::ExplainPlan
    } else if is_no_op(ts) {
        Statement::NoOp
    } else if sql_lexer::is_word(ts, 0, "pragma"@) {
        Statement::Pragma
    } else {
        Statement::Other
    }
}

fn find_rollback_name(lx: &Lexed, n: usize) -> (name: Option<usize>)
    requires
        lx.well_formed(),
        n == pragma::stop(lx.tokens()),
    ensures
        name is Some == is_rollback_to(lx.tokens()),
        name is Some ==> name->0 == rollback_name(lx.tokens()),
{
    if !lx.is_word(0, 0, "rollback") {
        return None;
    }
    let to: usize = if lx.is_word(0, 1, "transaction") {
        2
    } else {
        1
    };
    let name = if lx.is_word(to, 1, "savepoint") && n == to + 3 {
        to + 2
    } else {
        to + 1
    };
    if lx.is_word(to, 0, "to") && lx.is_name(name, 0) && n == name + 1 {
        Some(name)
    } else {
        None
    }
}

fn names_fts4(lx: &Lexed) -> (b: bool)
    requires
        lx.well_formed(),
    ensures
        b == (exists|i: int| uses_fts4(lx.tokens(), i)),
{
    let n = lx.spans.len();
    let mut i: usize = 0;
    while i < n
        invariant
            lx.well_formed(),
            n == lx.tokens().len(),
            i <= n,
            forall|k: int| k < i ==> !#[trigger] uses_fts4(lx.tokens(), k),
        decreases n - i,
    {
        if lx.is_word(i, 0, "using") && lx.is_word(i, 1, "fts4") {
            assert(uses_fts4(lx.tokens(), i as int));
            return true;
        }
        i = i + 1;
    }
    false
}

fn find_no_op(lx: &Lexed) -> (b: bool)
    requires
        lx.well_formed(),
    ensures
        b == is_no_op(lx.tokens()),
{
    if lx.is_word(0, 0, "vacuum") || lx.is_word(0, 0, "reindex") || lx.is_word(0, 0, "attach")
        || lx.is_word(0, 0, "detach") || (lx.is_word(0, 0, "analyze") && lx.is_name_with(
        0,
        1,
        "sqlite_",
    )) {
        return true;
    }
    if lx.is_word(0, 0, "drop") && (lx.is_word(0, 1, "table") || lx.is_word(0, 1, "trigger")) {
        let name: usize = if lx.is_word(0, 2, "if") && lx.is_word(0, 3, "exists") {
            4
        } else {
            2
        };
        if lx.is_name_with(name, 0, "fts4_") {
            return true;
        }
    }
    if !lx.is_word(0, 0, "create") {
        return false;
    }
    if lx.is_word(0, 1, "virtual") && lx.is_word(0, 2, "table") && names_fts4(lx) {
        return true;
    }
    let k: usize = if lx.is_word(0, 1, "temp") || lx.is_word(0, 1, "temporary") {
        2
    } else {
        1
    };
    let name = if lx.is_word(k, 1, "if") && lx.is_word(k, 2, "not") && lx.is_word(k, 3, "exists") {
        k + 4
    } else {
        k + 1
    };
    lx.is_word(k, 0, "trigger") && lx.is_name_with(name, 0, "fts4_")
}

fn classify(lx: &Lexed) -> (kind: Statement)
    requires
        lx.well_formed(),
    ensures
        kind == statement(lx.tokens()),
{
    let n = pragma::find_stop(lx);
    let locked = lx.is_word(0, 1, "immediate") || lx.is_word(0, 1, "deferred") || lx.is_word(
        0,
        1,
        "exclusive",
    );
    if lx.is_word(0, 0, "begin") && (n == 1 || (locked && (n == 2 || (n == 3 && lx.is_word(
        0,
        2,
        "transaction",
    ))))) {
        return Statement::Begin;
    }
    if lx.is_word(0, 0, "end") && (n == 1 || (n == 2 && lx.is_word(0, 1, "transaction"))) {
        return Statement::Commit;
    }
    if lx.is_word(0, 0, "release") && lx.is_name(0, 1) && n == 2 {
        return Statement::Release;
    }
    if let Some(name) = find_rollback_name(lx, n) {
        return Statement::RollbackTo { name };
    }
    if lx.is_word(0, 0, "explain") && lx.is_word(0, 1, "query") && lx.is_word(0, 2, "plan") {
        return Statement::ExplainPlan;
    }
    if find_no_op(lx) {
        return Statement::NoOp;
    }
    if lx.is_word(0, 0, "pragma") {
        return Statement::Pragma;
    }
    Statement::Other
}

/// What stands in `s` behind its first three tokens.
pub open spec fn behind_three(s: Seq<char>) -> Seq<char> {
    sql_lexer::rendered(sql_lexer::lex(s), 3) + sql_lexer::tail(s)
}

/// The statement for PostgreSQL. Under `strict` a `PRAGMA` that is not known is
/// an error; else nothing is asked in its place.
pub open spec fn translated(s: Seq<char>, strict: bool) -> Result<Seq<char>, TranslateError> {
    let ts = sql_lexer::lex(s);
    match statement(ts) {
        Statement::Begin => Ok("BEGIN"@),
        Statement::Commit => Ok("COMMIT"@),
        Statement::Release => Ok("RELEASE SAVEPOINT "@ + ts[1].text),
        Statement::RollbackTo { name } => Ok("ROLLBACK TO SAVEPOINT "@ + ts[name as int].text),
        Statement::ExplainPlan => Ok("EXPLAIN"@ + keywords::reworded(behind_three(s))),
        Statement::NoOp => Ok("SELECT 1"@),
        Statement::Pragma => match pragma::pragma_sql(ts) {
            Some(sql) => Ok(sql),
            None => if strict {
                Err(TranslateError::UnknownPragma)
            } else {
                Ok(Seq::empty())
            },
        },
        Statement::Other => Ok(keywords::reworded(s)),
    }
}

fn copy_behind_three(lx: &Lexed) -> (out: Vec<char>)
    requires
        lx.well_formed(),
        lx.tokens().len() >= 3,
    ensures
        out@ == behind_three(lx.source@),
{
    let n = lx.spans.len();
    let ghost ts = lx.tokens();
    let mut out: Vec<char> = Vec::new();
    let mut i: usize = 3;
    assert(out@ + sql_lexer::rendered(ts, 3) =~= sql_lexer::rendered(ts, 3));
    while i < n
        invariant
            lx.well_formed(),
            ts == lx.tokens(),
            n == ts.len(),
            3 <= i <= n,
            out@ + sql_lexer::rendered(ts, i as int) == sql_lexer::rendered(ts, 3),
        decreases n - i,
    {
        let ghost before = out@;
        append(&mut out, lx.lead(i));
        append(&mut out, lx.text(i));
        assert(before + sql_lexer::rendered(ts, i as int) =~= out@ + sql_lexer::rendered(
            ts,
            i + 1,
        ));
        i = i + 1;
    }
    assert(out@ =~= sql_lexer::rendered(ts, 3));
    append(&mut out, lx.tail());
    assert(out@ =~= behind_three(lx.source@));
    out
}

/// `before` and the text of token `i`.
fn with_name(before: &str, lx: &Lexed, i: usize) -> (out: Vec<char>)
    requires
        lx.well_formed(),
        i < lx.tokens().len(),
    ensures
        out@ == before@ + lx.tokens()[i as int].text,
{
    let mut out = text::to_chars(before);
    append(&mut out, lx.text(i));
    out
}

/// Translates a statement. The whole text is one statement, whatever
/// semicolons it holds.
pub fn translate(sql: &str, strict: bool) -> (result: Result<Translation, TranslateError>)
    ensures
        match result {
            Ok(t) => translated(sql@, strict) == Ok::<Seq<char>, TranslateError>(t.sql@),
            Err(e) => translated(sql@, strict) == Err::<Seq<char>, TranslateError>(e),
        },
{
    let lx = Lexed::new(text::to_chars(sql));
    let kind = classify(&lx);
    let out = match kind {
        Statement::Begin => text::to_chars("BEGIN"),
        Statement::Commit => text::to_chars("COMMIT"),
        Statement::Release => with_name("RELEASE SAVEPOINT ", &lx, 1),
        Statement::RollbackTo { name } => with_name("ROLLBACK TO SAVEPOINT ", &lx, name),
        Statement::ExplainPlan => {
            let mut out = text::to_chars("EXPLAIN");
            let query = keywords::reword(copy_behind_three(&lx));
            append(&mut out, query.as_slice());
            out
        },
        Statement::NoOp => text::to_chars("SELECT 1"),
        Statement::Pragma => match pragma::write_pragma(&lx) {
            Some(out) => out,
            None => {
                if strict {
                    return Err(TranslateError::UnknownPragma);
                }
                let none: Vec<char> = Vec::new();
                assert(none@ =~= Seq::empty());
                none
            },
        },
        Statement::Other => keywords::reword(lx.source),
    };
    Ok(Translation { sql: text::to_text(out.as_slice()) })
}

/// Without `strict` every statement has a translation, and `strict` changes
/// nothing but that a `PRAGMA` which would be dropped is an error.
pub proof fn law_strict_only_rejects_dropped_pragmas(s: Seq<char>)
    ensures
        translated(s, false) is Ok,
        translated(s, true) is Ok ==> translated(s, true) == translated(s, false),
        translated(s, true) is Err ==> {
            &&& statement(sql_lexer::lex(s)) == Statement::Pragma
            &&& translated(s, false) == Ok::<Seq<char>, TranslateError>(Seq::empty())
        },
{
}

/// Rebuilding the search index does nothing, and so does work on the database
/// file: what PostgreSQL runs in their place changes nothing.
pub proof fn law_no_op_becomes_select_one(s: Seq<char>, strict: bool)
    requires
        is_no_op(sql_lexer::lex(s)),
    ensures
        translated(s, strict) == Ok::<Seq<char>, TranslateError>("SELECT 1"@),
{
    reveal_strlit("begin");
    reveal_strlit("end");
    reveal_strlit("release");
    reveal_strlit("rollback");
    reveal_strlit("explain");
    reveal_strlit("vacuum");
    reveal_strlit("reindex");
    reveal_strlit("attach");
    reveal_strlit("detach");
    reveal_strlit("analyze");
    reveal_strlit("drop");
    reveal_strlit("create");
    assert("begin"@.len() == 5 && "end"@.len() == 3 && "release"@.len() == 7);
    assert("rollback"@.len() == 8 && "explain"@.len() == 7 && "drop"@.len() == 4);
    assert("vacuum"@.len() == 6 && "attach"@.len() == 6 && "detach"@.len() == 6);
    assert("create"@.len() == 6 && "reindex"@.len() == 7 && "analyze"@.len() == 7);
    assert("release"@[2] != "reindex"@[2] && "release"@[0] != "analyze"@[0]);
    assert("explain"@[0] != "reindex"@[0] && "explain"@[0] != "analyze"@[0]);
}

/// A statement of no kind of its own and without a word of SQLite reaches
/// PostgreSQL as it is.
pub proof fn law_plain_statement_is_passed_on(s: Seq<char>, strict: bool)
    requires
        statement(sql_lexer::lex(s)) == Statement::Other,
        keywords::is_plain(sql_lexer::lex(s)),
    ensures
        translated(s, strict) == Ok::<Seq<char>, TranslateError>(s),
{
    keywords::law_plain_statement_is_unchanged(s);
}

/// A `PRAGMA` never reaches PostgreSQL: what is asked in its place is a query,
/// or nothing.
pub proof fn law_pragma_becomes_a_query_or_nothing(s: Seq<char>, strict: bool)
    requires
        statement(sql_lexer::lex(s)) == Statement::Pragma,
    ensures
        translated(s, strict) matches Ok(sql) ==> sql.len() == 0 || sql.take(7) == "SELECT "@,
{
    reveal_strlit("SELECT ");
    reveal_strlit("SELECT 1");
    reveal_strlit("SELECT 1 AS foreign_keys");
    reveal_strlit("SELECT current_setting('");
    reveal_strlit("SELECT set_config('");
    match pragma::pragma_sql(sql_lexer::lex(s)) {
        Some(sql) => {
            assert(sql.take(7) =~= "SELECT "@);
        },
        None => {},
    }
}

} // verus!
