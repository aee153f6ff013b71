//! The words of SQLite's dialect that PostgreSQL does not have, and what is
//! written in their place.

use vstd::prelude::*;

use crate::nocase;
use crate::relexing;
use crate::sql_lexer;
use crate::sql_lexer::{append, append_str, Lexed, TokenKind};
use crate::text;

verus! {

/// What stands in for `sqlite_master`: the tables, views and indexes of the
/// schema in use.
pub const CATALOG: &'static str =
    "(SELECT CASE table_type WHEN 'VIEW' THEN 'view' ELSE 'table' END AS type, table_name::text AS name, table_name::text AS tbl_name, 0 AS rootpage, NULL::text AS sql FROM information_schema.tables WHERE table_schema = current_schema() UNION ALL SELECT 'index', indexname::text, tablename::text, 0, NULL::text FROM pg_indexes WHERE schemaname = current_schema())";

/// The tokens that a rule takes out, and the text it puts in their place.
pub ghost struct Edit {
    pub taken: int,
    pub text: Seq<char>,
}

/// How many tokens a rule took out, and what it put in their place.
pub struct Replacement {
    pub taken: usize,
    pub text: Vec<char>,
}

/// What was done is what a rule asks for.
pub open spec fn agrees(done: Option<Replacement>, edit: Option<Edit>) -> bool {
    match done {
        Some(r) => edit == Some(Edit { taken: r.taken as int, text: r.text@ }),
        None => edit is None,
    }
}

/// Tokens `i` and `i + 1` as they stand.
pub open spec fn two_tokens(ts: Seq<sql_lexer::Tok>, i: int) -> Seq<char> {
    ts[i].lead + ts[i].text + ts[i + 1].lead + ts[i + 1].text
}

pub(crate) fn copy_two(lx: &Lexed, i: usize) -> (out: Vec<char>)
    requires
        lx.well_formed(),
        i + 1 < lx.tokens().len(),
    ensures
        out@ == two_tokens(lx.tokens(), i as int),
{
    let n = lx.spans.len();
    assert(i + 1 < n);
    let mut out: Vec<char> = Vec::new();
    append(&mut out, lx.lead(i));
    append(&mut out, lx.text(i));
    append(&mut out, lx.lead(i + 1));
    append(&mut out, lx.text(i + 1));
    assert(out@ =~= two_tokens(lx.tokens(), i as int));
    out
}

/// A collation of SQLite that PostgreSQL does without.
pub open spec fn is_dropped_collation(ts: Seq<sql_lexer::Tok>, i: int) -> bool {
    ||| sql_lexer::is_word(ts, i, "icu_root"@)
    ||| sql_lexer::is_word(ts, i, "rtrim"@)
    ||| sql_lexer::is_word(ts, i, "binary"@)
    ||| sql_lexer::is_word(ts, i, "unicode"@)
}

/// The statement is over at token `i`.
pub open spec fn ends(ts: Seq<sql_lexer::Tok>, i: int) -> bool {
    i == ts.len() || sql_lexer::is_symbol(ts, i, ';')
}

fn is_end(lx: &Lexed, i: usize, k: usize) -> (b: bool)
    requires
        lx.well_formed(),
        i + k <= lx.tokens().len(),
    ensures
        b == ends(lx.tokens(), i + k),
{
    !lx.has(i, k) || lx.is_symbol(i, k, ';')
}

/// A word that goes on with a query behind a table.
pub open spec fn is_clause_word(ts: Seq<sql_lexer::Tok>, i: int) -> bool {
    ||| sql_lexer::is_word(ts, i, "where"@)
    ||| sql_lexer::is_word(ts, i, "order"@)
    ||| sql_lexer::is_word(ts, i, "group"@)
    ||| sql_lexer::is_word(ts, i, "limit"@)
    ||| sql_lexer::is_word(ts, i, "join"@)
    ||| sql_lexer::is_word(ts, i, "inner"@)
    ||| sql_lexer::is_word(ts, i, "left"@)
    ||| sql_lexer::is_word(ts, i, "right"@)
    ||| sql_lexer::is_word(ts, i, "full"@)
    ||| sql_lexer::is_word(ts, i, "cross"@)
    ||| sql_lexer::is_word(ts, i, "natural"@)
    ||| sql_lexer::is_word(ts, i, "union"@)
    ||| sql_lexer::is_word(ts, i, "except"@)
    ||| sql_lexer::is_word(ts, i, "intersect"@)
    ||| sql_lexer::is_word(ts, i, "on"@)
    ||| sql_lexer::is_word(ts, i, "using"@)
    ||| sql_lexer::is_word(ts, i, "having"@)
    ||| sql_lexer::is_word(ts, i, "window"@)
    ||| sql_lexer::is_word(ts, i, "indexed"@)
    ||| sql_lexer::is_word(ts, i, "not"@)
}

fn clause_word(lx: &Lexed, i: usize, k: usize) -> (b: bool)
    requires
        lx.well_formed(),
    ensures
        b == is_clause_word(lx.tokens(), i + k),
{
    lx.is_word(i, k, "where") || lx.is_word(i, k, "order") || lx.is_word(i, k, "group")
        || lx.is_word(i, k, "limit") || lx.is_word(i, k, "join") || lx.is_word(i, k, "inner")
        || lx.is_word(i, k, "left") || lx.is_word(i, k, "cross") || lx.is_word(i, k, "natural")
        || lx.is_word(i, k, "union") || lx.is_word(i, k, "except") || lx.is_word(i, k, "intersect")
        || lx.is_word(i, k, "on") || lx.is_word(i, k, "right") || lx.is_word(i, k, "full")
        || lx.is_word(i, k, "using") || lx.is_word(i, k, "having") || lx.is_word(i, k, "window")
        || lx.is_word(i, k, "indexed") || lx.is_word(i, k, "not")
}

/// Nothing more is grouped by at token `i`.
pub open spec fn ends_grouping(ts: Seq<sql_lexer::Tok>, i: int) -> bool {
    ends(ts, i) || sql_lexer::is_symbol(ts, i, ')') || is_clause_word(ts, i)
}

fn grouping_ended(lx: &Lexed, i: usize, k: usize) -> (b: bool)
    requires
        lx.well_formed(),
        i + k <= lx.tokens().len(),
    ensures
        b == ends_grouping(lx.tokens(), i + k),
{
    is_end(lx, i, k) || lx.is_symbol(i, k, ')') || clause_word(lx, i, k)
}

/// How many tokens from `i` on are dropped: a collation, an index hint or a
/// `GROUP BY NULL`.
pub open spec fn dropped(ts: Seq<sql_lexer::Tok>, i: int) -> int {
    if sql_lexer::is_word(ts, i, "collate"@) && is_dropped_collation(ts, i + 1) {
        2
    } else if sql_lexer::is_word(ts, i, "indexed"@) && sql_lexer::is_word(ts, i + 1, "by"@)
        && sql_lexer::is_name(ts, i + 2) {
        3
    } else if sql_lexer::is_word(ts, i, "not"@) && sql_lexer::is_word(ts, i + 1, "indexed"@) {
        2
    } else if sql_lexer::is_word(ts, i, "group"@) && sql_lexer::is_word(ts, i + 1, "by"@)
        && sql_lexer::is_word(ts, i + 2, "null"@) && ends_grouping(ts, i + 3) {
        3
    } else {
        0
    }
}

fn count_dropped(lx: &Lexed, i: usize) -> (n: usize)
    requires
        lx.well_formed(),
        i < lx.tokens().len(),
    ensures
        n == dropped(lx.tokens(), i as int),
{
    if lx.is_word(i, 0, "collate") && (lx.is_word(i, 1, "icu_root") || lx.is_word(i, 1, "rtrim")
        || lx.is_word(i, 1, "binary") || lx.is_word(i, 1, "unicode")) {
        2
    } else if lx.is_word(i, 0, "indexed") && lx.is_word(i, 1, "by") && lx.is_name(i, 2) {
        3
    } else if lx.is_word(i, 0, "not") && lx.is_word(i, 1, "indexed") {
        2
    } else if lx.is_word(i, 0, "group") && lx.is_word(i, 1, "by") && lx.is_word(i, 2, "null")
        && grouping_ended(lx, i, 3) {
        3
    } else {
        0
    }
}

/// How many tokens from `i` on are options of a table that only SQLite has, at
/// the end of a statement.
pub open spec fn table_options(ts: Seq<sql_lexer::Tok>, i: int) -> int {
    let rowid = sql_lexer::is_word(ts, i, "without"@) && sql_lexer::is_word(ts, i + 1, "rowid"@);
    let strict = sql_lexer::is_word(ts, i, "strict"@);
    if rowid && sql_lexer::is_symbol(ts, i + 2, ',') && sql_lexer::is_word(ts, i + 3, "strict"@)
        && ends(ts, i + 4) {
        4
    } else if strict && sql_lexer::is_symbol(ts, i + 1, ',') && sql_lexer::is_word(
        ts,
        i + 2,
        "without"@,
    ) && sql_lexer::is_word(ts, i + 3, "rowid"@) && ends(ts, i + 4) {
        4
    } else if rowid && ends(ts, i + 2) {
        2
    } else if strict && ends(ts, i + 1) {
        1
    } else {
        0
    }
}

fn count_table_options(lx: &Lexed, i: usize) -> (n: usize)
    requires
        lx.well_formed(),
        i <= lx.tokens().len(),
    ensures
        n == table_options(lx.tokens(), i as int),
{
    let rowid = lx.is_word(i, 0, "without") && lx.is_word(i, 1, "rowid");
    let strict = lx.is_word(i, 0, "strict");
    if rowid && lx.is_symbol(i, 2, ',') && lx.is_word(i, 3, "strict") && is_end(lx, i, 4) {
        4
    } else if strict && lx.is_symbol(i, 1, ',') && lx.is_word(i, 2, "without") && lx.is_word(
        i,
        3,
        "rowid",
    ) && is_end(lx, i, 4) {
        4
    } else if rowid && is_end(lx, i, 2) {
        2
    } else if strict && is_end(lx, i, 1) {
        1
    } else {
        0
    }
}

/// What a character of a `GLOB` pattern is in a `LIKE` pattern.
pub open spec fn liked_char(c: char) -> Seq<char> {
    if c == '*' {
        seq!['%']
    } else if c == '?' {
        seq!['_']
    } else if c == '%' || c == '_' || c == '\\' {
        seq!['\\', c]
    } else {
        seq![c]
    }
}

/// A `GLOB` pattern as a `LIKE` pattern.
pub open spec fn liked(s: Seq<char>) -> Seq<char>
    decreases s.len(),
{
    if s.len() == 0 {
        Seq::empty()
    } else {
        liked(s.drop_last()) + liked_char(s.last())
    }
}

fn like_pattern(s: &[char]) -> (out: Vec<char>)
    ensures
        out@ == liked(s@),
{
    let mut out: Vec<char> = Vec::new();
    let mut i: usize = 0;
    while i < s.len()
        invariant
            i <= s@.len(),
            out@ == liked(s@.take(i as int)),
        decreases s@.len() - i,
    {
        let c = s[i];
        let ghost before = out@;
        if c == '*' {
            out.push('%');
        } else if c == '?' {
            out.push('_');
        } else if c == '%' || c == '_' || c == '\\' {
            out.push('\\');
            out.push(c);
        } else {
            out.push(c);
        }
        assert(out@ =~= before + liked_char(c));
        i = i + 1;
        assert(s@.take(i as int).drop_last() =~= s@.take(i - 1));
    }
    assert(s@.take(i as int) =~= s@);
    out
}

/// Token `i` is a literal pattern without character classes, which `LIKE` does
/// not have.
pub open spec fn is_plain_pattern(ts: Seq<sql_lexer::Tok>, i: int) -> bool {
    &&& 0 <= i < ts.len()
    &&& ts[i].kind == TokenKind::Quoted
    &&& ts[i].text.len() > 0
    &&& ts[i].text[0] == '\''
    &&& !ts[i].text.contains('[')
}

fn plain_pattern(lx: &Lexed, i: usize, k: usize) -> (b: bool)
    requires
        lx.well_formed(),
    ensures
        b == is_plain_pattern(lx.tokens(), i + k),
        b ==> i + k < usize::MAX,
{
    if !lx.has(i, k) || lx.spans[i + k].kind != TokenKind::Quoted {
        return false;
    }
    let part = lx.text(i + k);
    if part.len() == 0 || part[0] != '\'' {
        return false;
    }
    let mut j: usize = 0;
    while j < part.len()
        invariant
            i + k < lx.tokens().len(),
            part@ == lx.tokens()[i + k].text,
            j <= part@.len(),
            forall|m: int| 0 <= m < j ==> part@[m] != '[',
        decreases part@.len() - j,
    {
        if part[j] == '[' {
            assert(part@.contains('['));
            return false;
        }
        j = j + 1;
    }
    true
}

/// The token behind the `)` that closes `depth` parentheses which are open at
/// token `i`; -1 if they are not closed.
pub open spec fn behind_closing(ts: Seq<sql_lexer::Tok>, i: int, depth: int) -> int
    decreases ts.len() - i,
{
    if i < 0 || i >= ts.len() {
        -1
    } else if sql_lexer::is_symbol(ts, i, '(') {
        behind_closing(ts, i + 1, depth + 1)
    } else if sql_lexer::is_symbol(ts, i, ')') {
        if depth <= 1 {
            i + 1
        } else {
            behind_closing(ts, i + 1, depth - 1)
        }
    } else {
        behind_closing(ts, i + 1, depth)
    }
}

proof fn lemma_behind_closing(ts: Seq<sql_lexer::Tok>, i: int, depth: int)
    requires
        0 <= i,
    ensures
        behind_closing(ts, i, depth) == -1 || i < behind_closing(ts, i, depth) <= ts.len(),
    decreases ts.len() - i,
{
    if i < ts.len() {
        lemma_behind_closing(ts, i + 1, depth + 1);
        lemma_behind_closing(ts, i + 1, depth);
        lemma_behind_closing(ts, i + 1, depth - 1);
    }
}

fn find_behind_closing(lx: &Lexed, start: usize) -> (end: Option<usize>)
    requires
        lx.well_formed(),
        start <= lx.tokens().len(),
    ensures
        end is None == (behind_closing(lx.tokens(), start as int, 1) == -1),
        end is Some ==> end->0 == behind_closing(lx.tokens(), start as int, 1) && start < end->0
            <= lx.tokens().len(),
{
    let n = lx.spans.len();
    let mut i: usize = start;
    let mut inner: usize = 0;
    while i < n
        invariant
            lx.well_formed(),
            n == lx.tokens().len(),
            start <= i <= n,
            inner <= i - start,
            behind_closing(lx.tokens(), i as int, inner + 1) == behind_closing(lx.tokens(), start as int, 1),
        decreases n - i,
    {
        if lx.is_symbol(i, 0, '(') {
            inner = inner + 1;
        } else if lx.is_symbol(i, 0, ')') {
            if inner == 0 {
                return Some(i + 1);
            }
            inner = inner - 1;
        }
        i = i + 1;
    }
    None
}

/// The rules that put an operator or a value of PostgreSQL in the place of one
/// of SQLite.
pub open spec fn operator_rule(ts: Seq<sql_lexer::Tok>, i: int) -> Option<Edit> {
    if sql_lexer::is_word(ts, i, "regexp"@) {
        Some(Edit { taken: 1, text: ts[i].lead + "~"@ })
    } else if sql_lexer::is_word(ts, i, "not"@) && sql_lexer::is_word(ts, i + 1, "regexp"@) {
        Some(Edit { taken: 2, text: ts[i].lead + "!~"@ })
    } else if sql_lexer::is_word(ts, i, "glob"@) && is_plain_pattern(ts, i + 1) {
        Some(
            Edit { taken: 2, text: ts[i].lead + "LIKE"@ + ts[i + 1].lead + liked(ts[i + 1].text) },
        )
    } else if sql_lexer::is_word(ts, i, "in"@) && sql_lexer::is_symbol(ts, i + 1, '(')
        && sql_lexer::is_symbol(ts, i + 2, ')') {
        Some(Edit { taken: 3, text: ts[i].lead + ts[i].text + " (SELECT NULL WHERE FALSE)"@ })
    } else if sql_lexer::is_word(ts, i, "raise"@) && sql_lexer::is_symbol(ts, i + 1, '(')
        && behind_closing(ts, i + 2, 1) != -1 {
        Some(Edit { taken: behind_closing(ts, i + 2, 1) - i, text: ts[i].lead + "NULL"@ })
    } else {
        None
    }
}

fn apply_operator_rule(lx: &Lexed, i: usize) -> (done: Option<Replacement>)
    requires
        lx.well_formed(),
        i < lx.tokens().len(),
    ensures
        agrees(done, operator_rule(lx.tokens(), i as int)),
{
    let mut out: Vec<char> = Vec::new();
    append(&mut out, lx.lead(i));
    assert(out@ =~= lx.tokens()[i as int].lead);
    if lx.is_word(i, 0, "regexp") {
        append_str(&mut out, "~");
        Some(Replacement { taken: 1, text: out })
    } else if lx.is_word(i, 0, "not") && lx.is_word(i, 1, "regexp") {
        append_str(&mut out, "!~");
        Some(Replacement { taken: 2, text: out })
    } else if lx.is_word(i, 0, "glob") && plain_pattern(lx, i, 1) {
        append_str(&mut out, "LIKE");
        append(&mut out, lx.lead(i + 1));
        let pattern = like_pattern(lx.text(i + 1));
        append(&mut out, pattern.as_slice());
        Some(Replacement { taken: 2, text: out })
    } else if lx.is_word(i, 0, "in") && lx.is_symbol(i, 1, '(') && lx.is_symbol(i, 2, ')') {
        append(&mut out, lx.text(i));
        append_str(&mut out, " (SELECT NULL WHERE FALSE)");
        Some(Replacement { taken: 3, text: out })
    } else if lx.is_word(i, 0, "raise") && lx.is_symbol(i, 1, '(') {
        match find_behind_closing(lx, i + 2) {
            Some(end) => {
                append_str(&mut out, "NULL");
                Some(Replacement { taken: end - i, text: out })
            },
            None => None,
        }
    } else {
        None
    }
}

/// `LIMIT a, b`, which skips `a` rows and gives `b`, at the end of a statement
/// or of a subquery.
pub open spec fn is_limit_pair(ts: Seq<sql_lexer::Tok>, i: int) -> bool {
    &&& sql_lexer::is_word(ts, i, "limit"@)
    &&& sql_lexer::is_name(ts, i + 1)
    &&& sql_lexer::is_symbol(ts, i + 2, ',')
    &&& sql_lexer::is_name(ts, i + 3)
    &&& ends(ts, i + 4) || sql_lexer::is_symbol(ts, i + 4, ')')
}

pub open spec fn limit_rule(ts: Seq<sql_lexer::Tok>, i: int) -> Option<Edit> {
    if is_limit_pair(ts, i) {
        Some(
            Edit {
                taken: 4,
                text: ts[i].lead + ts[i].text + ts[i + 1].lead + ts[i + 3].text + " OFFSET "@ + ts[i
                    + 1].text,
            },
        )
    } else {
        None
    }
}

fn apply_limit_rule(lx: &Lexed, i: usize) -> (done: Option<Replacement>)
    requires
        lx.well_formed(),
        i < lx.tokens().len(),
    ensures
        agrees(done, limit_rule(lx.tokens(), i as int)),
{
    if lx.is_word(i, 0, "limit") && lx.is_name(i, 1) && lx.is_symbol(i, 2, ',') && lx.is_name(i, 3)
        && (is_end(lx, i, 4) || lx.is_symbol(i, 4, ')')) {
        let mut out: Vec<char> = Vec::new();
        append(&mut out, lx.lead(i));
        append(&mut out, lx.text(i));
        append(&mut out, lx.lead(i + 1));
        append(&mut out, lx.text(i + 3));
        append_str(&mut out, " OFFSET ");
        append(&mut out, lx.text(i + 1));
        assert(out@ =~= limit_rule(lx.tokens(), i as int)->0.text);
        Some(Replacement { taken: 4, text: out })
    } else {
        None
    }
}

/// What stands in for `sqlite_master`, whose last token is `last`: a query with
/// the name that the statement gives it or, where it gives none, `pg_objects`.
pub open spec fn catalog_text(ts: Seq<sql_lexer::Tok>, last: int) -> Seq<char> {
    if sql_lexer::is_name(ts, last + 1) && !is_clause_word(ts, last + 1) {
        CATALOG@
    } else {
        CATALOG@ + " AS pg_objects"@
    }
}

fn write_catalog(lx: &Lexed, i: usize, k: usize, out: &mut Vec<char>)
    requires
        lx.well_formed(),
        k < 3,
    ensures
        final(out)@ == old(out)@ + catalog_text(lx.tokens(), i + k),
{
    append_str(out, CATALOG);
    if !(lx.is_name(i, k + 1) && !clause_word(lx, i, k + 1)) {
        append_str(out, " AS pg_objects");
    }
    assert(out@ =~= old(out)@ + catalog_text(lx.tokens(), i + k));
}

/// The rule for SQLite's catalog.
pub open spec fn catalog_rule(ts: Seq<sql_lexer::Tok>, i: int) -> Option<Edit> {
    if sql_lexer::is_word(ts, i, "main"@) && sql_lexer::is_symbol(ts, i + 1, '.')
        && sql_lexer::is_word(ts, i + 2, "sqlite_master"@) {
        if sql_lexer::is_symbol(ts, i + 3, '.') {
            Some(Edit { taken: 3, text: ts[i].lead + "pg_objects"@ })
        } else {
            Some(Edit { taken: 3, text: ts[i].lead + catalog_text(ts, i + 2) })
        }
    } else if sql_lexer::is_word(ts, i, "sqlite_master"@) {
        if sql_lexer::is_symbol(ts, i + 1, '.') {
            Some(Edit { taken: 1, text: ts[i].lead + "pg_objects"@ })
        } else {
            Some(Edit { taken: 1, text: ts[i].lead + catalog_text(ts, i) })
        }
    } else {
        None
    }
}

fn apply_catalog_rule(lx: &Lexed, i: usize) -> (done: Option<Replacement>)
    requires
        lx.well_formed(),
        i < lx.tokens().len(),
    ensures
        agrees(done, catalog_rule(lx.tokens(), i as int)),
{
    let mut out: Vec<char> = Vec::new();
    append(&mut out, lx.lead(i));
    assert(out@ =~= lx.tokens()[i as int].lead);
    if lx.is_word(i, 0, "main") && lx.is_symbol(i, 1, '.') && lx.is_word(i, 2, "sqlite_master") {
        if lx.is_symbol(i, 3, '.') {
            append_str(&mut out, "pg_objects");
        } else {
            write_catalog(lx, i, 2, &mut out);
        }
        Some(Replacement { taken: 3, text: out })
    } else if lx.is_word(i, 0, "sqlite_master") {
        if lx.is_symbol(i, 1, '.') {
            append_str(&mut out, "pg_objects");
        } else {
            write_catalog(lx, i, 0, &mut out);
        }
        Some(Replacement { taken: 1, text: out })
    } else {
        None
    }
}

/// The rules for the words of SQLite. `table` says that the statement creates
/// a table. A name behind a dot is the name of a column or a table, never a
/// word of SQLite.
pub open spec fn sqlite_rule(ts: Seq<sql_lexer::Tok>, i: int, table: bool) -> Option<Edit> {
    if sql_lexer::is_symbol(ts, i, '.') && sql_lexer::is_name(ts, i + 1) {
        Some(Edit { taken: 2, text: two_tokens(ts, i) })
    } else if dropped(ts, i) > 0 {
        Some(Edit { taken: dropped(ts, i), text: Seq::empty() })
    } else if table && sql_lexer::is_symbol(ts, i, ')') && table_options(ts, i + 1) > 0 {
        Some(Edit { taken: 1 + table_options(ts, i + 1), text: ts[i].lead + ts[i].text })
    } else if operator_rule(ts, i) is Some {
        operator_rule(ts, i)
    } else if limit_rule(ts, i) is Some {
        limit_rule(ts, i)
    } else {
        catalog_rule(ts, i)
    }
}

fn apply_sqlite_rule(lx: &Lexed, i: usize, table: bool) -> (done: Option<Replacement>)
    requires
        lx.well_formed(),
        i < lx.tokens().len(),
    ensures
        agrees(done, sqlite_rule(lx.tokens(), i as int, table)),
{
    if lx.is_symbol(i, 0, '.') && lx.is_name(i, 1) {
        let out = copy_two(lx, i);
        return Some(Replacement { taken: 2, text: out });
    }
    let n = count_dropped(lx, i);
    if n > 0 {
        let out: Vec<char> = Vec::new();
        assert(out@ =~= Seq::empty());
        return Some(Replacement { taken: n, text: out });
    }
    if table && lx.is_symbol(i, 0, ')') {
        let m = count_table_options(lx, i + 1);
        if m > 0 {
            let mut out: Vec<char> = Vec::new();
            append(&mut out, lx.lead(i));
            append(&mut out, lx.text(i));
            assert(out@ =~= lx.tokens()[i as int].lead + lx.tokens()[i as int].text);
            return Some(Replacement { taken: 1 + m, text: out });
        }
    }
    let done = apply_operator_rule(lx, i);
    if done.is_some() {
        return done;
    }
    let done = apply_limit_rule(lx, i);
    if done.is_some() {
        return done;
    }
    apply_catalog_rule(lx, i)
}

/// `metadata_items` is joined at token `i`.
pub open spec fn joins_items(ts: Seq<sql_lexer::Tok>, i: int) -> bool {
    sql_lexer::is_word(ts, i, "join"@) && sql_lexer::is_word(ts, i + 1, "metadata_items"@)
}

/// It is joined there under its own name.
pub open spec fn joins_items_bare(ts: Seq<sql_lexer::Tok>, i: int) -> bool {
    joins_items(ts, i) && sql_lexer::is_word(ts, i + 2, "on"@)
}

/// It is joined there under another name.
pub open spec fn joins_items_renamed(ts: Seq<sql_lexer::Tok>, i: int) -> bool {
    joins_items(ts, i) && sql_lexer::is_word(ts, i + 2, "as"@)
}

pub open spec fn reads_item_settings(ts: Seq<sql_lexer::Tok>, i: int) -> bool {
    sql_lexer::is_word(ts, i, "from"@) && sql_lexer::is_word(ts, i + 1, "metadata_item_settings"@)
}

/// The statement starts from `metadata_item_settings` and joins
/// `metadata_items` to itself, once under its own name: PostgreSQL then takes a
/// column of it for ambiguous.
pub open spec fn is_self_join(ts: Seq<sql_lexer::Tok>) -> bool {
    &&& exists|i: int| reads_item_settings(ts, i)
    &&& exists|i: int| joins_items_bare(ts, i)
    &&& exists|i: int| joins_items_renamed(ts, i)
}

fn self_join(lx: &Lexed) -> (b: bool)
    requires
        lx.well_formed(),
    ensures
        b == is_self_join(lx.tokens()),
{
    let n = lx.spans.len();
    let mut settings = false;
    let mut bare = false;
    let mut renamed = false;
    let mut i: usize = 0;
    while i < n
        invariant
            lx.well_formed(),
            n == lx.tokens().len(),
            i <= n,
            settings == (exists|k: int| k < i && #[trigger] reads_item_settings(lx.tokens(), k)),
            bare == (exists|k: int| k < i && #[trigger] joins_items_bare(lx.tokens(), k)),
            renamed == (exists|k: int| k < i && #[trigger] joins_items_renamed(lx.tokens(), k)),
        decreases n - i,
    {
        let s = lx.is_word(i, 0, "from") && lx.is_word(i, 1, "metadata_item_settings");
        let j = lx.is_word(i, 0, "join") && lx.is_word(i, 1, "metadata_items");
        let b = j && lx.is_word(i, 2, "on");
        let r = j && lx.is_word(i, 2, "as");
        assert(s == reads_item_settings(lx.tokens(), i as int));
        assert(b == joins_items_bare(lx.tokens(), i as int));
        assert(r == joins_items_renamed(lx.tokens(), i as int));
        settings = settings || s;
        bare = bare || b;
        renamed = renamed || r;
        i = i + 1;
    }
    settings && bare && renamed
}

/// The rule for a table joined to itself: the table under its own name becomes
/// `mi`, where it is joined and where its columns are named.
pub open spec fn alias_rule(ts: Seq<sql_lexer::Tok>, i: int) -> Option<Edit> {
    if joins_items_bare(ts, i) {
        Some(Edit { taken: 2, text: two_tokens(ts, i) + " AS mi"@ })
    } else if sql_lexer::is_word(ts, i, "metadata_items"@) && sql_lexer::is_symbol(ts, i + 1, '.') {
        Some(Edit { taken: 1, text: ts[i].lead + "mi"@ })
    } else {
        None
    }
}

fn apply_alias_rule(lx: &Lexed, i: usize) -> (done: Option<Replacement>)
    requires
        lx.well_formed(),
        i < lx.tokens().len(),
    ensures
        agrees(done, alias_rule(lx.tokens(), i as int)),
{
    if lx.is_word(i, 0, "join") && lx.is_word(i, 1, "metadata_items") && lx.is_word(i, 2, "on") {
        let mut out = copy_two(lx, i);
        append_str(&mut out, " AS mi");
        Some(Replacement { taken: 2, text: out })
    } else if lx.is_word(i, 0, "metadata_items") && lx.is_symbol(i, 1, '.') {
        let mut out: Vec<char> = Vec::new();
        append(&mut out, lx.lead(i));
        append_str(&mut out, "mi");
        assert(out@ =~= lx.tokens()[i as int].lead + "mi"@);
        Some(Replacement { taken: 1, text: out })
    } else {
        None
    }
}

/// One walk over the tokens of a statement, and the rules it goes by.
#[derive(Clone, Copy, PartialEq, Eq, Structural, Debug)]
pub enum Pass {
    AliasSelfJoin,
    SqliteWords { table: bool },
    LowerNocase,
}

/// What a pass does at token `i`.
pub open spec fn rule(pass: Pass, ts: Seq<sql_lexer::Tok>, i: int) -> Option<Edit> {
    match pass {
        Pass::AliasSelfJoin => alias_rule(ts, i),
        Pass::SqliteWords { table } => sqlite_rule(ts, i, table),
        Pass::LowerNocase => nocase::nocase_rule(ts, i),
    }
}

/// A rule takes at least one token, and only tokens that are there.
pub proof fn lemma_rule_moves_on(pass: Pass, ts: Seq<sql_lexer::Tok>, i: int)
    requires
        0 <= i < ts.len(),
    ensures
        rule(pass, ts, i) is Some ==> 1 <= rule(pass, ts, i)->0.taken <= ts.len() - i,
{
    lemma_behind_closing(ts, i + 2, 1);
}

/// What a pass makes of the tokens from `i` on: where a rule fires its text,
/// and elsewhere the tokens as they stand.
pub open spec fn rewritten(pass: Pass, ts: Seq<sql_lexer::Tok>, i: int) -> Seq<char>
    decreases ts.len() - i,
{
    if i < 0 || i >= ts.len() {
        Seq::empty()
    } else {
        proof {
            lemma_rule_moves_on(pass, ts, i);
        }
        match rule(pass, ts, i) {
            Some(edit) => edit.text + rewritten(pass, ts, i + edit.taken),
            None => ts[i].lead + ts[i].text + rewritten(pass, ts, i + 1),
        }
    }
}

fn apply_rule(pass: Pass, lx: &Lexed, i: usize) -> (done: Option<Replacement>)
    requires
        lx.well_formed(),
        i < lx.tokens().len(),
    ensures
        agrees(done, rule(pass, lx.tokens(), i as int)),
{
    match pass {
        Pass::AliasSelfJoin => apply_alias_rule(lx, i),
        Pass::SqliteWords { table } => apply_sqlite_rule(lx, i, table),
        Pass::LowerNocase => nocase::apply_nocase_rule(lx, i),
    }
}

/// Walks over the tokens from `start` on and appends what becomes of them.
#[verifier::rlimit(40)]
fn rewrite(pass: Pass, lx: &Lexed, start: usize, out: &mut Vec<char>)
    requires
        lx.well_formed(),
        start <= lx.tokens().len(),
    ensures
        final(out)@ == old(out)@ + rewritten(pass, lx.tokens(), start as int),
{
    let n = lx.spans.len();
    let ghost ts = lx.tokens();
    let ghost before = out@;
    let mut i: usize = start;
    assert(before + rewritten(pass, ts, start as int) =~= out@ + rewritten(pass, ts, i as int));
    while i < n
        invariant
            lx.well_formed(),
            ts == lx.tokens(),
            n == ts.len(),
            start <= i <= n,
            before + rewritten(pass, ts, start as int) == out@ + rewritten(pass, ts, i as int),
        decreases n - i,
    {
        proof {
            lemma_rule_moves_on(pass, ts, i as int);
        }
        let ghost so_far = out@;
        match apply_rule(pass, lx, i) {
            Some(r) => {
                append(out, r.text.as_slice());
                assert(so_far + rewritten(pass, ts, i as int) =~= out@ + rewritten(
                    pass,
                    ts,
                    i + r.taken,
                ));
                i = i + r.taken;
            },
            None => {
                append(out, lx.lead(i));
                append(out, lx.text(i));
                assert(so_far + rewritten(pass, ts, i as int) =~= out@ + rewritten(
                    pass,
                    ts,
                    i + 1,
                ));
                i = i + 1;
            },
        }
    }
    assert(out@ + rewritten(pass, ts, i as int) =~= out@);
}

/// What a pass makes of a whole text.
pub open spec fn passed(pass: Pass, s: Seq<char>) -> Seq<char> {
    rewritten(pass, sql_lexer::lex(s), 0) + sql_lexer::tail(s)
}

fn run(pass: Pass, lx: &Lexed) -> (out: Vec<char>)
    requires
        lx.well_formed(),
    ensures
        out@ == passed(pass, lx.source@),
{
    let mut out: Vec<char> = Vec::new();
    rewrite(pass, lx, 0, &mut out);
    assert(out@ =~= rewritten(pass, lx.tokens(), 0));
    append(&mut out, lx.tail());
    assert(out@ =~= passed(pass, lx.source@));
    out
}

/// The statement creates a table.
pub open spec fn creates_table(ts: Seq<sql_lexer::Tok>) -> bool {
    let temporary = sql_lexer::is_word(ts, 1, "temp"@) || sql_lexer::is_word(ts, 1, "temporary"@);
    &&& sql_lexer::is_word(ts, 0, "create"@)
    &&& sql_lexer::is_word(ts, 1, "table"@) || temporary && sql_lexer::is_word(ts, 2, "table"@)
}

fn table_created(lx: &Lexed) -> (b: bool)
    requires
        lx.well_formed(),
    ensures
        b == creates_table(lx.tokens()),
{
    lx.is_word(0, 0, "create") && (lx.is_word(0, 1, "table") || ((lx.is_word(0, 1, "temp")
        || lx.is_word(0, 1, "temporary")) && lx.is_word(0, 2, "table")))
}

/// A statement whose table that is joined to itself has a name of its own.
pub open spec fn with_alias(s: Seq<char>) -> Seq<char> {
    if is_self_join(sql_lexer::lex(s)) {
        passed(Pass::AliasSelfJoin, s)
    } else {
        s
    }
}

/// A statement without the words of SQLite. Collations that ignore case are
/// still there.
pub open spec fn preprocessed(s: Seq<char>) -> Seq<char> {
    let t = with_alias(s);
    passed(Pass::SqliteWords { table: creates_table(sql_lexer::lex(t)) }, t)
}

pub(crate) fn preprocess_chars(source: Vec<char>) -> (out: Vec<char>)
    ensures
        out@ == preprocessed(source@),
{
    let ghost s = source@;
    let lx = Lexed::new(source);
    let lx = if self_join(&lx) {
        Lexed::new(run(Pass::AliasSelfJoin, &lx))
    } else {
        lx
    };
    assert(lx.source@ == with_alias(s));
    let table = table_created(&lx);
    run(Pass::SqliteWords { table }, &lx)
}

/// Takes the words of SQLite out of a statement.
pub fn preprocess(sql: &str) -> (out: String)
    ensures
        out@ == preprocessed(sql@),
{
    let out = preprocess_chars(text::to_chars(sql));
    text::to_text(out.as_slice())
}

/// What becomes of a statement that needs no rule of its own.
pub open spec fn reworded(s: Seq<char>) -> Seq<char> {
    passed(Pass::LowerNocase, preprocessed(s))
}

pub(crate) fn reword(source: Vec<char>) -> (out: Vec<char>)
    ensures
        out@ == reworded(source@),
{
    let lx = Lexed::new(preprocess_chars(source));
    run(Pass::LowerNocase, &lx)
}

/// Token `i` is a word without which no rule but that for the alias fires.
pub open spec fn is_rule_word(ts: Seq<sql_lexer::Tok>, i: int) -> bool {
    ||| sql_lexer::is_word(ts, i, "collate"@)
    ||| sql_lexer::is_word(ts, i, "indexed"@)
    ||| sql_lexer::is_word(ts, i, "group"@)
    ||| sql_lexer::is_word(ts, i, "without"@)
    ||| sql_lexer::is_word(ts, i, "strict"@)
    ||| sql_lexer::is_word(ts, i, "regexp"@)
    ||| sql_lexer::is_word(ts, i, "glob"@)
    ||| sql_lexer::is_word(ts, i, "in"@)
    ||| sql_lexer::is_word(ts, i, "raise"@)
    ||| sql_lexer::is_word(ts, i, "limit"@)
    ||| sql_lexer::is_word(ts, i, "sqlite_master"@)
}

/// Token `i` is a word without which no rule fires.
pub open spec fn is_sqlite_word(ts: Seq<sql_lexer::Tok>, i: int) -> bool {
    is_rule_word(ts, i) || sql_lexer::is_word(ts, i, "metadata_item_settings"@)
}

/// No token is a word of SQLite that a rule needs. Such a word within a literal,
/// a quoted name or a comment does not count.
pub open spec fn is_plain(ts: Seq<sql_lexer::Tok>) -> bool {
    forall|i: int| !#[trigger] is_sqlite_word(ts, i)
}

proof fn lemma_plain_has_no_nocase(ts: Seq<sql_lexer::Tok>, i: int)
    requires
        forall|k: int| !#[trigger] is_rule_word(ts, k),
        0 <= i,
    ensures
        nocase::nocase_rule(ts, i) == (if sql_lexer::is_symbol(ts, i, '.') && sql_lexer::is_name(
            ts,
            i + 1,
        ) {
            Some(Edit { taken: 2, text: two_tokens(ts, i) })
        } else {
            None
        }),
{
    assert forall|k: int| !nocase::is_nocase(ts, k) by {
        assert(!is_rule_word(ts, k));
    }
    nocase::lemma_nocase_at(ts, i, 0);
}

proof fn lemma_plain_tokens_stay(pass: Pass, ts: Seq<sql_lexer::Tok>, i: int)
    requires
        forall|k: int| !#[trigger] is_rule_word(ts, k),
        pass != Pass::AliasSelfJoin,
        0 <= i,
    ensures
        rewritten(pass, ts, i) == sql_lexer::rendered(ts, i),
    decreases ts.len() - i,
{
    if i < ts.len() {
        assert(!is_rule_word(ts, i));
        assert(!is_rule_word(ts, i + 1));
        assert(!is_rule_word(ts, i + 2));
        assert(!is_rule_word(ts, i + 3));
        lemma_plain_tokens_stay(pass, ts, i + 1);
        lemma_plain_has_no_nocase(ts, i);
        if sql_lexer::is_symbol(ts, i, '.') && sql_lexer::is_name(ts, i + 1) {
            lemma_plain_tokens_stay(pass, ts, i + 2);
            assert(rule(pass, ts, i) == Some(Edit { taken: 2, text: two_tokens(ts, i) }));
            assert(sql_lexer::rendered(ts, i + 1) == ts[i + 1].lead + ts[i + 1].text
                + sql_lexer::rendered(ts, i + 2));
            assert(rewritten(pass, ts, i) =~= sql_lexer::rendered(ts, i));
        } else {
            assert(rule(pass, ts, i) is None);
        }
    }
}

/// A statement without a word of SQLite stays as it is, to the letter, whatever
/// its literals, quoted names and comments hold.
pub proof fn law_plain_statement_is_unchanged(s: Seq<char>)
    requires
        is_plain(sql_lexer::lex(s)),
    ensures
        preprocessed(s) == s,
        reworded(s) == s,
{
    let ts = sql_lexer::lex(s);
    if is_self_join(ts) {
        let i = choose|i: int| reads_item_settings(ts, i);
        assert(is_sqlite_word(ts, i + 1));
    }
    assert forall|k: int| !#[trigger] is_rule_word(ts, k) by {
        assert(!is_sqlite_word(ts, k));
    }
    lemma_plain_tokens_stay(Pass::SqliteWords { table: creates_table(ts) }, ts, 0);
    lemma_plain_tokens_stay(Pass::LowerNocase, ts, 0);
    sql_lexer::law_lexing_loses_nothing(s);
}

/// Quoted text sets off no rule for the words of SQLite: a keyword within a
/// literal or a quoted name is not one.
pub proof fn law_quoted_text_sets_off_no_rule(pass: Pass, ts: Seq<sql_lexer::Tok>, i: int)
    requires
        0 <= i < ts.len(),
        ts[i].kind == TokenKind::Quoted,
        pass != Pass::LowerNocase,
    ensures
        rule(pass, ts, i) is None,
        rewritten(pass, ts, i) == ts[i].lead + ts[i].text + rewritten(pass, ts, i + 1),
{
}

/// The tokens from `i` on of a statement that joins `metadata_items` to itself,
/// once the table that is joined under its own name has the name `mi`: the word
/// `metadata_items` in front of a dot is `mi`, the words `AS mi` follow the table
/// of each join under its own name, and every other token, with the white space
/// and comments before it, is as it was.
pub open spec fn renamed(ts: Seq<sql_lexer::Tok>, i: int) -> Seq<sql_lexer::Tok>
    decreases ts.len() - i,
{
    if i < 0 || i >= ts.len() {
        Seq::empty()
    } else if sql_lexer::is_word(ts, i, "metadata_items"@) && sql_lexer::is_symbol(
        ts,
        i + 1,
        '.',
    ) {
        seq![(sql_lexer::Tok { text: seq!['m', 'i'], ..ts[i] })] + renamed(ts, i + 1)
    } else if sql_lexer::is_word(ts, i - 1, "join"@) && sql_lexer::is_word(
        ts,
        i,
        "metadata_items"@,
    ) && sql_lexer::is_word(ts, i + 1, "on"@) {
        seq![
            ts[i],
            (sql_lexer::Tok { kind: TokenKind::Word, lead: seq![' '], text: seq!['A', 'S'] }),
            (sql_lexer::Tok { kind: TokenKind::Word, lead: seq![' '], text: seq!['m', 'i'] }),
        ] + renamed(ts, i + 1)
    } else {
        seq![ts[i]] + renamed(ts, i + 1)
    }
}

/// A word that is `metadata_items` in whatever case starts with a letter.
proof fn lemma_items_word(ts: Seq<sql_lexer::Tok>, i: int)
    requires
        sql_lexer::is_word(ts, i, "metadata_items"@),
    ensures
        ts[i].text.len() > 0,
        relexing::is_letter(ts[i].text[0]),
        !sql_lexer::is_word(ts, i, "join"@),
{
    reveal_strlit("metadata_items");
    reveal_strlit("join");
    assert("metadata_items"@.len() == 14 && "join"@.len() == 4);
    let low = sql_lexer::lowered(ts[i].text);
    assert(low.len() == ts[i].text.len());
    assert(low[0] == 'm');
    assert(low[0] == sql_lexer::lower_char(ts[i].text[0]));
}

/// One blank and a word of letters before a text that does not go on with a
/// word are a token of it.
proof fn lemma_blank_and_word(word: Seq<char>, rest: Seq<char>)
    requires
        word.len() > 0,
        forall|k: int| 0 <= k < word.len() ==> relexing::is_letter(#[trigger] word[k]),
        rest.len() == 0 || !sql_lexer::is_word_char(rest[0]),
    ensures
        sql_lexer::lex(seq![' '] + word + rest) == seq![
            (sql_lexer::Tok { kind: TokenKind::Word, lead: seq![' '], text: word }),
        ] + sql_lexer::lex(rest),
        sql_lexer::tail(seq![' '] + word + rest) == sql_lexer::tail(rest),
{
    relexing::lemma_letters_are_a_word(word, rest);
    let after = word + rest;
    let s = seq![' '] + after;
    assert(s[0] == ' ');
    assert(s[1] == after[0]);
    assert(sql_lexer::lead_end(s, 0) == sql_lexer::lead_end(s, 1));
    assert(s.len() > 2 ==> s[2] == after[1]);
    assert(sql_lexer::lead_end(s, 1) == 1);
    relexing::lemma_token_before(seq![' '], word, rest);
}

/// The text that the alias pass makes of the tokens from `i` on is cut into the
/// tokens with the new name.
proof fn lemma_renamed(s: Seq<char>, i: int)
    requires
        0 <= i <= sql_lexer::lex(s).len(),
        !joins_items_bare(sql_lexer::lex(s), i - 1),
    ensures
        ({
            let ts = sql_lexer::lex(s);
            let was = sql_lexer::rendered(ts, i) + sql_lexer::tail(s);
            let now = rewritten(Pass::AliasSelfJoin, ts, i) + sql_lexer::tail(s);
            &&& sql_lexer::lex(now) == renamed(ts, i)
            &&& sql_lexer::tail(now) == sql_lexer::tail(s)
            &&& relexing::starts_alike(was, now)
        }),
    decreases sql_lexer::lex(s).len() - i,
{
    let ts = sql_lexer::lex(s);
    let tail = sql_lexer::tail(s);
    let was = sql_lexer::rendered(ts, i) + tail;
    let now = rewritten(Pass::AliasSelfJoin, ts, i) + tail;
    if i == ts.len() {
        relexing::lemma_lex_suffix(s, i);
        assert(was =~= now);
        assert(ts.skip(i) =~= Seq::empty());
    } else if joins_items_bare(ts, i) {
        lemma_items_word(ts, i + 1);
        assert(!joins_items_bare(ts, i + 1));
        lemma_renamed(s, i + 2);
        lemma_join_renamed(s, i, rewritten(Pass::AliasSelfJoin, ts, i + 2) + tail);
        reveal_strlit(" AS mi");
        assert(" AS mi"@ =~= seq![' ', 'A', 'S', ' ', 'm', 'i']);
        assert(now =~= two_tokens(ts, i) + seq![' ', 'A', 'S', ' ', 'm', 'i'] + (rewritten(
            Pass::AliasSelfJoin,
            ts,
            i + 2,
        ) + tail));
    } else {
        lemma_renamed(s, i + 1);
        relexing::lemma_token_at(s, i);
        let t = ts[i];
        let rest_was = sql_lexer::rendered(ts, i + 1) + tail;
        let rest = rewritten(Pass::AliasSelfJoin, ts, i + 1) + tail;
        if sql_lexer::is_word(ts, i, "metadata_items"@) && sql_lexer::is_symbol(ts, i + 1, '.') {
            lemma_items_word(ts, i);
            relexing::lemma_word_replaced(t.lead, t.text, seq!['m', 'i'], rest_was, rest);
            reveal_strlit("mi");
            assert("mi"@ =~= seq!['m', 'i']);
            assert(now =~= t.lead + seq!['m', 'i'] + rest);
        } else {
            relexing::lemma_token_kept(t.lead, t.text, rest_was, rest);
            assert(now =~= t.lead + t.text + rest);
        }
    }
}

/// The tokens of a join under the table's own name, once it has the name `mi`.
proof fn lemma_join_renamed(s: Seq<char>, i: int, last: Seq<char>)
    requires
        joins_items_bare(sql_lexer::lex(s), i),
        !joins_items_bare(sql_lexer::lex(s), i - 1),
        ({
            let ts = sql_lexer::lex(s);
            &&& sql_lexer::lex(last) == renamed(ts, i + 2)
            &&& sql_lexer::tail(last) == sql_lexer::tail(s)
            &&& relexing::starts_alike(
                sql_lexer::rendered(ts, i + 2) + sql_lexer::tail(s),
                last,
            )
        }),
    ensures
        ({
            let ts = sql_lexer::lex(s);
            let was = sql_lexer::rendered(ts, i) + sql_lexer::tail(s);
            let now = two_tokens(ts, i) + seq![' ', 'A', 'S', ' ', 'm', 'i'] + last;
            &&& sql_lexer::lex(now) == renamed(ts, i)
            &&& sql_lexer::tail(now) == sql_lexer::tail(s)
            &&& relexing::starts_alike(was, now)
        }),
{
    let ts = sql_lexer::lex(s);
    let tail = sql_lexer::tail(s);
    let t = ts[i];
    let items = ts[i + 1];
    let last_was = sql_lexer::rendered(ts, i + 2) + tail;
    let rest_was = sql_lexer::rendered(ts, i + 1) + tail;
    lemma_items_word(ts, i + 1);
    relexing::lemma_token_at(s, i);
    relexing::lemma_token_at(s, i + 1);
    relexing::lemma_token_at(s, i + 2);
    relexing::lemma_word_holds(items.text, last_was, last);
    assert(last_was.len() > 0);
    assert(!sql_lexer::is_word_char(last[0]));
    let mi = seq!['m', 'i'];
    let a_s = seq!['A', 'S'];
    lemma_blank_and_word(mi, last);
    let named = seq![' '] + mi + last;
    assert(named[0] == ' ');
    lemma_blank_and_word(a_s, named);
    let as_named = seq![' '] + a_s + named;
    assert(as_named[0] == ' ');
    relexing::lemma_word_kept(items.lead, items.text, last_was, as_named);
    let joined = items.lead + items.text + as_named;
    relexing::lemma_token_kept(t.lead, t.text, rest_was, joined);
    let now = two_tokens(ts, i) + seq![' ', 'A', 'S', ' ', 'm', 'i'] + last;
    assert(now =~= t.lead + t.text + joined);
    lemma_two_renamed(ts, i);
    assert(sql_lexer::lex(now) =~= renamed(ts, i));
}

proof fn lemma_two_renamed(ts: Seq<sql_lexer::Tok>, i: int)
    requires
        joins_items_bare(ts, i),
        !joins_items_bare(ts, i - 1),
    ensures
        renamed(ts, i) == seq![ts[i]] + (seq![
            ts[i + 1],
            (sql_lexer::Tok { kind: TokenKind::Word, lead: seq![' '], text: seq!['A', 'S'] }),
            (sql_lexer::Tok { kind: TokenKind::Word, lead: seq![' '], text: seq!['m', 'i'] }),
        ] + renamed(ts, i + 2)),
{
    if sql_lexer::is_word(ts, i, "metadata_items"@) {
        lemma_items_word(ts, i);
    }
    assert(!sql_lexer::is_symbol(ts, i + 2, '.'));
    assert(renamed(ts, i) == seq![ts[i]] + renamed(ts, i + 1));
}

/// A statement that starts from `metadata_item_settings` and joins
/// `metadata_items` to itself, once under its own name and once under another,
/// is cut into the same tokens afterwards, in the same order and each with the
/// white space and comments it had before it, except that the word
/// `metadata_items` in front of a dot is the word `mi`, and that the words `AS
/// mi` follow the table of each join under its own name. What stands behind the
/// last token stays as well.
pub proof fn law_self_join_keeps_its_tokens(s: Seq<char>)
    requires
        ({
            let ts = sql_lexer::lex(s);
            &&& exists|i: int| #[trigger]
                sql_lexer::is_word(ts, i, "from"@) && sql_lexer::is_word(
                    ts,
                    i + 1,
                    "metadata_item_settings"@,
                )
            &&& exists|i: int| #[trigger]
                sql_lexer::is_word(ts, i, "join"@) && sql_lexer::is_word(
                    ts,
                    i + 1,
                    "metadata_items"@,
                ) && sql_lexer::is_word(ts, i + 2, "on"@)
            &&& exists|i: int| #[trigger]
                sql_lexer::is_word(ts, i, "join"@) && sql_lexer::is_word(
                    ts,
                    i + 1,
                    "metadata_items"@,
                ) && sql_lexer::is_word(ts, i + 2, "as"@)
        }),
    ensures
        sql_lexer::lex(with_alias(s)) == renamed(sql_lexer::lex(s), 0),
        sql_lexer::tail(with_alias(s)) == sql_lexer::tail(s),
{
    let ts = sql_lexer::lex(s);
    let a = choose|i: int| #[trigger]
        sql_lexer::is_word(ts, i, "from"@) && sql_lexer::is_word(
            ts,
            i + 1,
            "metadata_item_settings"@,
        );
    assert(reads_item_settings(ts, a));
    let b = choose|i: int| #[trigger]
        sql_lexer::is_word(ts, i, "join"@) && sql_lexer::is_word(ts, i + 1, "metadata_items"@)
            && sql_lexer::is_word(ts, i + 2, "on"@);
    assert(joins_items_bare(ts, b));
    let c = choose|i: int| #[trigger]
        sql_lexer::is_word(ts, i, "join"@) && sql_lexer::is_word(ts, i + 1, "metadata_items"@)
            && sql_lexer::is_word(ts, i + 2, "as"@);
    assert(joins_items_renamed(ts, c));
    lemma_renamed(s, 0);
}

/// The new name is no word of SQLite.
proof fn lemma_renamed_has_no_rule_word(ts: Seq<sql_lexer::Tok>, i: int, j: int)
    requires
        0 <= i,
        forall|k: int| !#[trigger] is_rule_word(ts, k),
    ensures
        !is_rule_word(renamed(ts, i), j),
    decreases ts.len() - i,
{
    let all = renamed(ts, i);
    if i < ts.len() && 0 <= j < all.len() {
        let rest = renamed(ts, i + 1);
        let n = all.len() - rest.len();
        assert(!is_rule_word(ts, i));
        if j >= n {
            lemma_renamed_has_no_rule_word(ts, i + 1, j - n);
            assert(all[j] == rest[j - n]);
        } else if all[j] != ts[i] {
            lemma_new_name_is_no_rule_word(all, j);
        }
    }
}

proof fn lemma_new_name_is_no_rule_word(ts: Seq<sql_lexer::Tok>, j: int)
    requires
        0 <= j < ts.len(),
        ts[j].text == seq!['m', 'i'] || ts[j].text == seq!['A', 'S'],
    ensures
        !is_rule_word(ts, j),
{
    reveal_strlit("collate");
    reveal_strlit("indexed");
    reveal_strlit("group");
    reveal_strlit("without");
    reveal_strlit("strict");
    reveal_strlit("regexp");
    reveal_strlit("glob");
    reveal_strlit("in");
    reveal_strlit("raise");
    reveal_strlit("limit");
    reveal_strlit("sqlite_master");
    assert("collate"@.len() == 7 && "indexed"@.len() == 7 && "group"@.len() == 5);
    assert("without"@.len() == 7 && "strict"@.len() == 6 && "regexp"@.len() == 6);
    assert("glob"@.len() == 4 && "raise"@.len() == 5 && "limit"@.len() == 5);
    assert("sqlite_master"@.len() == 13 && "in"@.len() == 2 && "in"@[0] == 'i');
    let low = sql_lexer::lowered(ts[j].text);
    assert(low.len() == 2);
    assert(low[0] == 'm' || low[0] == 'a');
}

/// Without another word of SQLite in it, such a statement is passed on with these
/// tokens and no others.
pub proof fn law_self_join_is_passed_on_renamed(s: Seq<char>)
    requires
        ({
            let ts = sql_lexer::lex(s);
            &&& exists|i: int| #[trigger]
                sql_lexer::is_word(ts, i, "from"@) && sql_lexer::is_word(
                    ts,
                    i + 1,
                    "metadata_item_settings"@,
                )
            &&& exists|i: int| #[trigger]
                sql_lexer::is_word(ts, i, "join"@) && sql_lexer::is_word(
                    ts,
                    i + 1,
                    "metadata_items"@,
                ) && sql_lexer::is_word(ts, i + 2, "on"@)
            &&& exists|i: int| #[trigger]
                sql_lexer::is_word(ts, i, "join"@) && sql_lexer::is_word(
                    ts,
                    i + 1,
                    "metadata_items"@,
                ) && sql_lexer::is_word(ts, i + 2, "as"@)
            &&& forall|k: int| !#[trigger] is_rule_word(ts, k)
        }),
    ensures
        sql_lexer::lex(preprocessed(s)) == renamed(sql_lexer::lex(s), 0),
        sql_lexer::tail(preprocessed(s)) == sql_lexer::tail(s),
        reworded(s) == preprocessed(s),
{
    law_self_join_keeps_its_tokens(s);
    let t = with_alias(s);
    let ts = sql_lexer::lex(t);
    assert forall|k: int| !#[trigger] is_rule_word(ts, k) by {
        lemma_renamed_has_no_rule_word(sql_lexer::lex(s), 0, k);
    }
    lemma_plain_tokens_stay(Pass::SqliteWords { table: creates_table(ts) }, ts, 0);
    sql_lexer::law_lexing_loses_nothing(t);
    assert(preprocessed(s) == t);
    lemma_plain_tokens_stay(Pass::LowerNocase, ts, 0);
}

/// A statement that does not read `metadata_item_settings`, or does not join
/// `metadata_items` both under its own name and under another, gets no alias.
pub proof fn law_other_statements_get_no_alias(s: Seq<char>)
    requires
        ({
            let ts = sql_lexer::lex(s);
            ||| forall|i: int|
                !(#[trigger] sql_lexer::is_word(ts, i, "from"@) && sql_lexer::is_word(
                    ts,
                    i + 1,
                    "metadata_item_settings"@,
                ))
            ||| forall|i: int|
                !(#[trigger] sql_lexer::is_word(ts, i, "join"@) && sql_lexer::is_word(
                    ts,
                    i + 1,
                    "metadata_items"@,
                ) && sql_lexer::is_word(ts, i + 2, "on"@))
            ||| forall|i: int|
                !(#[trigger] sql_lexer::is_word(ts, i, "join"@) && sql_lexer::is_word(
                    ts,
                    i + 1,
                    "metadata_items"@,
                ) && sql_lexer::is_word(ts, i + 2, "as"@))
        }),
    ensures
        with_alias(s) == s,
{
    let ts = sql_lexer::lex(s);
    if is_self_join(ts) {
        let a = choose|i: int| reads_item_settings(ts, i);
        let b = choose|i: int| joins_items_bare(ts, i);
        let c = choose|i: int| joins_items_renamed(ts, i);
        assert(sql_lexer::is_word(ts, a, "from"@));
        assert(sql_lexer::is_word(ts, b, "join"@));
        assert(sql_lexer::is_word(ts, c, "join"@));
    }
}

} // verus!
