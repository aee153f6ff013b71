//! What is asked of PostgreSQL in the place of a `PRAGMA`.

use vstd::prelude::*;

use crate::sql_lexer;
use crate::sql_lexer::{append, append_str, Lexed, TokenKind};

verus! {

/// How a `PRAGMA` is written.
#[derive(Clone, Copy, PartialEq, Eq, Structural, Debug)]
pub enum PragmaForm {
    /// `PRAGMA name`.
    Read,
    /// `PRAGMA name = value`.
    Assign,
    /// `PRAGMA name(value)`.
    Call,
    /// Anything else.
    Malformed,
}

/// Where the statement stops: before a semicolon at its end.
pub open spec fn stop(ts: Seq<sql_lexer::Tok>) -> int {
    if sql_lexer::is_symbol(ts, ts.len() - 1, ';') {
        ts.len() - 1
    } else {
        ts.len() as int
    }
}

pub(crate) fn find_stop(lx: &Lexed) -> (n: usize)
    requires
        lx.well_formed(),
    ensures
        n == stop(lx.tokens()),
{
    let n = lx.spans.len();
    if n > 0 && lx.is_symbol(n - 1, 0, ';') {
        n - 1
    } else {
        n
    }
}

/// Where the pragma's name stands: behind the name of a schema, if there is
/// one.
pub open spec fn name_at(ts: Seq<sql_lexer::Tok>) -> int {
    if sql_lexer::is_name(ts, 1) && sql_lexer::is_symbol(ts, 2, '.') {
        3
    } else {
        1
    }
}

pub open spec fn form(ts: Seq<sql_lexer::Tok>) -> PragmaForm {
    let k = name_at(ts);
    let n = stop(ts);
    if !(k < n && ts[k].kind == TokenKind::Word) {
        PragmaForm::Malformed
    } else if k + 1 == n {
        PragmaForm::Read
    } else if sql_lexer::is_symbol(ts, k + 1, '=') && k + 2 < n {
        PragmaForm::Assign
    } else if sql_lexer::is_symbol(ts, k + 1, '(') && k + 2 < n - 1 && sql_lexer::is_symbol(
        ts,
        n - 1,
        ')',
    ) {
        PragmaForm::Call
    } else {
        PragmaForm::Malformed
    }
}

/// Where the pragma's value ends.
pub open spec fn value_end(ts: Seq<sql_lexer::Tok>) -> int {
    if form(ts) == PragmaForm::Call {
        stop(ts) - 1
    } else {
        stop(ts)
    }
}

/// `s` with each single quote doubled, as in a literal.
pub open spec fn doubled(s: Seq<char>) -> Seq<char>
    decreases s.len(),
{
    if s.len() == 0 {
        Seq::empty()
    } else if s[0] == '\'' {
        seq!['\'', '\''] + doubled(s.skip(1))
    } else {
        seq![s[0]] + doubled(s.skip(1))
    }
}

fn double(s: &[char]) -> (out: Vec<char>)
    ensures
        out@ == doubled(s@),
{
    let mut out: Vec<char> = Vec::new();
    let mut i: usize = 0;
    assert(s@.skip(0) =~= s@);
    assert(out@ + doubled(s@) =~= doubled(s@));
    while i < s.len()
        invariant
            i <= s@.len(),
            out@ + doubled(s@.skip(i as int)) == doubled(s@),
        decreases s@.len() - i,
    {
        let ghost before = out@;
        let c = s[i];
        out.push(c);
        if c == '\'' {
            out.push(c);
        }
        assert(s@.skip(i as int).skip(1) =~= s@.skip(i + 1));
        assert(before + doubled(s@.skip(i as int)) =~= out@ + doubled(s@.skip(i + 1)));
        i = i + 1;
    }
    assert(doubled(s@.skip(i as int)) =~= Seq::empty());
    assert(out@ =~= doubled(s@));
    out
}

proof fn lemma_doubled_reads_back(before: Seq<char>, v: Seq<char>)
    ensures
        sql_lexer::quoted_value(
            before + doubled(v) + seq!['\''],
            before.len() as int,
            '\'',
        ) == v,
    decreases v.len(),
{
    let s = before + doubled(v) + seq!['\''];
    let i = before.len() as int;
    if v.len() == 0 {
        assert(s[i] == '\'');
    } else {
        let rest = v.skip(1);
        let first = if v[0] == '\'' {
            seq!['\'', '\'']
        } else {
            seq![v[0]]
        };
        lemma_doubled_reads_back(before + first, rest);
        assert(s =~= before + first + doubled(rest) + seq!['\'']);
        assert(s[i] == first[0]);
        assert(v =~= seq![v[0]] + rest);
    }
}

/// A value that is written as a literal, quoted and with its quotes doubled, is
/// read back as it was.
pub proof fn law_literal_reads_back(v: Seq<char>)
    ensures
        sql_lexer::quoted_value(seq!['\''] + doubled(v) + seq!['\''], 1, '\'') == v,
{
    lemma_doubled_reads_back(seq!['\''], v);
}

/// The value that the tokens from `from` to `to` write: what quoted text stands
/// for, and else the text itself.
pub open spec fn value(ts: Seq<sql_lexer::Tok>, from: int, to: int) -> Seq<char> {
    if to == from + 1 && ts[from].kind == TokenKind::Quoted && ts[from].text.len() > 0 {
        sql_lexer::quoted_value(ts[from].text, 1, sql_lexer::closing_quote(ts[from].text[0]))
    } else {
        sql_lexer::joined(ts, from, to)
    }
}

fn read_value(lx: &Lexed, from: usize, to: usize) -> (out: Vec<char>)
    requires
        lx.well_formed(),
        from < to <= lx.tokens().len(),
    ensures
        out@ == value(lx.tokens(), from as int, to as int),
{
    if to - from == 1 && lx.spans[from].kind == TokenKind::Quoted {
        let part = lx.text(from);
        if part.len() > 0 {
            return sql_lexer::read_quoted(part);
        }
    }
    lx.join(from, to)
}

/// A setting that only SQLite has; its value is kept for the session.
pub open spec fn is_kept_setting(ts: Seq<sql_lexer::Tok>, i: int) -> bool {
    ||| sql_lexer::is_word(ts, i, "journal_mode"@)
    ||| sql_lexer::is_word(ts, i, "temp_store"@)
    ||| sql_lexer::is_word(ts, i, "cache_size"@)
    ||| sql_lexer::is_word(ts, i, "locking_mode"@)
    ||| sql_lexer::is_word(ts, i, "wal_autocheckpoint"@)
    ||| sql_lexer::is_word(ts, i, "mmap_size"@)
    ||| sql_lexer::is_word(ts, i, "page_size"@)
    ||| sql_lexer::is_word(ts, i, "auto_vacuum"@)
}

/// The setting of PostgreSQL that stands in for the pragma that token `i`
/// names.
pub open spec fn setting(ts: Seq<sql_lexer::Tok>, i: int) -> Option<Seq<char>> {
    if sql_lexer::is_word(ts, i, "busy_timeout"@) {
        Some("lock_timeout"@)
    } else if sql_lexer::is_word(ts, i, "synchronous"@) {
        Some("synchronous_commit"@)
    } else if is_kept_setting(ts, i) {
        Some("plex.sqlite."@ + sql_lexer::lowered(ts[i].text))
    } else {
        None
    }
}

fn find_setting(lx: &Lexed, i: usize) -> (found: Option<Vec<char>>)
    requires
        lx.well_formed(),
        i < lx.tokens().len(),
    ensures
        match found {
            Some(name) => setting(lx.tokens(), i as int) == Some(name@),
            None => setting(lx.tokens(), i as int) is None,
        },
{
    let mut name: Vec<char> = Vec::new();
    assert(name@ =~= Seq::empty());
    if lx.is_word(i, 0, "busy_timeout") {
        append_str(&mut name, "lock_timeout");
        assert(name@ =~= "lock_timeout"@);
        Some(name)
    } else if lx.is_word(i, 0, "synchronous") {
        append_str(&mut name, "synchronous_commit");
        assert(name@ =~= "synchronous_commit"@);
        Some(name)
    } else if lx.is_word(i, 0, "journal_mode") || lx.is_word(i, 0, "temp_store") || lx.is_word(
        i,
        0,
        "cache_size",
    ) || lx.is_word(i, 0, "locking_mode") || lx.is_word(i, 0, "wal_autocheckpoint") || lx.is_word(
        i,
        0,
        "mmap_size",
    ) || lx.is_word(i, 0, "page_size") || lx.is_word(i, 0, "auto_vacuum") {
        append_str(&mut name, "plex.sqlite.");
        let low = sql_lexer::lower(lx.text(i));
        append(&mut name, low.as_slice());
        assert(name@ =~= "plex.sqlite."@ + sql_lexer::lowered(lx.tokens()[i as int].text));
        Some(name)
    } else {
        None
    }
}

/// The value that a setting of PostgreSQL gets for the pragma that token `i`
/// names: whether commits wait for the disk, or the value as it is.
pub open spec fn set_value(ts: Seq<sql_lexer::Tok>, i: int) -> Seq<char> {
    let v = value(ts, i + 2, value_end(ts));
    if sql_lexer::is_word(ts, i, "synchronous"@) {
        if sql_lexer::lowered(v) == "off"@ || v == "0"@ {
            "off"@
        } else {
            "on"@
        }
    } else {
        v
    }
}

/// What is asked in the place of a `PRAGMA`, if it is one that is known.
pub open spec fn pragma_sql(ts: Seq<sql_lexer::Tok>) -> Option<Seq<char>> {
    let k = name_at(ts);
    let found = setting(ts, k);
    match form(ts) {
        PragmaForm::Malformed => None,
        PragmaForm::Read => if sql_lexer::is_word(ts, k, "foreign_keys"@) {
            Some("SELECT 1 AS foreign_keys"@)
        } else if found is Some {
            Some(
                "SELECT current_setting('"@ + found->0 + "', true) AS "@ + sql_lexer::lowered(
                    ts[k].text,
                ),
            )
        } else {
            None
        },
        _ => if sql_lexer::is_word(ts, k, "foreign_keys"@) {
            Some("SELECT 1"@)
        } else if found is Some {
            Some(
                "SELECT set_config('"@ + found->0 + "', '"@ + doubled(set_value(ts, k))
                    + "', false)"@,
            )
        } else {
            None
        },
    }
}

fn find_form(lx: &Lexed, k: usize, n: usize) -> (f: PragmaForm)
    requires
        lx.well_formed(),
        k == name_at(lx.tokens()),
        n == stop(lx.tokens()),
    ensures
        f == form(lx.tokens()),
{
    if !(k < n && lx.spans[k].kind == TokenKind::Word) {
        PragmaForm::Malformed
    } else if n - k == 1 {
        PragmaForm::Read
    } else if lx.is_symbol(k, 1, '=') && n - k > 2 {
        PragmaForm::Assign
    } else if lx.is_symbol(k, 1, '(') && n - k > 3 && lx.is_symbol(n - 1, 0, ')') {
        PragmaForm::Call
    } else {
        PragmaForm::Malformed
    }
}

fn find_set_value(lx: &Lexed, k: usize, to: usize) -> (out: Vec<char>)
    requires
        lx.well_formed(),
        k + 2 < to <= lx.tokens().len(),
        to == value_end(lx.tokens()),
    ensures
        out@ == set_value(lx.tokens(), k as int),
{
    let n = lx.spans.len();
    let v = read_value(lx, k + 2, to);
    if lx.is_word(k, 0, "synchronous") {
        let mut out: Vec<char> = Vec::new();
        assert(out@ =~= Seq::empty());
        if sql_lexer::is_lowered(v.as_slice(), "off") || is_zero(v.as_slice()) {
            append_str(&mut out, "off");
            assert(out@ =~= "off"@);
        } else {
            append_str(&mut out, "on");
            assert(out@ =~= "on"@);
        }
        out
    } else {
        v
    }
}

fn is_zero(v: &[char]) -> (b: bool)
    ensures
        b == (v@ == "0"@),
{
    let b = v.len() == 1 && v[0] == '0';
    proof {
        reveal_strlit("0");
    }
    assert(b == (v@ =~= "0"@));
    b
}

/// What is asked in the place of a `PRAGMA`.
pub(crate) fn write_pragma(lx: &Lexed) -> (sql: Option<Vec<char>>)
    requires
        lx.well_formed(),
    ensures
        match sql {
            Some(t) => pragma_sql(lx.tokens()) == Some(t@),
            None => pragma_sql(lx.tokens()) is None,
        },
{
    let n = find_stop(lx);
    let k: usize = if lx.is_name(0, 1) && lx.is_symbol(0, 2, '.') {
        3
    } else {
        1
    };
    let f = find_form(lx, k, n);
    if f == PragmaForm::Malformed {
        return None;
    }
    let mut out: Vec<char> = Vec::new();
    assert(out@ =~= Seq::empty());
    if lx.is_word(k, 0, "foreign_keys") {
        if f == PragmaForm::Read {
            append_str(&mut out, "SELECT 1 AS foreign_keys");
            assert(out@ =~= "SELECT 1 AS foreign_keys"@);
        } else {
            append_str(&mut out, "SELECT 1");
            assert(out@ =~= "SELECT 1"@);
        }
        return Some(out);
    }
    match find_setting(lx, k) {
        None => None,
        Some(name) => {
            if f == PragmaForm::Read {
                append_str(&mut out, "SELECT current_setting('");
                append(&mut out, name.as_slice());
                append_str(&mut out, "', true) AS ");
                let low = sql_lexer::lower(lx.text(k));
                append(&mut out, low.as_slice());
            } else {
                let to = if f == PragmaForm::Call {
                    n - 1
                } else {
                    n
                };
                let v = find_set_value(lx, k, to);
                let quoted = double(v.as_slice());
                append_str(&mut out, "SELECT set_config('");
                append(&mut out, name.as_slice());
                append_str(&mut out, "', '");
                append(&mut out, quoted.as_slice());
                append_str(&mut out, "', false)");
            }
            assert(out@ =~= pragma_sql(lx.tokens())->0);
            Some(out)
        },
    }
}

proof fn lemma_doubled_ends(before: Seq<char>, v: Seq<char>)
    ensures
        sql_lexer::quote_end(
            before + doubled(v) + seq!['\''],
            before.len() as int,
            '\'',
        ) == before.len() + doubled(v).len() + 1,
    decreases v.len(),
{
    let s = before + doubled(v) + seq!['\''];
    let i = before.len() as int;
    if v.len() == 0 {
        assert(s[i] == '\'');
    } else {
        let rest = v.skip(1);
        let first = if v[0] == '\'' {
            seq!['\'', '\'']
        } else {
            seq![v[0]]
        };
        lemma_doubled_ends(before + first, rest);
        assert(s =~= before + first + doubled(rest) + seq!['\'']);
        assert(s[i] == first[0]);
    }
}

/// `literal` is one literal of SQL, from its opening to its closing quote, and
/// `v` is what it stands for.
pub open spec fn is_literal_of(literal: Seq<char>, v: Seq<char>) -> bool {
    &&& literal.len() >= 2
    &&& literal[0] == '\''
    &&& literal.last() == '\''
    &&& sql_lexer::quote_end(literal, 1, '\'') == literal.len()
    &&& sql_lexer::quoted_value(literal, 1, '\'') == v
}

/// `v` is all that the tokens write: what stands for one quoted token, and else
/// their text from the first to the last, with all that stands between them.
pub open spec fn is_whole_value(vs: Seq<sql_lexer::Tok>, v: Seq<char>) -> bool {
    if vs.len() == 1 && vs[0].kind == TokenKind::Quoted && vs[0].text.len() > 0 {
        v == sql_lexer::quoted_value(vs[0].text, 1, sql_lexer::closing_quote(vs[0].text[0]))
    } else {
        vs[0].lead + v == sql_lexer::rendered(vs, 0)
    }
}

/// `sql` sets `setting` for the session to all that the tokens write.
pub open spec fn sets_to(
    sql: Option<Seq<char>>,
    setting: Seq<char>,
    vs: Seq<sql_lexer::Tok>,
) -> bool {
    exists|literal: Seq<char>, v: Seq<char>|
        {
            &&& #[trigger] is_literal_of(literal, v)
            &&& is_whole_value(vs, v)
            &&& sql == Some("SELECT set_config('"@ + setting + "', "@ + literal + ", false)"@)
        }
}

/// What stands between the tokens of a value belongs to it, and what stands
/// before the first does not.
proof fn lemma_joined(ts: Seq<sql_lexer::Tok>, vs: Seq<sql_lexer::Tok>, from: int, to: int)
    requires
        0 <= from < to <= ts.len(),
        vs == ts.subrange(from, to),
    ensures
        vs[0].lead + sql_lexer::joined(ts, from, to) == sql_lexer::rendered(vs, 0),
    decreases to - from,
{
    let last = ts[to - 1];
    let less = vs.drop_last();
    assert(vs =~= less.push(last));
    sql_lexer::lemma_rendered_push(less, last, 0);
    if to == from + 1 {
        assert(sql_lexer::rendered(less, 0) =~= Seq::empty());
        assert(vs[0].lead + vs[0].text =~= sql_lexer::rendered(vs, 0));
    } else {
        assert(less =~= ts.subrange(from, to - 1));
        lemma_joined(ts, less, from, to - 1);
        assert(vs[0].lead + (sql_lexer::joined(ts, from, to - 1) + last.lead + last.text) =~= vs[0].lead
            + sql_lexer::joined(ts, from, to - 1) + last.lead + last.text);
    }
}

proof fn lemma_settings_differ()
    ensures
        "busy_timeout"@ != "synchronous"@,
        "busy_timeout"@ != "foreign_keys"@,
        "synchronous"@ != "foreign_keys"@,
        "journal_mode"@ != "busy_timeout"@ && "journal_mode"@ != "synchronous"@ && "journal_mode"@
            != "foreign_keys"@,
        "temp_store"@ != "busy_timeout"@ && "temp_store"@ != "synchronous"@ && "temp_store"@
            != "foreign_keys"@,
        "cache_size"@ != "busy_timeout"@ && "cache_size"@ != "synchronous"@ && "cache_size"@
            != "foreign_keys"@,
        "locking_mode"@ != "busy_timeout"@ && "locking_mode"@ != "synchronous"@ && "locking_mode"@
            != "foreign_keys"@,
        "wal_autocheckpoint"@ != "busy_timeout"@ && "wal_autocheckpoint"@ != "synchronous"@
            && "wal_autocheckpoint"@ != "foreign_keys"@,
        "mmap_size"@ != "busy_timeout"@ && "mmap_size"@ != "synchronous"@ && "mmap_size"@
            != "foreign_keys"@,
        "page_size"@ != "busy_timeout"@ && "page_size"@ != "synchronous"@ && "page_size"@
            != "foreign_keys"@,
        "auto_vacuum"@ != "busy_timeout"@ && "auto_vacuum"@ != "synchronous"@ && "auto_vacuum"@
            != "foreign_keys"@,
{
    reveal_strlit("busy_timeout");
    reveal_strlit("synchronous");
    reveal_strlit("foreign_keys");
    reveal_strlit("journal_mode");
    reveal_strlit("temp_store");
    reveal_strlit("cache_size");
    reveal_strlit("locking_mode");
    reveal_strlit("wal_autocheckpoint");
    reveal_strlit("mmap_size");
    reveal_strlit("page_size");
    reveal_strlit("auto_vacuum");
    assert("busy_timeout"@[0] == 'b');
    assert("synchronous"@[0] == 's');
    assert("foreign_keys"@[0] == 'f');
    assert("journal_mode"@[0] == 'j');
    assert("temp_store"@[0] == 't');
    assert("cache_size"@[0] == 'c');
    assert("locking_mode"@[0] == 'l');
    assert("wal_autocheckpoint"@[0] == 'w');
    assert("mmap_size"@[0] == 'm');
    assert("page_size"@[0] == 'p');
    assert("auto_vacuum"@[0] == 'a');
}

/// A value is given behind `head` and before `end`: with an equals sign before
/// it, or in parentheses, and in each case with or without a semicolon at the
/// end.
pub open spec fn encloses(
    head: Seq<sql_lexer::Tok>,
    vs: Seq<sql_lexer::Tok>,
    end: Seq<sql_lexer::Tok>,
) -> bool {
    if sql_lexer::is_symbol(head, 2, '=') {
        ||| end.len() == 0 && !sql_lexer::is_symbol(vs, vs.len() - 1, ';')
        ||| end.len() == 1 && sql_lexer::is_symbol(end, 0, ';')
    } else {
        &&& sql_lexer::is_symbol(head, 2, '(')
        &&& sql_lexer::is_symbol(end, 0, ')')
        &&& end.len() == 1 || end.len() == 2 && sql_lexer::is_symbol(end, 1, ';')
    }
}

/// Where the value of a pragma stands in its tokens.
proof fn lemma_value_stands(
    ts: Seq<sql_lexer::Tok>,
    head: Seq<sql_lexer::Tok>,
    vs: Seq<sql_lexer::Tok>,
    end: Seq<sql_lexer::Tok>,
)
    requires
        ts == head + vs + end,
        head.len() == 3,
        head[1].kind == TokenKind::Word,
        vs.len() > 0,
        encloses(head, vs, end),
    ensures
        name_at(ts) == 1,
        form(ts) == PragmaForm::Assign || form(ts) == PragmaForm::Call,
        value_end(ts) == 3 + vs.len(),
        ts.subrange(3, (3 + vs.len()) as int) == vs,
        is_whole_value(vs, value(ts, 3, value_end(ts))),
        value(ts, 3, value_end(ts)) == value(vs, 0, vs.len() as int),
{
    let n = ts.len() as int;
    let m = vs.len() as int;
    assert(ts[1] == head[1] && ts[2] == head[2]);
    assert(ts[3 + m - 1] == vs[m - 1]);
    assert(seq!['.'][0] == '.' && seq!['='][0] == '=' && seq!['('][0] == '(' && seq![')'][0] == ')'
        && seq![';'][0] == ';');
    assert(!sql_lexer::is_symbol(ts, 2, '.'));
    assert(end.len() > 0 ==> ts[3 + m] == end[0]);
    assert(end.len() > 1 ==> ts[4 + m] == end[1]);
    assert(stop(ts) == 3 + m || stop(ts) == 4 + m);
    assert(ts.subrange(3, 3 + m) =~= vs);
    lemma_joined(ts, vs, 3, 3 + m);
    lemma_joined(vs, vs.subrange(0, m), 0, m);
    assert(vs.subrange(0, m) =~= vs);
    assert(ts[3] == vs[0]);
    let a = sql_lexer::joined(ts, 3, 3 + m);
    let b = sql_lexer::joined(vs, 0, m);
    assert((vs[0].lead + a).skip(vs[0].lead.len() as int) =~= a);
    assert((vs[0].lead + b).skip(vs[0].lead.len() as int) =~= b);
}

/// The tokens of `PRAGMA name = value`, or with parentheses about the value, and
/// with or without a semicolon at the end: what is written behind the name.
pub open spec fn is_pragma_setting(
    ts: Seq<sql_lexer::Tok>,
    name: sql_lexer::Tok,
    vs: Seq<sql_lexer::Tok>,
) -> bool {
    exists|head: Seq<sql_lexer::Tok>, end: Seq<sql_lexer::Tok>|
        ts == #[trigger] (head + vs + end) && head.len() == 3 && head[1] == name && encloses(
            head,
            vs,
            end,
        )
}

/// A pragma that sets a value sets all of it: the setting gets the whole text
/// between the equals sign, or the opening parenthesis, and the end of the
/// statement, or the closing one, without a final semicolon and without the
/// space around it; of one quoted token it gets what the quotes hold.
pub proof fn law_pragma_sets_the_whole_value(
    ts: Seq<sql_lexer::Tok>,
    name: sql_lexer::Tok,
    vs: Seq<sql_lexer::Tok>,
)
    requires
        is_pragma_setting(ts, name, vs),
        vs.len() > 0,
        name.kind == TokenKind::Word,
    ensures
        sql_lexer::lowered(name.text) == "busy_timeout"@ ==> sets_to(
            pragma_sql(ts),
            "lock_timeout"@,
            vs,
        ),
        ({
            let low = sql_lexer::lowered(name.text);
            ||| low == "journal_mode"@
            ||| low == "temp_store"@
            ||| low == "cache_size"@
            ||| low == "locking_mode"@
            ||| low == "wal_autocheckpoint"@
            ||| low == "mmap_size"@
            ||| low == "page_size"@
            ||| low == "auto_vacuum"@
        }) ==> sets_to(
            pragma_sql(ts),
            "plex.sqlite."@ + sql_lexer::lowered(name.text),
            vs,
        ),
        sql_lexer::lowered(name.text) == "foreign_keys"@ ==> pragma_sql(ts) == Some("SELECT 1"@),
{
    let (head, end) = choose|head: Seq<sql_lexer::Tok>, end: Seq<sql_lexer::Tok>|
        ts == #[trigger] (head + vs + end) && head.len() == 3 && head[1] == name && encloses(
            head,
            vs,
            end,
        );
    lemma_value_stands(ts, head, vs, end);
    lemma_settings_differ();
    assert(ts[1] == name);
    let v = value(ts, 3, value_end(ts));
    let literal = seq!['\''] + doubled(v) + seq!['\''];
    law_literal_reads_back(v);
    lemma_doubled_ends(seq!['\''], v);
    assert(is_literal_of(literal, v));
    let found = setting(ts, 1);
    if found is Some && !sql_lexer::is_word(ts, 1, "synchronous"@) && !sql_lexer::is_word(
        ts,
        1,
        "foreign_keys"@,
    ) {
        lemma_set_config(found->0, v);
        assert(pragma_sql(ts) == Some(
            "SELECT set_config('"@ + found->0 + "', "@ + literal + ", false)"@,
        ));
    }
}

proof fn lemma_set_config(name: Seq<char>, v: Seq<char>)
    ensures
        "SELECT set_config('"@ + name + "', '"@ + doubled(v) + "', false)"@
            == "SELECT set_config('"@ + name + "', "@ + (seq!['\''] + doubled(v) + seq!['\''])
            + ", false)"@,
{
    reveal_strlit("', '");
    reveal_strlit("', ");
    reveal_strlit("', false)");
    reveal_strlit(", false)");
    assert("', '"@ =~= "', "@ + seq!['\'']);
    assert("', false)"@ =~= seq!['\''] + ", false)"@);
    assert("SELECT set_config('"@ + name + ("', "@ + seq!['\'']) + doubled(v) + (seq!['\'']
        + ", false)"@) =~= "SELECT set_config('"@ + name + "', "@ + (seq!['\''] + doubled(v)
        + seq!['\'']) + ", false)"@);
}

/// `PRAGMA name = value` and `PRAGMA name(value)` become the same statement,
/// with or without a semicolon behind them.
pub proof fn law_both_forms_of_a_pragma_are_one(
    a: Seq<sql_lexer::Tok>,
    b: Seq<sql_lexer::Tok>,
    name: sql_lexer::Tok,
    vs: Seq<sql_lexer::Tok>,
)
    requires
        is_pragma_setting(a, name, vs),
        is_pragma_setting(b, name, vs),
        vs.len() > 0,
        name.kind == TokenKind::Word,
    ensures
        pragma_sql(a) == pragma_sql(b),
{
    lemma_one_form(a, name, vs);
    lemma_one_form(b, name, vs);
}

/// What a pragma that sets a value becomes depends on its name and value alone.
proof fn lemma_one_form(ts: Seq<sql_lexer::Tok>, name: sql_lexer::Tok, vs: Seq<sql_lexer::Tok>)
    requires
        is_pragma_setting(ts, name, vs),
        vs.len() > 0,
        name.kind == TokenKind::Word,
    ensures
        ts[1] == name,
        name_at(ts) == 1,
        ts.len() > 1,
        form(ts) == PragmaForm::Assign || form(ts) == PragmaForm::Call,
        value(ts, 3, value_end(ts)) == value(vs, 0, vs.len() as int),
{
    let (head, end) = choose|head: Seq<sql_lexer::Tok>, end: Seq<sql_lexer::Tok>|
        ts == #[trigger] (head + vs + end) && head.len() == 3 && head[1] == name && encloses(
            head,
            vs,
            end,
        );
    lemma_value_stands(ts, head, vs, end);
}

/// A pragma that is read is read from the setting that it is set in, and the
/// column has the pragma's name.
pub proof fn law_pragma_is_read_where_it_is_set(ts: Seq<sql_lexer::Tok>)
    requires
        ts.len() == 2 || ts.len() == 3 && sql_lexer::is_symbol(ts, 2, ';'),
        ts[1].kind == TokenKind::Word,
    ensures
        sql_lexer::is_word(ts, 1, "busy_timeout"@) ==> pragma_sql(ts) == Some(
            "SELECT current_setting('lock_timeout', true) AS busy_timeout"@,
        ),
        sql_lexer::is_word(ts, 1, "synchronous"@) ==> pragma_sql(ts) == Some(
            "SELECT current_setting('synchronous_commit', true) AS synchronous"@,
        ),
        sql_lexer::is_word(ts, 1, "foreign_keys"@) ==> pragma_sql(ts) == Some(
            "SELECT 1 AS foreign_keys"@,
        ),
        ({
            let low = sql_lexer::lowered(ts[1].text);
            ||| low == "journal_mode"@
            ||| low == "temp_store"@
            ||| low == "cache_size"@
            ||| low == "locking_mode"@
            ||| low == "wal_autocheckpoint"@
            ||| low == "mmap_size"@
            ||| low == "page_size"@
            ||| low == "auto_vacuum"@
        }) ==> pragma_sql(ts) == Some(
            "SELECT current_setting('plex.sqlite."@ + sql_lexer::lowered(ts[1].text)
                + "', true) AS "@ + sql_lexer::lowered(ts[1].text),
        ),
{
    lemma_settings_differ();
    assert(seq![';'][0] == ';' && seq!['.'][0] == '.');
    assert(!sql_lexer::is_symbol(ts, 2, '.'));
    reveal_strlit("SELECT current_setting('");
    reveal_strlit("', true) AS ");
    reveal_strlit("plex.sqlite.");
    reveal_strlit("SELECT current_setting('plex.sqlite.");
    assert("SELECT current_setting('plex.sqlite."@ =~= "SELECT current_setting('"@
        + "plex.sqlite."@);
    assert("SELECT current_setting('"@ + ("plex.sqlite."@ + sql_lexer::lowered(ts[1].text))
        =~= "SELECT current_setting('plex.sqlite."@ + sql_lexer::lowered(ts[1].text));
    reveal_strlit("busy_timeout");
    reveal_strlit("lock_timeout");
    reveal_strlit("SELECT current_setting('lock_timeout', true) AS busy_timeout");
    assert("SELECT current_setting('lock_timeout', true) AS busy_timeout"@
        =~= "SELECT current_setting('"@ + "lock_timeout"@ + "', true) AS "@ + "busy_timeout"@);
    reveal_strlit("synchronous");
    reveal_strlit("synchronous_commit");
    reveal_strlit("SELECT current_setting('synchronous_commit', true) AS synchronous");
    assert("SELECT current_setting('synchronous_commit', true) AS synchronous"@
        =~= "SELECT current_setting('"@ + "synchronous_commit"@ + "', true) AS "@ + "synchronous"@);
}

/// Commits wait for the disk unless the pragma says `OFF`, in whatever case, or
/// zero, bare or quoted.
pub proof fn law_synchronous_is_off_or_on(
    ts: Seq<sql_lexer::Tok>,
    name: sql_lexer::Tok,
    v: sql_lexer::Tok,
)
    requires
        is_pragma_setting(ts, name, seq![v]),
        name.kind == TokenKind::Word,
        sql_lexer::lowered(name.text) == "synchronous"@,
    ensures
        ({
            let said = if v.kind == TokenKind::Quoted && v.text.len() > 0 {
                sql_lexer::quoted_value(v.text, 1, sql_lexer::closing_quote(v.text[0]))
            } else {
                v.text
            };
            pragma_sql(ts) == Some(
                if sql_lexer::lowered(said) == seq!['o', 'f', 'f'] || said == seq!['0'] {
                    "SELECT set_config('synchronous_commit', 'off', false)"@
                } else {
                    "SELECT set_config('synchronous_commit', 'on', false)"@
                },
            )
        }),
{
    lemma_settings_differ();
    lemma_one_form(ts, name, seq![v]);
    reveal_strlit("off");
    reveal_strlit("0");
    reveal_strlit("on");
    assert("off"@ =~= seq!['o', 'f', 'f']);
    assert("0"@ =~= seq!['0']);
    assert("on"@ =~= seq!['o', 'n']);
    assert(doubled("off"@) =~= "off"@) by {
        reveal_with_fuel(doubled, 4);
    }
    assert(doubled("on"@) =~= "on"@) by {
        reveal_with_fuel(doubled, 3);
    }
    reveal_strlit("SELECT set_config('");
    reveal_strlit("synchronous_commit");
    reveal_strlit("', '");
    reveal_strlit("', false)");
    reveal_strlit("SELECT set_config('synchronous_commit', 'off', false)");
    reveal_strlit("SELECT set_config('synchronous_commit', 'on', false)");
    assert("SELECT set_config('"@ + "synchronous_commit"@ + "', '"@ + "off"@ + "', false)"@
        =~= "SELECT set_config('synchronous_commit', 'off', false)"@);
    assert("SELECT set_config('"@ + "synchronous_commit"@ + "', '"@ + "on"@ + "', false)"@
        =~= "SELECT set_config('synchronous_commit', 'on', false)"@);
}

/// The name of a schema before a pragma's does not count: what is asked is what
/// is asked without it.
pub proof fn law_schema_of_a_pragma_does_not_count(
    head: sql_lexer::Tok,
    schema: sql_lexer::Tok,
    dot: sql_lexer::Tok,
    rest: Seq<sql_lexer::Tok>,
)
    requires
        schema.kind != TokenKind::Symbol,
        sql_lexer::is_symbol(seq![dot], 0, '.'),
        rest.len() > 0,
        !(sql_lexer::is_name(rest, 0) && sql_lexer::is_symbol(rest, 1, '.')),
    ensures
        pragma_sql(seq![head, schema, dot] + rest) == pragma_sql(seq![head] + rest),
{
    let long = seq![head, schema, dot] + rest;
    let short = seq![head] + rest;
    let n = rest.len() as int;
    assert(long[1] == schema);
    assert(long[2] == seq![dot][0]);
    assert(name_at(long) == 3);
    assert(short[1] == rest[0]);
    assert(n > 1 ==> short[2] == rest[1]);
    assert(name_at(short) == 1);
    assert forall|k: int| 0 <= k < n implies #[trigger] long[3 + k] == rest[k] && short[1 + k]
        == rest[k] by {}
    assert(long[3 + (n - 1)] == rest[n - 1] && short[1 + (n - 1)] == rest[n - 1]);
    assert(stop(long) == stop(short) + 2);
    if n > 1 {
        assert(long[4] == rest[1] && short[2] == rest[1]);
        assert(long[3 + (n - 2)] == rest[n - 2] && short[1 + (n - 2)] == rest[n - 2]);
    }
    assert(long[3] == rest[0] && short[1] == rest[0]);
    assert(form(long) == form(short));
    if form(short) == PragmaForm::Assign || form(short) == PragmaForm::Call {
        let to = value_end(short);
        assert(value_end(long) == to + 2);
        let vs = short.subrange(3, to);
        assert(vs =~= long.subrange(5, to + 2));
        lemma_joined(short, vs, 3, to);
        lemma_joined(long, vs, 5, to + 2);
        let a = sql_lexer::joined(short, 3, to);
        let b = sql_lexer::joined(long, 5, to + 2);
        assert((vs[0].lead + a).skip(vs[0].lead.len() as int) =~= a);
        assert((vs[0].lead + b).skip(vs[0].lead.len() as int) =~= b);
        assert(long[5] == rest[2] && short[3] == rest[2]);
    }
}

/// A pragma is known by its name: any but eleven is not. And one that says
/// nothing, or goes on with anything but an equals sign or a value in
/// parentheses, is not known either.
pub proof fn law_other_pragmas_are_not_known(ts: Seq<sql_lexer::Tok>)
    requires
        ts.len() <= 1 || !sql_lexer::is_symbol(ts, 2, '.') && ({
            let low = sql_lexer::lowered(ts[1].text);
            ||| ts[1].kind != TokenKind::Word
            ||| {
                &&& low != "busy_timeout"@ && low != "synchronous"@ && low != "foreign_keys"@
                &&& low != "journal_mode"@ && low != "temp_store"@ && low != "cache_size"@
                &&& low != "locking_mode"@ && low != "wal_autocheckpoint"@ && low != "mmap_size"@
                &&& low != "page_size"@ && low != "auto_vacuum"@
            }
            ||| ts.len() >= 4 && !sql_lexer::is_symbol(ts, 2, '=') && !sql_lexer::is_symbol(
                ts,
                2,
                '(',
            )
            ||| sql_lexer::is_symbol(ts, 2, '=') && ts.len() == 3
            ||| sql_lexer::is_symbol(ts, 2, '(') && !sql_lexer::is_symbol(ts, ts.len() - 1, ')')
                && !sql_lexer::is_symbol(ts, ts.len() - 1, ';')
        }),
    ensures
        pragma_sql(ts) is None,
{
    assert(seq!['='][0] == '=' && seq!['('][0] == '(' && seq![';'][0] == ';' && seq![')'][0]
        == ')');
}

} // verus!
