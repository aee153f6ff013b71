//! What the shim decides while the process it was loaded into starts: which
//! functions stand behind its hooks, whether this is a process to take over at
//! all, and what is set up if it is.

use vstd::prelude::*;
use vstd::utf8::*;

use crate::runtime_linux;
use crate::runtime_linux::{CatcherSetup, RuntimeFlags, SignalNumbers};
use crate::text;

verus! {

/// The addresses found for the symbols the shim looks up; zero for one that
/// was not found.
pub struct FoundSymbols {
    pub sigaction: usize,
    pub cxa_throw: usize,
    pub create_simple_converter: usize,
    pub create_simple_codecvt: usize,
    pub create_utf8_codecvt: usize,
    pub create_utf8_converter: usize,
}

/// The functions that stand behind the shim's hooks; zero for none.
pub struct Hooks {
    pub orig_sigaction: usize,
    pub orig_cxa_throw: usize,
    pub orig_create_simple_converter: usize,
    pub shim_create_simple_codecvt_ptr: usize,
    pub shim_create_utf8_codecvt_ptr: usize,
    pub shim_create_simple_converter_ptr: usize,
    pub shim_create_utf8_converter_ptr: usize,
}

/// What a hook holds after a lookup: what was found, or what it held.
pub open spec fn found_or(found: usize, held: usize) -> usize {
    if found != 0 {
        found
    } else {
        held
    }
}

fn keep_found(found: usize, held: usize) -> (now: usize)
    ensures
        now == found_or(found, held),
{
    if found != 0 {
        found
    } else {
        held
    }
}

/// Puts what was found behind the hooks. A symbol that was not found leaves
/// its hook as it was.
pub fn resolve_interposition_hooks(hooks: &mut Hooks, found: &FoundSymbols)
    ensures
        *final(hooks) == (Hooks {
            orig_sigaction: found_or(found.sigaction, old(hooks).orig_sigaction),
            orig_cxa_throw: found_or(found.cxa_throw, old(hooks).orig_cxa_throw),
            orig_create_simple_converter: found_or(
                found.create_simple_converter,
                old(hooks).orig_create_simple_converter,
            ),
            shim_create_simple_codecvt_ptr: found_or(
                found.create_simple_codecvt,
                old(hooks).shim_create_simple_codecvt_ptr,
            ),
            shim_create_utf8_codecvt_ptr: found_or(
                found.create_utf8_codecvt,
                old(hooks).shim_create_utf8_codecvt_ptr,
            ),
            shim_create_simple_converter_ptr: found_or(
                found.create_simple_converter,
                old(hooks).shim_create_simple_converter_ptr,
            ),
            shim_create_utf8_converter_ptr: found_or(
                found.create_utf8_converter,
                old(hooks).shim_create_utf8_converter_ptr,
            ),
        }),
{
    hooks.orig_sigaction = keep_found(found.sigaction, hooks.orig_sigaction);
    hooks.orig_cxa_throw = keep_found(found.cxa_throw, hooks.orig_cxa_throw);
    hooks.orig_create_simple_converter =
    keep_found(found.create_simple_converter, hooks.orig_create_simple_converter);
    hooks.shim_create_simple_codecvt_ptr =
    keep_found(found.create_simple_codecvt, hooks.shim_create_simple_codecvt_ptr);
    hooks.shim_create_utf8_codecvt_ptr =
    keep_found(found.create_utf8_codecvt, hooks.shim_create_utf8_codecvt_ptr);
    hooks.shim_create_simple_converter_ptr =
    keep_found(found.create_simple_converter, hooks.shim_create_simple_converter_ptr);
    hooks.shim_create_utf8_converter_ptr =
    keep_found(found.create_utf8_converter, hooks.shim_create_utf8_converter_ptr);
}

/// A string object that holds the five letters `ASCII` inline, and then the
/// terminator.
pub open spec fn names_ascii(object: Seq<u8>) -> bool {
    object.len() >= 6 && object.take(6) == seq![65u8, 83u8, 67u8, 73u8, 73u8, 0u8]
}

/// Where a request for a character set goes.
pub enum CharsetRoute {
    /// To the function that makes a UTF-8 converter.
    Utf8(usize),
    /// To the function that the request was made to.
    Simple(usize),
    /// Nowhere: neither was found.
    Unresolved,
}

/// Routes a request for the character set named in a string object. One for
/// ASCII, which the application's library refuses, is answered with UTF-8;
/// any other goes where it was sent.
pub fn route_charset(object: &[u8], utf8: usize, simple: usize) -> (route: CharsetRoute)
    ensures
        route == (if names_ascii(object@) && utf8 != 0 {
            CharsetRoute::Utf8(utf8)
        } else if simple != 0 {
            CharsetRoute::Simple(simple)
        } else {
            CharsetRoute::Unresolved
        }),
{
    let ascii = object.len() >= 6 && object[0] == 65 && object[1] == 83 && object[2] == 67
        && object[3] == 73 && object[4] == 73 && object[5] == 0;
    proof {
        if ascii {
            assert(object@.take(6) =~= seq![65u8, 83u8, 67u8, 73u8, 73u8, 0u8]);
        }
        if names_ascii(object@) {
            let six = object@.take(6);
            assert(six[0] == object@[0] && six[1] == object@[1] && six[2] == object@[2] && six[3]
                == object@[3] && six[4] == object@[4] && six[5] == object@[5]);
        }
    }
    if ascii && utf8 != 0 {
        return CharsetRoute::Utf8(utf8);
    }
    if simple != 0 {
        return CharsetRoute::Simple(simple);
    }
    CharsetRoute::Unresolved
}

/// How many places the real SQLite is looked for in.
pub const SQLITE_PATHS: usize = 3;

/// The places the real SQLite is looked for in, in order.
pub open spec fn sqlite_paths() -> Seq<Seq<char>> {
    seq![
        "/usr/local/lib/plex-postgresql/libsqlite3_real.so"@,
        "/usr/lib/plexmediaserver/lib/libsqlite3.so.original"@,
        "/usr/lib/plexmediaserver/lib/libsqlite3.so"@,
    ]
}

/// The place that is tried at this attempt, counting from zero.
pub fn sqlite_path(attempt: usize) -> (path: &'static str)
    requires
        attempt < SQLITE_PATHS,
    ensures
        path@ == sqlite_paths()[attempt as int],
{
    if attempt == 0 {
        "/usr/local/lib/plex-postgresql/libsqlite3_real.so"
    } else if attempt == 1 {
        "/usr/lib/plexmediaserver/lib/libsqlite3.so.original"
    } else {
        "/usr/lib/plexmediaserver/lib/libsqlite3.so"
    }
}

/// What follows an attempt to load the real SQLite.
pub enum LoadStep {
    /// Try the place of this attempt.
    Try(usize),
    /// Take the functions from this library, which the attempt loaded.
    Use { handle: usize, attempt: usize },
    /// Take the functions from whatever the process has loaded next.
    UseNext,
}

/// What follows the attempt that gave `handle`.
pub open spec fn next_load(attempt: int, handle: usize) -> LoadStep {
    if handle != 0 {
        LoadStep::Use { handle, attempt: attempt as usize }
    } else if attempt + 1 < SQLITE_PATHS {
        LoadStep::Try((attempt + 1) as usize)
    } else {
        LoadStep::UseNext
    }
}

/// Decides what follows the attempt that gave `handle`, zero for a failure.
/// Loading begins with attempt zero.
pub fn load_original_functions(attempt: usize, handle: usize) -> (step: LoadStep)
    requires
        attempt < SQLITE_PATHS,
    ensures
        step == next_load(attempt as int, handle),
{
    if handle != 0 {
        return LoadStep::Use { handle, attempt };
    }
    if attempt + 1 < SQLITE_PATHS {
        LoadStep::Try(attempt + 1)
    } else {
        LoadStep::UseNext
    }
}

/// Where loading ends that begins with `attempt`, where `handles[k]` is what
/// attempt `k` gives.
pub open spec fn loaded_from(handles: Seq<usize>, attempt: int) -> LoadStep
    decreases SQLITE_PATHS - attempt,
{
    match next_load(attempt, handles[attempt]) {
        LoadStep::Try(next) => if attempt < next < SQLITE_PATHS {
            loaded_from(handles, next as int)
        } else {
            LoadStep::UseNext
        },
        last => last,
    }
}

/// The first place that can be loaded is the one that is used, and only where
/// none can is SQLite taken from what the process has loaded next.
pub proof fn law_first_loadable_sqlite_is_used(handles: Seq<usize>, k: int)
    requires
        handles.len() == SQLITE_PATHS,
        0 <= k <= SQLITE_PATHS,
        forall|j: int| 0 <= j < k ==> handles[j] == 0,
        k < SQLITE_PATHS ==> handles[k] != 0,
    ensures
        loaded_from(handles, 0) == (if k < SQLITE_PATHS {
            LoadStep::Use { handle: handles[k], attempt: k as usize }
        } else {
            LoadStep::UseNext
        }),
{
    reveal_with_fuel(loaded_from, 4);
}

/// The three functions of SQLite that the shim calls itself; zero for none.
pub struct SqliteFunctions {
    pub prepare_v2: usize,
    pub errmsg: usize,
    pub errcode: usize,
}

/// Gives the shim its own way into SQLite, once: the functions that were
/// loaded, unless it has them already.
pub fn ensure_real_sqlite_loaded(shim: &mut SqliteFunctions, orig: &SqliteFunctions)
    ensures
        *final(shim) == (if old(shim).prepare_v2 != 0 {
            *old(shim)
        } else {
            *orig
        }),
{
    if shim.prepare_v2 != 0 {
        return;
    }
    shim.prepare_v2 = orig.prepare_v2;
    shim.errmsg = orig.errmsg;
    shim.errcode = orig.errcode;
}

/// What follows the last `b` in `s`; all of `s` where there is none.
pub open spec fn after_last(s: Seq<u8>, b: u8) -> Seq<u8>
    decreases s.len(),
{
    if s.len() == 0 || s.last() == b {
        Seq::empty()
    } else {
        after_last(s.drop_last(), b).push(s.last())
    }
}

/// What precedes the first `b` in `s`; all of `s` where there is none.
pub open spec fn before_first(s: Seq<u8>, b: u8) -> Seq<u8>
    decreases s.len(),
{
    if s.len() == 0 || s[0] == b {
        Seq::empty()
    } else {
        seq![s[0]] + before_first(s.skip(1), b)
    }
}

/// The name of a process whose command line is `cmdline`: of the first of its
/// terminated strings, which is the program, what follows the last slash. The
/// arguments behind it do not count.
pub open spec fn base_name(cmdline: Seq<u8>) -> Seq<u8> {
    after_last(before_first(cmdline, 0), 47)
}

proof fn lemma_before_first(s: Seq<u8>, rest: Seq<u8>, b: u8)
    requires
        !s.contains(b),
    ensures
        before_first(s.push(b) + rest, b) == s,
    decreases s.len(),
{
    let whole = s.push(b) + rest;
    if s.len() == 0 {
        assert(whole[0] == b);
    } else {
        assert(s.contains(s[0]));
        assert forall|x: u8| s.skip(1).contains(x) implies s.contains(x) by {
            let k = choose|k: int| 0 <= k < s.skip(1).len() && s.skip(1)[k] == x;
            assert(s[k + 1] == x);
        }
        lemma_before_first(s.skip(1), rest, b);
        assert(whole.skip(1) =~= s.skip(1).push(b) + rest);
        assert(before_first(whole, b) =~= s);
    }
}

/// A process is named after its program, whatever arguments it was started
/// with.
pub proof fn law_arguments_do_not_name_a_process(program: Seq<u8>, arguments: Seq<u8>)
    requires
        !program.contains(0),
    ensures
        base_name(program.push(0) + arguments) == after_last(program, 47),
{
    lemma_before_first(program, arguments, 0);
}

/// The text that bytes stand for; none where they are not UTF-8.
pub open spec fn text_of_bytes(bytes: Seq<u8>) -> Seq<char> {
    if valid_utf8(bytes) {
        decode_utf8(bytes)
    } else {
        Seq::empty()
    }
}

/// `std::str::from_utf8` reads bytes as text. It succeeds exactly on valid
/// UTF-8, and the text is what the bytes encode.
#[verifier::external_body]
fn utf8_text(bytes: &[u8]) -> (s: Option<&str>)
    ensures
        match s {
            Some(s) => valid_utf8(bytes@) && s@ == decode_utf8(bytes@),
            None => !valid_utf8(bytes@),
        },
{
    std::str::from_utf8(bytes).ok()
}

/// Where the first terminator in `s` stands; its length where there is none.
fn program_end(s: &[u8]) -> (end: usize)
    ensures
        end <= s@.len(),
        s@.take(end as int) == before_first(s@, 0),
{
    let n = s.len();
    let mut i: usize = 0;
    assert(s@.skip(0) =~= s@);
    assert(s@.take(0) + before_first(s@, 0) =~= before_first(s@, 0));
    while i < n && s[i] != 0
        invariant
            i <= n,
            n == s@.len(),
            before_first(s@, 0) == s@.take(i as int) + before_first(s@.skip(i as int), 0),
        decreases n - i,
    {
        proof {
            let rest = s@.skip(i as int);
            assert(rest[0] == s@[i as int]);
            assert(rest.skip(1) =~= s@.skip(i + 1));
            assert(s@.take(i as int) + (seq![rest[0]] + before_first(rest.skip(1), 0)) =~= s@.take(
                i + 1,
            ) + before_first(s@.skip(i + 1), 0));
        }
        i = i + 1;
    }
    assert(before_first(s@.skip(i as int), 0) =~= Seq::empty());
    assert(s@.take(i as int) =~= before_first(s@, 0));
    i
}

/// The bytes of the name of a process with this command line.
fn base_name_bytes(cmdline: &[u8]) -> (base: Vec<u8>)
    ensures
        base@ == base_name(cmdline@),
{
    let n = program_end(cmdline);
    let ghost program = cmdline@.take(n as int);
    let mut from: usize = n;
    assert(program.take(n as int) =~= program);
    assert(after_last(program, 47) =~= after_last(program.take(from as int), 47)
        + program.subrange(from as int, n as int));
    while from > 0 && cmdline[from - 1] != 47
        invariant
            from <= n <= cmdline@.len(),
            program == cmdline@.take(n as int),
            after_last(program, 47) == after_last(program.take(from as int), 47)
                + program.subrange(from as int, n as int),
        decreases from,
    {
        proof {
            let head = program.take(from as int);
            assert(head.drop_last() =~= program.take(from - 1));
            assert(head.last() == program[from - 1]);
            assert(after_last(program, 47) =~= after_last(program.take(from - 1), 47)
                + program.subrange(from - 1, n as int));
        }
        from = from - 1;
    }
    proof {
        let head = program.take(from as int);
        if from > 0 {
            assert(head.last() == program[from - 1]);
        }
        assert(after_last(head, 47) =~= Seq::empty());
    }
    let mut base: Vec<u8> = Vec::new();
    let mut i: usize = from;
    while i < n
        invariant
            from <= i <= n <= cmdline@.len(),
            program == cmdline@.take(n as int),
            base@ == program.subrange(from as int, i as int),
        decreases n - i,
    {
        base.push(cmdline[i]);
        i = i + 1;
        assert(base@ =~= program.subrange(from as int, i as int));
    }
    assert(base@ =~= after_last(program, 47));
    base
}

/// The name of a process with this command line, as text. A name that is not
/// UTF-8 is no name.
pub fn process_base_name(cmdline: &[u8]) -> (name: String)
    ensures
        name@ == text_of_bytes(base_name(cmdline@)),
{
    let bytes = base_name_bytes(cmdline);
    match utf8_text(bytes.as_slice()) {
        Some(s) => s.to_owned(),
        None => String::new(),
    }
}

/// A process that the shim takes over.
pub open spec fn is_plex_process(name: Seq<char>) -> bool {
    text::contains(name, "Plex Media Server"@) || text::contains(name, "Plex Media Scanner"@)
}

/// A name that the kernel reports for a process that the shim takes over,
/// which it cuts at fifteen characters.
pub open spec fn is_primary_name(name: Seq<char>) -> bool {
    ||| is_plex_process(name)
    ||| name == "Plex Media Serv"@
    ||| name == "Plex Media Scan"@
}

/// Whether a process of this name is one that the shim takes over.
pub fn linux_process_name_is_primary(name: &str) -> (primary: bool)
    ensures
        primary == is_primary_name(name@),
{
    text::contains_text(name, "Plex Media Server") || text::contains_text(
        name,
        "Plex Media Scanner",
    ) || text::same_text(name, "Plex Media Serv") || text::same_text(name, "Plex Media Scan")
}

/// A name that the kernel reports for a helper: any but none at all and those of
/// the processes that the shim takes over.
pub open spec fn is_helper_name(name: Seq<char>) -> bool {
    name.len() > 0 && !is_primary_name(name)
}

/// Whether a process of this name is a helper, whose calls go to SQLite
/// unchanged. A process without a name is not known to be one.
pub fn linux_process_name_requires_passthrough(name: &str) -> (passthrough: bool)
    ensures
        passthrough == is_helper_name(name@),
        passthrough ==> !text::contains(name@, "Plex Media Server"@) && !text::contains(
            name@,
            "Plex Media Scanner"@,
        ),
{
    !name.is_empty() && !linux_process_name_is_primary(name)
}

/// The variables that adjust the handling of signals at start, each as whether
/// it is set to a true value.
pub struct SignalEnv {
    pub disable_sigchld_ignore: bool,
    pub force_sigchld_ignore: bool,
    pub disable_sigaction_intercept: bool,
}

/// Whether a process is taken over.
pub enum ProcessMode {
    /// It is not: everything goes to SQLite unchanged. `name` is the process's
    /// name, and the rest of its start is skipped.
    PassThrough { name: String },
    /// It is.
    Active,
}

/// The switches after the start has looked at a process that is taken over.
pub open spec fn adjusted(flags: RuntimeFlags, env: SignalEnv) -> RuntimeFlags {
    RuntimeFlags {
        force_ignore_sigchld: if env.force_sigchld_ignore {
            1
        } else if env.disable_sigchld_ignore {
            0
        } else {
            flags.force_ignore_sigchld
        },
        intercept_sigaction: if env.disable_sigaction_intercept {
            0
        } else {
            flags.intercept_sigaction
        },
        ..flags
    }
}

/// The switches of a process that is not taken over.
pub open spec fn passed_through(flags: RuntimeFlags) -> RuntimeFlags {
    RuntimeFlags {
        force_ignore_sigchld: 0,
        intercept_sigaction: 0,
        shim_passthrough_only: 1,
        ..flags
    }
}

/// Begins the start: looks at the process's command line, if it could be read,
/// and sets the switches. A process whose command line is unknown is taken
/// over as it is.
pub fn shim_init_begin(
    flags: &mut RuntimeFlags,
    cmdline: Option<&[u8]>,
    env: &SignalEnv,
) -> (mode: ProcessMode)
    ensures
        mode is Active <==> (cmdline matches Some(line) ==> {
            let name = text_of_bytes(base_name(line@));
            text::contains(name, "Plex Media Server"@) || text::contains(
                name,
                "Plex Media Scanner"@,
            )
        }),
        mode is Active ==> (cmdline matches Some(line) ==> !is_helper_name(
            text_of_bytes(base_name(line@)),
        )),
        match cmdline {
            None => mode == ProcessMode::Active && *final(flags) == *old(flags),
            Some(line) => {
                let name = text_of_bytes(base_name(line@));
                if is_plex_process(name) {
                    mode == ProcessMode::Active && *final(flags) == adjusted(*old(flags), *env)
                } else {
                    (mode matches ProcessMode::PassThrough { name: n } && n@ == name)
                        && *final(flags) == passed_through(*old(flags))
                }
            },
        },
{
    match cmdline {
        None => ProcessMode::Active,
        Some(line) => {
            let name = process_base_name(line);
            if !text::contains_text(name.as_str(), "Plex Media Server") && !text::contains_text(
                name.as_str(),
                "Plex Media Scanner",
            ) {
                flags.force_ignore_sigchld = 0;
                flags.intercept_sigaction = 0;
                flags.shim_passthrough_only = 1;
                return ProcessMode::PassThrough { name };
            }
            if env.disable_sigchld_ignore {
                flags.force_ignore_sigchld = 0;
            }
            if env.force_sigchld_ignore {
                flags.force_ignore_sigchld = 1;
            }
            if env.disable_sigaction_intercept {
                flags.intercept_sigaction = 0;
            }
            ProcessMode::Active
        },
    }
}

/// Whether the start of a process that is taken over goes on once SQLite was
/// looked for: only with a way to open a database and a way to prepare a
/// statement, each given as its address.
pub fn shim_init_loaded(open: usize, prepare_v2: usize) -> (goes_on: bool)
    ensures
        goes_on <==> open != 0 && prepare_v2 != 0,
{
    open != 0 && prepare_v2 != 0
}

/// Records how the loading of SQLite stands and decides whether the start goes
/// on. Before loading has ended nothing is recorded. After that a process that
/// is not taken over counts as initialized, whatever was found, and its start
/// is over. One that is taken over does not count as initialized yet.
pub fn shim_init_sqlite_loaded(
    initialized: &mut i32,
    mode: &ProcessMode,
    loading: &LoadStep,
    open: usize,
    prepare_v2: usize,
) -> (goes_on: bool)
    ensures
        goes_on <==> *loading !is Try && *mode is Active && open != 0 && prepare_v2 != 0,
        *final(initialized) == (if *loading !is Try && *mode is PassThrough {
            1
        } else {
            *old(initialized)
        }),
{
    match (loading, mode) {
        (LoadStep::Try(_), _) => false,
        (_, ProcessMode::PassThrough { .. }) => {
            *initialized = 1;
            false
        },
        (_, ProcessMode::Active) => shim_init_loaded(open, prepare_v2),
    }
}

/// How `SIGCHLD` is treated at start.
pub enum SigchldStartup {
    /// It is set to be ignored.
    Ignored,
    /// It should be ignored, but there is no `sigaction` to do it with.
    Unresolved,
    /// It is left alone.
    LeftAlone,
}

/// How long the start waits for symbols to be resolved.
pub enum InitDelay {
    /// Waiting is switched off.
    Disabled,
    /// Not at all.
    NoWait,
    /// This many milliseconds.
    Wait(i32),
}

/// The wait that is asked for: 200 milliseconds where the variable does not
/// hold a number.
pub open spec fn asked_delay(no_delay: bool, delay_ms: Option<Seq<char>>) -> InitDelay {
    let ms = match delay_ms {
        Some(v) => match text::parsed_i32(v) {
            Some(n) => n,
            None => 200,
        },
        None => 200,
    };
    if no_delay {
        InitDelay::Disabled
    } else if ms > 0 {
        InitDelay::Wait(ms)
    } else {
        InitDelay::NoWait
    }
}

/// Decides how long the start waits. `no_delay` is whether waiting is switched
/// off, `delay_ms` the variable that holds the time.
pub fn init_delay(no_delay: bool, delay_ms: Option<&str>) -> (delay: InitDelay)
    ensures
        delay == asked_delay(
            no_delay,
            match delay_ms {
                Some(v) => Some(v@),
                None => None,
            },
        ),
{
    if no_delay {
        return InitDelay::Disabled;
    }
    let ms: i32 = match delay_ms {
        Some(v) => {
            let chars = text::to_chars(v);
            match text::parse_i32(chars.as_slice()) {
                Some(n) => n,
                None => 200,
            }
        },
        None => 200,
    };
    if ms > 0 {
        InitDelay::Wait(ms)
    } else {
        InitDelay::NoWait
    }
}

/// A wait in microseconds.
pub fn delay_micros(ms: i32) -> (us: u32)
    requires
        ms > 0,
        ms * 1000 <= u32::MAX,
    ensures
        us == ms * 1000,
{
    (ms as u32) * 1000
}

/// What is set up in a process that is taken over.
pub struct StartupPlan {
    pub catcher: CatcherSetup,
    /// The signals that get the crash logger.
    pub logged_signals: Vec<i32>,
    pub sigchld: SigchldStartup,
    /// Whether calls of `sigaction` are looked at.
    pub sigaction_intercepted: bool,
    pub delay: InitDelay,
}

/// What the environment says of the rest of the start.
pub struct StartupEnv<'a> {
    /// Whether the exception catcher is asked for.
    pub exception_catcher: bool,
    /// Whether crash logging is asked for.
    pub signal_log: bool,
    /// Whether waiting is switched off.
    pub no_init_delay: bool,
    /// The time to wait, where the variable is set.
    pub init_delay_ms: Option<&'a str>,
}

/// Plans the rest of the start, given whether `__cxa_throw` and `sigaction`
/// were found.
pub fn shim_init_finish(
    flags: &mut RuntimeFlags,
    signals: &SignalNumbers,
    env: &StartupEnv,
    throw_resolved: bool,
    sigaction_resolved: bool,
) -> (plan: StartupPlan)
    ensures
        plan.catcher == (if !runtime_linux::cached_answer(
            old(flags).exception_catcher_enabled_cached,
            env.exception_catcher,
        ) {
            CatcherSetup::Off
        } else if throw_resolved {
            CatcherSetup::Install
        } else {
            CatcherSetup::Unresolved
        }),
        plan.logged_signals@ == (if env.signal_log {
            runtime_linux::crash_signals(*signals)
        } else {
            Seq::empty()
        }),
        plan.sigchld == (if old(flags).force_ignore_sigchld == 0 {
            SigchldStartup::LeftAlone
        } else if sigaction_resolved {
            SigchldStartup::Ignored
        } else {
            SigchldStartup::Unresolved
        }),
        plan.sigaction_intercepted == (old(flags).intercept_sigaction != 0),
        plan.delay == asked_delay(
            env.no_init_delay,
            match env.init_delay_ms {
                Some(v) => Some(v@),
                None => None,
            },
        ),
        *final(flags) == (RuntimeFlags {
            exception_catcher_enabled_cached: runtime_linux::cache_after(
                old(flags).exception_catcher_enabled_cached,
                env.exception_catcher,
            ),
            ..*old(flags)
        }),
{
    let catcher = runtime_linux::setup_exception_catcher_if_enabled(
        flags,
        env.exception_catcher,
        throw_resolved,
    );
    let mut logged_signals: Vec<i32> = Vec::new();
    if env.signal_log {
        logged_signals.push(signals.segv);
        logged_signals.push(signals.abrt);
        logged_signals.push(signals.fpe);
        logged_signals.push(signals.ill);
        logged_signals.push(signals.bus);
        assert(logged_signals@ =~= runtime_linux::crash_signals(*signals));
    }
    let sigchld = if flags.force_ignore_sigchld == 0 {
        SigchldStartup::LeftAlone
    } else if sigaction_resolved {
        SigchldStartup::Ignored
    } else {
        SigchldStartup::Unresolved
    };
    let sigaction_intercepted = flags.intercept_sigaction != 0;
    let delay = init_delay(env.no_init_delay, env.init_delay_ms);
    StartupPlan { catcher, logged_signals, sigchld, sigaction_intercepted, delay }
}

/// Whether there is anything to clean up when the process ends: only what was
/// initialized.
pub fn shim_cleanup(initialized: i32) -> (runs: bool)
    ensures
        runs == (initialized != 0),
{
    initialized != 0
}

/// In a process that is not taken over, no call of `sigaction` is interfered
/// with, whatever the environment says.
pub proof fn law_passed_through_process_keeps_its_signals(
    flags: RuntimeFlags,
    signals: SignalNumbers,
    log: bool,
    signum: i32,
    has_act: bool,
    has_oldact: bool,
)
    ensures
        runtime_linux::planned_sigaction(
            passed_through(flags),
            signals,
            true,
            log,
            signum,
            has_act,
            has_oldact,
        ) == runtime_linux::SigactionPlan::Forward,
{
}

proof fn lemma_after_last(s: Seq<u8>, rest: Seq<u8>, b: u8)
    requires
        !rest.contains(b),
    ensures
        after_last(s.push(b) + rest, b) == rest,
        after_last(rest, b) == rest,
    decreases rest.len(),
{
    let whole = s.push(b) + rest;
    if rest.len() == 0 {
        assert(whole.last() == b);
        assert(after_last(whole, b) =~= rest);
        assert(after_last(rest, b) =~= rest);
    } else {
        assert(rest.contains(rest.last()));
        assert forall|x: u8| rest.drop_last().contains(x) implies rest.contains(x) by {
            let k = choose|k: int| 0 <= k < rest.drop_last().len() && rest.drop_last()[k] == x;
            assert(rest[k] == x);
        }
        lemma_after_last(s, rest.drop_last(), b);
        assert(whole.drop_last() =~= s.push(b) + rest.drop_last());
        assert(rest =~= rest.drop_last().push(rest.last()));
    }
}

/// A process is named after the file of its program: the directory it stands in
/// and the arguments it was started with do not count.
pub proof fn law_process_is_named_after_its_file(
    directory: Seq<u8>,
    file: Seq<u8>,
    arguments: Seq<u8>,
)
    requires
        !directory.contains(0),
        !file.contains(0),
        !file.contains(47),
    ensures
        base_name(directory.push(47) + file + seq![0u8] + arguments) == file,
        base_name(file + seq![0u8] + arguments) == file,
        base_name(file) == file,
{
    let program = directory.push(47) + file;
    assert forall|k: int| 0 <= k < program.len() implies program[k] != 0 by {
        if k < directory.len() {
            assert(directory.contains(directory[k]));
        } else if k > directory.len() {
            assert(file.contains(file[k - directory.len() - 1]));
        }
    }
    lemma_before_first(program, arguments, 0);
    assert(program + seq![0u8] + arguments =~= program.push(0) + arguments);
    lemma_after_last(directory, file, 47);
    lemma_before_first(file, arguments, 0);
    assert(file + seq![0u8] + arguments =~= file.push(0) + arguments);
    lemma_before_all(file, 0);
}

proof fn lemma_before_all(s: Seq<u8>, b: u8)
    requires
        !s.contains(b),
    ensures
        before_first(s, b) == s,
    decreases s.len(),
{
    if s.len() > 0 {
        assert(s.contains(s[0]));
        assert forall|x: u8| s.skip(1).contains(x) implies s.contains(x) by {
            let k = choose|k: int| 0 <= k < s.skip(1).len() && s.skip(1)[k] == x;
            assert(s[k + 1] == x);
        }
        lemma_before_all(s.skip(1), b);
        assert(s =~= seq![s[0]] + s.skip(1));
    } else {
        assert(before_first(s, b) =~= s);
    }
}

/// The name of a process that is written in UTF-8 is read as it was written.
pub proof fn law_name_is_read_as_written(name: Seq<char>)
    ensures
        text_of_bytes(encode_utf8(name)) == name,
{
    encode_utf8_valid_utf8(name);
    encode_utf8_decode_utf8(name);
}

/// A name that is not UTF-8 is no name.
pub proof fn law_unreadable_name_is_none(bytes: Seq<u8>)
    requires
        !valid_utf8(bytes),
    ensures
        text_of_bytes(bytes).len() == 0,
        !is_plex_process(text_of_bytes(bytes)),
{
    reveal_strlit("Plex Media Server");
    reveal_strlit("Plex Media Scanner");
}

/// The letters stand in the name, one behind the other.
pub open spec fn has_letters(name: Seq<char>, letters: Seq<char>) -> bool {
    exists|before: Seq<char>, after: Seq<char>| #[trigger] (before + letters + after) == name
}

/// A process is taken over if and only if the letters `Plex Media Server` or the
/// letters `Plex Media Scanner` stand in its name, one behind the other; and the
/// name of one that is taken over is never that of a helper.
pub proof fn law_only_server_and_scanner_are_taken_over(name: Seq<char>)
    ensures
        is_plex_process(name) <==> has_letters(
            name,
            seq![
                'P', 'l', 'e', 'x', ' ', 'M', 'e', 'd', 'i', 'a', ' ', 'S', 'e', 'r', 'v', 'e', 'r',
            ],
        ) || has_letters(
            name,
            seq![
                'P', 'l', 'e', 'x', ' ', 'M', 'e', 'd', 'i', 'a', ' ', 'S', 'c', 'a', 'n', 'n', 'e',
                'r',
            ],
        ),
        is_plex_process(name) ==> is_primary_name(name) && !is_helper_name(name),
        is_helper_name(name) ==> !is_plex_process(name),
{
    reveal_strlit("Plex Media Server");
    reveal_strlit("Plex Media Scanner");
    let server = seq![
        'P', 'l', 'e', 'x', ' ', 'M', 'e', 'd', 'i', 'a', ' ', 'S', 'e', 'r', 'v', 'e', 'r',
    ];
    let scanner = seq![
        'P', 'l', 'e', 'x', ' ', 'M', 'e', 'd', 'i', 'a', ' ', 'S', 'c', 'a', 'n', 'n', 'e', 'r',
    ];
    assert("Plex Media Server"@ =~= server);
    assert("Plex Media Scanner"@ =~= scanner);
    text::law_contains_what_stands_in_it(name, server);
    text::law_contains_what_stands_in_it(name, scanner);
}

} // verus!
