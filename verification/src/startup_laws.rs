//! What holds of the start of a process and of its signals whenever the
//! functions that decide on them are called.

use vstd::prelude::*;
use vstd::utf8::*;

use crate::pg_client_config::{effective_pool_max, env_nonzero, parse_positive_env_or_default};
use crate::runtime_linux;
use crate::runtime_linux::{
    disable_postfork_signal_overrides_fast, exception_catcher_enabled, plan_cxa_throw,
    plan_sigaction, setup_exception_catcher_if_enabled, signal_log_enabled, CatcherSetup,
    RuntimeFlags, SigactionPlan, SignalNumbers, ThrowPlan,
};
use crate::shim_init;
use crate::shim_init::{
    delay_micros, ensure_real_sqlite_loaded, init_delay, linux_process_name_is_primary,
    linux_process_name_requires_passthrough, load_original_functions, process_base_name,
    resolve_interposition_hooks, route_charset, shim_cleanup, shim_init_begin, shim_init_finish,
    shim_init_sqlite_loaded, sqlite_path, CharsetRoute, FoundSymbols, Hooks, InitDelay, LoadStep,
    ProcessMode, SigchldStartup, SignalEnv, SqliteFunctions, StartupEnv, StartupPlan,
};
use crate::text;
use crate::tls_support::{tls_key, tls_state, TlsKey, TlsStep};
use crate::worker::{rust_worker_cleanup, rust_worker_init, Worker};

verus! {

/// The pool may grow to what the operator asks for or to what the server allows,
/// whichever is less; a server whose limit is not known allows all.
pub proof fn law_server_only_lowers_the_ceiling(requested: i32, server: i32, ceiling: i32)
    requires
        call_ensures(effective_pool_max, (requested, server), ceiling),
    ensures
        ceiling == requested || ceiling == server,
        ceiling <= requested,
        server > 0 ==> ceiling <= server,
        server <= 0 || requested <= server ==> ceiling == requested,
{
}

/// A variable counts as set unless it is empty or a single zero.
pub proof fn law_only_nothing_and_zero_are_off(value: &str, nonzero: bool, unset: bool)
    requires
        call_ensures(env_nonzero, (Some(value),), nonzero),
        call_ensures(env_nonzero, (None,), unset),
    ensures
        nonzero <==> value@.len() > 0 && value@ != seq!['0'],
        !unset,
{
    reveal_strlit("0");
    assert("0"@ =~= seq!['0']);
}

/// A variable that holds a positive number, with white space about it, is worth
/// that number; one that holds none, or none that is positive, or that is not
/// set, is worth the default.
pub proof fn law_positive_number_is_taken(
    value: &str,
    default_value: i32,
    n: i32,
    unset: i32,
    before: Seq<char>,
    digits: Seq<char>,
    after: Seq<char>,
)
    requires
        call_ensures(parse_positive_env_or_default, (Some(value), default_value), n),
        call_ensures(parse_positive_env_or_default, (None, default_value), unset),
        forall|i: int| 0 <= i < before.len() ==> before[i] == ' ',
        forall|i: int| 0 <= i < after.len() ==> after[i] == ' ' || after[i] == '\n',
        digits.len() > 0,
        text::all_digits(digits),
    ensures
        unset == default_value,
        value@ == before + digits + after && 0 < text::decimal(digits) <= 0x7fff_ffff ==> n
            == text::decimal(digits),
        value@ == before + digits + after && !(0 < text::decimal(digits) <= 0x7fff_ffff) ==> n
            == default_value,
        value@ == before + seq!['-'] + digits + after ==> n == default_value,
        value@.len() == 0 ==> n == default_value,
{
    text::law_signs_are_read(digits);
    assert(text::is_digit(digits[0]));
    assert(text::is_digit(digits.last()));
    text::law_trimming_leaves_the_rest(before, digits, after);
    let negative = seq!['-'] + digits;
    assert(negative[0] == '-');
    assert(negative.last() == digits.last());
    text::law_trimming_leaves_the_rest(before, negative, after);
    assert(before + seq!['-'] + digits + after =~= before + negative + after);
    text::lemma_decimal_is_not_negative(digits);
    if value@.len() == 0 {
        assert(text::trimmed(value@).len() == 0);
        text::law_only_digits_are_read(text::trimmed(value@), 0);
    }
}

/// A switch is asked for once: what its variable said then is the answer ever
/// after, and of the process's switches only the note of it changes.
pub proof fn law_crash_log_is_asked_for_once(
    flags: &mut RuntimeFlags,
    first: bool,
    answer: bool,
    later_flags: &mut RuntimeFlags,
    later: bool,
    again: bool,
)
    requires
        call_ensures(signal_log_enabled, (flags, first), answer),
        *old(later_flags) == *final(flags),
        call_ensures(signal_log_enabled, (later_flags, later), again),
    ensures
        old(flags).signal_log_enabled_cached == -1 ==> answer == first,
        old(flags).signal_log_enabled_cached == 0 ==> !answer,
        old(flags).signal_log_enabled_cached == 1 ==> answer,
        again == answer,
        *final(later_flags) == *final(flags),
        final(flags).signal_log_enabled_cached != -1,
        (RuntimeFlags {
            signal_log_enabled_cached: old(flags).signal_log_enabled_cached,
            ..*final(flags)
        }) == *old(flags),
{
}

/// So is the exception catcher.
pub proof fn law_exception_catcher_is_asked_for_once(
    flags: &mut RuntimeFlags,
    first: bool,
    answer: bool,
    later_flags: &mut RuntimeFlags,
    later: bool,
    again: bool,
)
    requires
        call_ensures(exception_catcher_enabled, (flags, first), answer),
        *old(later_flags) == *final(flags),
        call_ensures(exception_catcher_enabled, (later_flags, later), again),
    ensures
        old(flags).exception_catcher_enabled_cached == -1 ==> answer == first,
        old(flags).exception_catcher_enabled_cached == 0 ==> !answer,
        old(flags).exception_catcher_enabled_cached == 1 ==> answer,
        again == answer,
        *final(later_flags) == *final(flags),
        final(flags).exception_catcher_enabled_cached != -1,
        (RuntimeFlags {
            exception_catcher_enabled_cached: old(flags).exception_catcher_enabled_cached,
            ..*final(flags)
        }) == *old(flags),
{
}

/// The six signals that the shim cares about are six on every Linux.
pub proof fn law_signals_differ(s: SignalNumbers)
    requires
        runtime_linux::linux_signals(s),
    ensures
        seq![s.chld, s.segv, s.abrt, s.fpe, s.ill, s.bus].no_duplicates(),
{
    let all = seq![s.chld, s.segv, s.abrt, s.fpe, s.ill, s.bus];
    assert(all[0] == s.chld && all[1] == s.segv && all[2] == s.abrt && all[3] == s.fpe && all[4]
        == s.ill && all[5] == s.bus);
}

/// A new action for a signal that ends a crashing process is replaced by the
/// crash logger, where crashes are logged and calls are looked at; the present
/// action is reported where it was asked for.
pub proof fn law_crash_logger_stays_installed(
    flags: &mut RuntimeFlags,
    signals: &SignalNumbers,
    truthy: bool,
    signum: i32,
    has_oldact: bool,
    plan: SigactionPlan,
)
    requires
        runtime_linux::linux_signals(*signals),
        call_ensures(
            plan_sigaction,
            (flags, signals, true, truthy, signum, true, has_oldact),
            plan,
        ),
        signum == signals.segv || signum == signals.abrt || signum == signals.fpe || signum
            == signals.ill || signum == signals.bus,
        old(flags).intercept_sigaction != 0,
    ensures
        old(flags).signal_log_enabled_cached == 1 || old(flags).signal_log_enabled_cached == -1
            && truthy ==> plan == (SigactionPlan::InstallLogger { report_old: has_oldact }),
        old(flags).signal_log_enabled_cached == 0 || old(flags).signal_log_enabled_cached == -1
            && !truthy ==> plan == SigactionPlan::Forward,
        final(flags).force_ignore_sigchld == old(flags).force_ignore_sigchld,
        final(flags).intercept_sigaction == old(flags).intercept_sigaction,
        final(flags).shim_passthrough_only == old(flags).shim_passthrough_only,
{
    let all = runtime_linux::crash_signals(*signals);
    assert(all[0] == signals.segv && all[1] == signals.abrt && all[2] == signals.fpe && all[3]
        == signals.ill && all[4] == signals.bus);
    assert(all.contains(signum));
}

/// Without a `sigaction` to hand it to a call fails; and a call for any other
/// signal is handed on, whatever the switches say.
pub proof fn law_other_signals_are_forwarded(
    flags: &mut RuntimeFlags,
    signals: &SignalNumbers,
    resolved: bool,
    truthy: bool,
    signum: i32,
    has_act: bool,
    has_oldact: bool,
    plan: SigactionPlan,
)
    requires
        call_ensures(
            plan_sigaction,
            (flags, signals, resolved, truthy, signum, has_act, has_oldact),
            plan,
        ),
    ensures
        !resolved <==> plan == SigactionPlan::Fail,
        resolved && signum != signals.chld && signum != signals.segv && signum != signals.abrt
            && signum != signals.fpe && signum != signals.ill && signum != signals.bus ==> plan
            == SigactionPlan::Forward,
        resolved && old(flags).force_ignore_sigchld == 0 && signum == signals.chld && signum
            != signals.segv && signum != signals.abrt && signum != signals.fpe && signum
            != signals.ill && signum != signals.bus ==> plan == SigactionPlan::Forward,
        old(flags).intercept_sigaction == 0 || !resolved ==> *final(flags) == *old(flags),
{
    let all = runtime_linux::crash_signals(*signals);
    assert(forall|i: int| 0 <= i < all.len() ==> (#[trigger] all[i]) == signals.segv || all[i]
        == signals.abrt || all[i] == signals.fpe || all[i] == signals.ill || all[i]
        == signals.bus);
}

/// A child that was just forked leaves all signals alone, and only them.
pub proof fn law_child_leaves_signals_alone(
    flags: &mut RuntimeFlags,
    child: &mut RuntimeFlags,
    signals: &SignalNumbers,
    truthy: bool,
    signum: i32,
    has_act: bool,
    has_oldact: bool,
    plan: SigactionPlan,
)
    requires
        call_ensures(disable_postfork_signal_overrides_fast, (flags,), ()),
        *old(child) == *final(flags),
        call_ensures(
            plan_sigaction,
            (child, signals, true, truthy, signum, has_act, has_oldact),
            plan,
        ),
    ensures
        plan == SigactionPlan::Forward,
        final(flags).force_ignore_sigchld == 0,
        final(flags).shim_passthrough_only == old(flags).shim_passthrough_only,
        final(flags).signal_log_enabled_cached == old(flags).signal_log_enabled_cached,
        final(flags).exception_catcher_enabled_cached == old(flags).exception_catcher_enabled_cached,
{
}

/// A process starts with `SIGCHLD` ignored, calls of `sigaction` looked at, and
/// neither switch asked for; it is taken over until told otherwise.
pub proof fn law_new_process_ignores_children(
    new: RuntimeFlags,
    flags: &mut RuntimeFlags,
    signals: &SignalNumbers,
    truthy: bool,
    has_oldact: bool,
    plan: SigactionPlan,
)
    requires
        call_ensures(RuntimeFlags::new, (), new),
        *old(flags) == new,
        call_ensures(
            plan_sigaction,
            (flags, signals, true, truthy, signals.chld, true, has_oldact),
            plan,
        ),
    ensures
        plan == (SigactionPlan::IgnoreChildren { report_old: has_oldact }),
        new.signal_log_enabled_cached == -1,
        new.exception_catcher_enabled_cached == -1,
        new.shim_passthrough_only == 0,
        *final(flags) == new,
{
}

/// An exception is thrown on, whatever is asked for; only where there is nothing
/// to throw it with does the process end.
pub proof fn law_exceptions_are_thrown_on(
    flags: &mut RuntimeFlags,
    resolved: bool,
    backtrace: bool,
    catcher: bool,
    plan: ThrowPlan,
)
    requires
        call_ensures(plan_cxa_throw, (flags, resolved, backtrace, catcher), plan),
    ensures
        resolved <==> plan is Rethrow,
        !resolved <==> plan is Abort,
        plan matches ThrowPlan::Rethrow { backtrace: b, .. } ==> b == backtrace,
        old(flags).exception_catcher_enabled_cached == -1 ==> (plan matches ThrowPlan::Rethrow {
            inspect: i,
            ..
        } ==> i == catcher),
        old(flags).exception_catcher_enabled_cached == 0 ==> (plan matches ThrowPlan::Rethrow {
            inspect: i,
            ..
        } ==> !i),
        final(flags).signal_log_enabled_cached == old(flags).signal_log_enabled_cached,
        final(flags).force_ignore_sigchld == old(flags).force_ignore_sigchld,
{
}

/// The catcher is installed where it is asked for and can be.
pub proof fn law_catcher_is_installed_where_asked_for(
    flags: &mut RuntimeFlags,
    truthy: bool,
    resolved: bool,
    setup: CatcherSetup,
)
    requires
        call_ensures(setup_exception_catcher_if_enabled, (flags, truthy, resolved), setup),
        old(flags).exception_catcher_enabled_cached == -1,
    ensures
        truthy && resolved <==> setup == CatcherSetup::Install,
        truthy && !resolved <==> setup == CatcherSetup::Unresolved,
        !truthy <==> setup == CatcherSetup::Off,
{
}

/// What was found stands behind its hook, and what was not found changes nothing;
/// looking for it twice is looking for it once.
pub proof fn law_hooks_hold_what_was_found(
    hooks: &mut Hooks,
    found: &FoundSymbols,
    next: &mut Hooks,
)
    requires
        call_ensures(resolve_interposition_hooks, (hooks, found), ()),
        *old(next) == *final(hooks),
        call_ensures(resolve_interposition_hooks, (next, found), ()),
    ensures
        *final(next) == *final(hooks),
        found.sigaction != 0 ==> final(hooks).orig_sigaction == found.sigaction,
        found.sigaction == 0 ==> final(hooks).orig_sigaction == old(hooks).orig_sigaction,
        found.cxa_throw != 0 ==> final(hooks).orig_cxa_throw == found.cxa_throw,
        found.cxa_throw == 0 ==> final(hooks).orig_cxa_throw == old(hooks).orig_cxa_throw,
        found.create_simple_converter != 0 ==> final(hooks).orig_create_simple_converter
            == found.create_simple_converter && final(hooks).shim_create_simple_converter_ptr
            == found.create_simple_converter,
        found.create_simple_converter == 0 ==> final(hooks).orig_create_simple_converter == old(hooks).orig_create_simple_converter && final(hooks).shim_create_simple_converter_ptr == old(hooks).shim_create_simple_converter_ptr,
        found.create_simple_codecvt != 0 ==> final(hooks).shim_create_simple_codecvt_ptr
            == found.create_simple_codecvt,
        found.create_utf8_codecvt != 0 ==> final(hooks).shim_create_utf8_codecvt_ptr
            == found.create_utf8_codecvt,
        found.create_utf8_converter != 0 ==> final(hooks).shim_create_utf8_converter_ptr
            == found.create_utf8_converter,
        found.create_simple_codecvt == 0 ==> final(hooks).shim_create_simple_codecvt_ptr
            == old(hooks).shim_create_simple_codecvt_ptr,
        found.create_utf8_codecvt == 0 ==> final(hooks).shim_create_utf8_codecvt_ptr
            == old(hooks).shim_create_utf8_codecvt_ptr,
        found.create_utf8_converter == 0 ==> final(hooks).shim_create_utf8_converter_ptr
            == old(hooks).shim_create_utf8_converter_ptr,
{
}

/// A request for the five letters `ASCII` is answered with UTF-8, where there is
/// such a function; any other request goes where it was sent.
pub proof fn law_ascii_is_answered_with_utf8(
    object: &[u8],
    utf8: usize,
    simple: usize,
    route: CharsetRoute,
)
    requires
        call_ensures(route_charset, (object, utf8, simple), route),
    ensures
        ({
            let ascii = object@.len() >= 6 && object@[0] == 0x41 && object@[1] == 0x53 && object@[2]
                == 0x43 && object@[3] == 0x49 && object@[4] == 0x49 && object@[5] == 0;
            &&& ascii && utf8 != 0 ==> route == CharsetRoute::Utf8(utf8)
            &&& !(ascii && utf8 != 0) && simple != 0 ==> route == CharsetRoute::Simple(simple)
            &&& !(ascii && utf8 != 0) && simple == 0 ==> route == CharsetRoute::Unresolved
        }),
{
    if object@.len() >= 6 {
        let six = object@.take(6);
        let ascii = seq![65u8, 83u8, 67u8, 73u8, 73u8, 0u8];
        assert(six[0] == object@[0] && six[1] == object@[1] && six[2] == object@[2] && six[3]
            == object@[3] && six[4] == object@[4] && six[5] == object@[5]);
        if object@[0] == 0x41 && object@[1] == 0x53 && object@[2] == 0x43 && object@[3] == 0x49
            && object@[4] == 0x49 && object@[5] == 0 {
            assert(six =~= ascii);
        }
        if six == ascii {
            assert(six[0] == 65 && six[1] == 83 && six[2] == 67 && six[3] == 73 && six[4] == 73
                && six[5] == 0);
        }
    }
}

/// The real SQLite is looked for in the shim's own directory first, then beside
/// the application under the name it was moved to, and last under its own.
pub proof fn law_sqlite_is_looked_for_in_order(first: &str, second: &str, third: &str)
    requires
        call_ensures(sqlite_path, (0usize,), first),
        call_ensures(sqlite_path, (1usize,), second),
        call_ensures(sqlite_path, (2usize,), third),
    ensures
        first@ == "/usr/local/lib/plex-postgresql/libsqlite3_real.so"@,
        second@ == "/usr/lib/plexmediaserver/lib/libsqlite3.so.original"@,
        third@ == "/usr/lib/plexmediaserver/lib/libsqlite3.so"@,
{
}

/// A library that was loaded is used; else the next of the three places is tried,
/// and behind the last what the process has loaded next.
pub proof fn law_loading_goes_on_until_it_succeeds(attempt: usize, handle: usize, step: LoadStep)
    requires
        attempt < 3,
        call_ensures(load_original_functions, (attempt, handle), step),
    ensures
        handle != 0 ==> step == (LoadStep::Use { handle, attempt }),
        handle == 0 && attempt < 2 ==> step == LoadStep::Try((attempt + 1) as usize),
        handle == 0 && attempt == 2 ==> step == LoadStep::UseNext,
{
}

/// The shim takes its own way into SQLite once, with all three functions.
pub proof fn law_way_into_sqlite_is_taken_once(
    shim: &mut SqliteFunctions,
    orig: &SqliteFunctions,
    next: &mut SqliteFunctions,
    other: &SqliteFunctions,
)
    requires
        call_ensures(ensure_real_sqlite_loaded, (shim, orig), ()),
        *old(next) == *final(shim),
        call_ensures(ensure_real_sqlite_loaded, (next, other), ()),
    ensures
        old(shim).prepare_v2 != 0 ==> *final(shim) == *old(shim),
        old(shim).prepare_v2 == 0 ==> {
            &&& final(shim).prepare_v2 == orig.prepare_v2
            &&& final(shim).errmsg == orig.errmsg
            &&& final(shim).errcode == orig.errcode
        },
        orig.prepare_v2 != 0 ==> *final(next) == *final(shim),
{
}

/// The letters of the server's name.
pub open spec fn server_letters() -> Seq<char> {
    seq!['P', 'l', 'e', 'x', ' ', 'M', 'e', 'd', 'i', 'a', ' ', 'S', 'e', 'r', 'v', 'e', 'r']
}

/// The letters of the scanner's name.
pub open spec fn scanner_letters() -> Seq<char> {
    seq!['P', 'l', 'e', 'x', ' ', 'M', 'e', 'd', 'i', 'a', ' ', 'S', 'c', 'a', 'n', 'n', 'e', 'r']
}

/// A process whose command line can be read is taken over if and only if the
/// file of its program has the server's or the scanner's letters in its name.
/// Nothing that is called a helper is taken over. What is not taken over is named
/// by that file, and everything of it is left to SQLite and to itself.
pub proof fn law_only_plex_is_taken_over(
    flags: &mut RuntimeFlags,
    line: &[u8],
    env: &SignalEnv,
    mode: ProcessMode,
    directory: Seq<u8>,
    name: &str,
    arguments: Seq<u8>,
    helper: bool,
)
    requires
        call_ensures(shim_init_begin, (flags, Some(line), env), mode),
        call_ensures(linux_process_name_requires_passthrough, (name,), helper),
        line@ == directory.push(47) + encode_utf8(name@) + seq![0u8] + arguments,
        !directory.contains(0),
        !encode_utf8(name@).contains(0),
        !encode_utf8(name@).contains(47),
    ensures
        mode is Active <==> shim_init::has_letters(name@, server_letters())
            || shim_init::has_letters(name@, scanner_letters()),
        helper ==> mode is PassThrough,
        mode matches ProcessMode::PassThrough { name: n } ==> n@ == name@,
        mode is PassThrough ==> {
            &&& final(flags).shim_passthrough_only == 1
            &&& final(flags).force_ignore_sigchld == 0
            &&& final(flags).intercept_sigaction == 0
        },
        mode is Active ==> final(flags).shim_passthrough_only == old(flags).shim_passthrough_only,
{
    shim_init::law_process_is_named_after_its_file(directory, encode_utf8(name@), arguments);
    shim_init::law_name_is_read_as_written(name@);
    shim_init::law_only_server_and_scanner_are_taken_over(name@);
}

/// In a process that is taken over each variable does what it says, forcing
/// children to be ignored outweighs not ignoring them, and without any of them
/// the switches stay.
pub proof fn law_variables_adjust_the_signals(
    flags: &mut RuntimeFlags,
    line: &[u8],
    env: &SignalEnv,
    mode: ProcessMode,
)
    requires
        call_ensures(shim_init_begin, (flags, Some(line), env), mode),
        mode is Active,
    ensures
        env.force_sigchld_ignore ==> final(flags).force_ignore_sigchld == 1,
        !env.force_sigchld_ignore && env.disable_sigchld_ignore ==> final(flags).force_ignore_sigchld == 0,
        !env.force_sigchld_ignore && !env.disable_sigchld_ignore ==> final(flags).force_ignore_sigchld == old(flags).force_ignore_sigchld,
        env.disable_sigaction_intercept ==> final(flags).intercept_sigaction == 0,
        !env.disable_sigaction_intercept ==> final(flags).intercept_sigaction == old(flags).intercept_sigaction,
        final(flags).signal_log_enabled_cached == old(flags).signal_log_enabled_cached,
        final(flags).exception_catcher_enabled_cached == old(flags).exception_catcher_enabled_cached,
{
}

/// A process whose command line cannot be read is taken over as it is.
pub proof fn law_unknown_process_is_taken_over(
    flags: &mut RuntimeFlags,
    env: &SignalEnv,
    mode: ProcessMode,
)
    requires
        call_ensures(shim_init_begin, (flags, None, env), mode),
    ensures
        mode is Active,
        *final(flags) == *old(flags),
{
}

/// The name of a process is that of its program's file.
pub proof fn law_name_of_a_process_is_that_of_its_file(
    line: &[u8],
    directory: Seq<u8>,
    written: Seq<char>,
    arguments: Seq<u8>,
    name: String,
)
    requires
        call_ensures(process_base_name, (line,), name),
        line@ == directory.push(47) + encode_utf8(written) + seq![0u8] + arguments,
        !directory.contains(0),
        !encode_utf8(written).contains(0),
        !encode_utf8(written).contains(47),
    ensures
        name@ == written,
{
    shim_init::law_process_is_named_after_its_file(directory, encode_utf8(written), arguments);
    shim_init::law_name_is_read_as_written(written);
}

/// The kernel's name for a process is one of those that are taken over if it has
/// their letters, or is what the kernel leaves of them; any other that is not
/// empty is a helper's.
pub proof fn law_kernel_names_are_told_apart(name: &str, primary: bool, helper: bool)
    requires
        call_ensures(linux_process_name_is_primary, (name,), primary),
        call_ensures(linux_process_name_requires_passthrough, (name,), helper),
    ensures
        primary <==> shim_init::has_letters(name@, server_letters()) || shim_init::has_letters(
            name@,
            scanner_letters(),
        ) || name@ == server_letters().take(15) || name@ == scanner_letters().take(15),
        helper <==> !primary && name@.len() > 0,
{
    shim_init::law_only_server_and_scanner_are_taken_over(name@);
    reveal_strlit("Plex Media Serv");
    reveal_strlit("Plex Media Scan");
    assert("Plex Media Serv"@ =~= server_letters().take(15));
    assert("Plex Media Scan"@ =~= scanner_letters().take(15));
}

/// The start goes on only in a process that is taken over, once loading is over
/// and with both functions found. One that is not taken over is initialized when
/// loading is over; and initialized is what is cleaned up.
pub proof fn law_start_waits_for_sqlite(
    initialized: &mut i32,
    mode: &ProcessMode,
    loading: &LoadStep,
    open: usize,
    prepare_v2: usize,
    goes_on: bool,
    cleans_up: bool,
)
    requires
        call_ensures(
            shim_init_sqlite_loaded,
            (initialized, mode, loading, open, prepare_v2),
            goes_on,
        ),
        call_ensures(shim_cleanup, (*final(initialized),), cleans_up),
    ensures
        *loading is Try ==> !goes_on && *final(initialized) == *old(initialized),
        *mode is PassThrough ==> !goes_on,
        *mode is PassThrough && *loading !is Try ==> cleans_up,
        *mode is Active ==> *final(initialized) == *old(initialized),
        *mode is Active && *loading !is Try ==> (goes_on <==> open != 0 && prepare_v2 != 0),
        *old(initialized) != 0 ==> cleans_up,
{
}

/// The start waits as many milliseconds as it is told, and two hundred where it
/// is told no number; a number that is not positive, and the switch, say not to
/// wait.
pub proof fn law_start_waits_as_long_as_told(
    told: &str,
    delay: InitDelay,
    untold: InitDelay,
    off: InitDelay,
    micros: u32,
)
    requires
        call_ensures(init_delay, (false, Some(told)), delay),
        call_ensures(init_delay, (false, None), untold),
        call_ensures(init_delay, (true, Some(told)), off),
    ensures
        off == InitDelay::Disabled,
        untold == InitDelay::Wait(200),
        told@.len() > 0 && text::all_digits(told@) && 0 < text::decimal(told@) <= 0x7fff_ffff
            ==> delay == InitDelay::Wait(text::decimal(told@) as i32),
        told@.len() > 0 && text::all_digits(told@) && text::decimal(told@) == 0 ==> delay
            == InitDelay::NoWait,
        told@.len() == 0 ==> delay == InitDelay::Wait(200),
        delay matches InitDelay::Wait(ms) ==> ms > 0,
        forall|ms: i32|
            ms > 0 && ms * 1000 <= u32::MAX && #[trigger] call_ensures(delay_micros, (ms,), micros)
                ==> micros == ms * 1000,
{
    if told@.len() > 0 && text::all_digits(told@) {
        text::law_signs_are_read(told@);
    }
    if told@.len() == 0 {
        text::law_only_digits_are_read(told@, 0);
    }
}

/// The rest of the start sets up what is asked for: children are ignored where
/// the switch says so and it can be done, the crash logger gets the five signals
/// that end a crashing process, and the switches stay but for the catcher's.
pub proof fn law_start_sets_up_what_is_asked_for(
    flags: &mut RuntimeFlags,
    signals: &SignalNumbers,
    env: &StartupEnv,
    throw_resolved: bool,
    sigaction_resolved: bool,
    plan: StartupPlan,
    delay: InitDelay,
)
    requires
        call_ensures(
            shim_init_finish,
            (flags, signals, env, throw_resolved, sigaction_resolved),
            plan,
        ),
        call_ensures(init_delay, (env.no_init_delay, env.init_delay_ms), delay),
    ensures
        plan.delay == delay,
        old(flags).exception_catcher_enabled_cached == -1 ==> (plan.catcher is Off
            <==> !env.exception_catcher),
        plan.sigchld is Unresolved <==> old(flags).force_ignore_sigchld != 0
            && !sigaction_resolved,
        plan.sigchld is Ignored <==> old(flags).force_ignore_sigchld != 0 && sigaction_resolved,
        plan.sigchld is LeftAlone <==> old(flags).force_ignore_sigchld == 0,
        env.signal_log ==> plan.logged_signals@ == seq![
            signals.segv,
            signals.abrt,
            signals.fpe,
            signals.ill,
            signals.bus,
        ],
        !env.signal_log ==> plan.logged_signals@.len() == 0,
        plan.sigaction_intercepted <==> old(flags).intercept_sigaction != 0,
        env.no_init_delay <==> plan.delay is Disabled,
        old(flags).exception_catcher_enabled_cached == -1 ==> (plan.catcher is Install
            <==> env.exception_catcher && throw_resolved),
        final(flags).force_ignore_sigchld == old(flags).force_ignore_sigchld,
        final(flags).intercept_sigaction == old(flags).intercept_sigaction,
        final(flags).signal_log_enabled_cached == old(flags).signal_log_enabled_cached,
        final(flags).shim_passthrough_only == old(flags).shim_passthrough_only,
{
}

/// All threads use the key that was created first, zero among them; where none
/// could be created there is none later either.
pub proof fn law_first_key_is_everyones(
    key: &mut TlsKey,
    offered: Option<u32>,
    number: Option<u32>,
    later: &mut TlsKey,
    other: Option<u32>,
    again: Option<u32>,
)
    requires
        call_ensures(tls_key, (key, offered), number),
        *old(later) == *final(key),
        call_ensures(tls_key, (later, other), again),
    ensures
        *old(key) is Unasked ==> number == offered,
        again == number,
        *final(later) == *final(key),
{
}

/// A thread uses its own block where it has one, takes one that was allocated for
/// it where it has none, with a first state in it, and shares the common one only
/// where there is no key or no memory.
pub proof fn law_thread_gets_a_block_of_its_own(
    held: usize,
    allocation: Option<usize>,
    keyed: TlsStep,
    keyless: TlsStep,
)
    requires
        call_ensures(tls_state, (true, held, allocation), keyed),
        call_ensures(tls_state, (false, held, allocation), keyless),
    ensures
        keyless == TlsStep::Fallback,
        held != 0 ==> keyed == TlsStep::Use(held),
        held == 0 && allocation is None ==> keyed == TlsStep::Allocate,
        held == 0 && allocation == Some(0usize) ==> keyed == TlsStep::Fallback,
        held == 0 && allocation is Some && allocation->0 != 0 ==> {
            &&& keyed is Install
            &&& keyed->block == allocation->0
            &&& keyed->state.in_interpose_call == 0
            &&& keyed->state.prepare_v2_depth == 0
            &&& keyed->state.in_resolve_tables == 0
            &&& keyed->state.value_type_calls == 0
            &&& keyed->state.column_type_calls == 0
            &&& keyed->state.last_query == 0
        },
{
}

/// A worker that was started is stopped once: its thread is handed out to be
/// waited for, and there is none to wait for after that. One that could not be
/// started does not run.
pub proof fn law_worker_is_stopped_once(
    new: Worker,
    starting: &mut Worker,
    spawned: Option<u64>,
    code: i32,
    stopping: &mut Worker,
    stopped: Option<u64>,
    idle: &mut Worker,
    again: Option<u64>,
)
    requires
        call_ensures(Worker::new, (), new),
        *old(starting) == new,
        call_ensures(Worker::take_thread, (starting, spawned), code),
        *old(stopping) == *final(starting),
        call_ensures(rust_worker_cleanup, (stopping,), stopped),
        *old(idle) == *final(stopping),
        call_ensures(rust_worker_cleanup, (idle,), again),
    ensures
        spawned is Some <==> code == 0,
        spawned is None <==> code == -1,
        spawned is Some <==> final(starting).running != 0,
        stopped == spawned,
        final(stopping).running == 0,
        again is None,
        *final(idle) == *final(stopping),
{
}

/// A worker that runs is left alone: no thread is started for it, and the one it
/// has can still be waited for. One that does not run gets the thread that was
/// started.
pub proof fn law_running_worker_is_left_alone<F: FnOnce() -> Option<u64>>(
    w: &mut Worker,
    spawn: F,
    thread: u64,
    code: i32,
)
    requires
        call_ensures(rust_worker_init::<F>, (w, spawn), code),
        forall|spawned: Option<u64>| #[trigger]
            call_ensures(spawn, (), spawned) ==> spawned == Some(thread) || spawned is None,
    ensures
        old(w).running != 0 ==> code == 0 && *final(w) == *old(w),
        old(w).running == 0 && code == 0 ==> final(w).running != 0 && final(w).thread == thread,
        old(w).running == 0 && code != 0 ==> *final(w) == *old(w),
{
}

/// A text is taken apart into its characters and put together again without
/// loss, and is the same as another only where these are.
pub proof fn law_text_is_its_characters(
    s: &str,
    chars: Vec<char>,
    slice: &[char],
    again: String,
    other: &str,
    same: bool,
    part: &str,
    found: bool,
)
    requires
        call_ensures(text::to_chars, (s,), chars),
        slice@ == chars@,
        call_ensures(text::to_text, (slice,), again),
        call_ensures(text::same_text, (s, other), same),
        call_ensures(text::contains_text, (s, part), found),
    ensures
        again@ == s@,
        same <==> s@ == other@,
        found <==> exists|before: Seq<char>, after: Seq<char>| #[trigger]
            (before + part@ + after) == s@,
{
    text::law_contains_what_stands_in_it(s@, part@);
}

} // verus!
