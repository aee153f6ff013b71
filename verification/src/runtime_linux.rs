//! What the shim decides while it starts, when a signal handler is installed
//! and when a C++ exception is thrown. Looking symbols up, calling into libc
//! and printing are the caller's part.

use vstd::prelude::*;


verus! {

/// The switches of the process.
pub struct RuntimeFlags {
    /// Whether `SIGCHLD` is kept ignored whatever the application asks for.
    pub force_ignore_sigchld: i32,
    /// Whether calls of `sigaction` are looked at at all.
    pub intercept_sigaction: i32,
    /// The answer of [`signal_log_enabled`]; -1 while it was not asked.
    pub signal_log_enabled_cached: i32,
    /// The answer of [`exception_catcher_enabled`]; -1 while it was not asked.
    pub exception_catcher_enabled_cached: i32,
    /// Whether every call goes to SQLite unchanged.
    pub shim_passthrough_only: i32,
}

impl RuntimeFlags {
    /// The switches as the process finds them.
    pub fn new() -> (flags: Self)
        ensures
            flags == (RuntimeFlags {
                force_ignore_sigchld: 1,
                intercept_sigaction: 1,
                signal_log_enabled_cached: -1i32,
                exception_catcher_enabled_cached: -1i32,
                shim_passthrough_only: 0,
            }),
    {
        RuntimeFlags {
            force_ignore_sigchld: 1,
            intercept_sigaction: 1,
            signal_log_enabled_cached: -1,
            exception_catcher_enabled_cached: -1,
            shim_passthrough_only: 0,
        }
    }
}

/// Leaves signals alone from here on, in a child that was just forked.
pub fn disable_postfork_signal_overrides_fast(flags: &mut RuntimeFlags)
    ensures
        *final(flags) == (RuntimeFlags {
            force_ignore_sigchld: 0,
            intercept_sigaction: 0,
            ..*old(flags)
        }),
{
    flags.force_ignore_sigchld = 0;
    flags.intercept_sigaction = 0;
}

/// The answer that a switch with this cache gives when its variable reads as
/// `truthy` now.
pub open spec fn cached_answer(cache: i32, truthy: bool) -> bool {
    if cache != -1 {
        cache != 0
    } else {
        truthy
    }
}

/// The cache after that answer was given.
pub open spec fn cache_after(cache: i32, truthy: bool) -> i32 {
    if cache != -1 {
        cache
    } else if truthy {
        1
    } else {
        0
    }
}

/// A switch that was asked once gives the same answer ever after, whatever
/// becomes of its variable.
pub proof fn law_cached_answer_is_kept(cache: i32, first: bool, later: bool)
    ensures
        cached_answer(cache_after(cache, first), later) == cached_answer(cache, first),
        cache_after(cache_after(cache, first), later) == cache_after(cache, first),
{
}

/// Whether crashes are logged. The variable (`truthy`: whether it is set to a
/// true value) counts the first time only.
pub fn signal_log_enabled(flags: &mut RuntimeFlags, truthy: bool) -> (enabled: bool)
    ensures
        enabled == cached_answer(old(flags).signal_log_enabled_cached, truthy),
        *final(flags) == (RuntimeFlags {
            signal_log_enabled_cached: cache_after(old(flags).signal_log_enabled_cached, truthy),
            ..*old(flags)
        }),
{
    let cached = flags.signal_log_enabled_cached;
    if cached != -1 {
        return cached != 0;
    }
    flags.signal_log_enabled_cached = if truthy {
        1
    } else {
        0
    };
    truthy
}

/// Whether a backtrace is printed at every throw. The variable is read at each
/// throw rather than cached, so it can be turned on for one run.
pub fn exception_backtrace_enabled(truthy: bool) -> (enabled: bool)
    ensures
        enabled == truthy,
{
    truthy
}

/// Whether the shim inspects exceptions. The variable counts the first time
/// only.
pub fn exception_catcher_enabled(flags: &mut RuntimeFlags, truthy: bool) -> (enabled: bool)
    ensures
        enabled == cached_answer(old(flags).exception_catcher_enabled_cached, truthy),
        *final(flags) == (RuntimeFlags {
            exception_catcher_enabled_cached: cache_after(
                old(flags).exception_catcher_enabled_cached,
                truthy,
            ),
            ..*old(flags)
        }),
{
    let cached = flags.exception_catcher_enabled_cached;
    if cached != -1 {
        return cached != 0;
    }
    flags.exception_catcher_enabled_cached = if truthy {
        1
    } else {
        0
    };
    truthy
}

/// The numbers that this platform gives the signals the shim cares about.
pub struct SignalNumbers {
    pub chld: i32,
    pub segv: i32,
    pub abrt: i32,
    pub fpe: i32,
    pub ill: i32,
    pub bus: i32,
}

/// What holds of the signal numbers on every Linux: four are the same on all
/// machines, and the other two come in one of three pairs.
pub open spec fn linux_signals(s: SignalNumbers) -> bool {
    &&& s.segv == 11
    &&& s.abrt == 6
    &&& s.fpe == 8
    &&& s.ill == 4
    &&& {
        ||| s.chld == 17 && s.bus == 7
        ||| s.chld == 18 && s.bus == 10
        ||| s.chld == 20 && s.bus == 10
    }
}

/// The constants `SIGCHLD`, `SIGSEGV`, `SIGABRT`, `SIGFPE`, `SIGILL` and
/// `SIGBUS` of the `libc` crate. The contract lists the values that the crate
/// has for Linux; which of the three pairs `SIGCHLD` and `SIGBUS` have depends
/// on the machine and is left unsaid.
#[verifier::external_body]
fn platform_signals() -> (signals: SignalNumbers)
    ensures
        linux_signals(signals),
{
    SignalNumbers {
        chld: libc::SIGCHLD,
        segv: libc::SIGSEGV,
        abrt: libc::SIGABRT,
        fpe: libc::SIGFPE,
        ill: libc::SIGILL,
        bus: libc::SIGBUS,
    }
}

/// These are the numbers that the `libc` crate has for this platform, as
/// [`platform_signals`] reads them.
pub closed spec fn are_platform_signals(signals: SignalNumbers) -> bool {
    call_ensures(platform_signals, (), signals)
}

/// The signal numbers of this platform.
pub fn signal_numbers() -> (signals: SignalNumbers)
    ensures
        are_platform_signals(signals),
        linux_signals(signals),
{
    platform_signals()
}

/// The signals that end a process that crashes.
pub open spec fn crash_signals(s: SignalNumbers) -> Seq<i32> {
    seq![s.segv, s.abrt, s.fpe, s.ill, s.bus]
}

/// What is to be done with a call of `sigaction`.
pub enum SigactionPlan {
    /// There is no `sigaction` to hand the call to: it fails.
    Fail,
    /// Hand the call on as it is.
    Forward,
    /// Ignore `SIGCHLD`, without word of stopped children, instead of what was
    /// asked. First report the present action, where it was asked for.
    IgnoreChildren { report_old: bool },
    /// Install the crash logger instead of what was asked. First report the
    /// present action, where it was asked for.
    InstallLogger { report_old: bool },
}

/// What is to be done with a call of `sigaction` in a process with these
/// switches, where `log` is the answer of [`signal_log_enabled`].
pub open spec fn planned_sigaction(
    flags: RuntimeFlags,
    signals: SignalNumbers,
    resolved: bool,
    log: bool,
    signum: i32,
    has_act: bool,
    has_oldact: bool,
) -> SigactionPlan {
    if !resolved {
        SigactionPlan::Fail
    } else if flags.intercept_sigaction == 0 {
        SigactionPlan::Forward
    } else if flags.force_ignore_sigchld != 0 && signum == signals.chld && has_act {
        SigactionPlan::IgnoreChildren { report_old: has_oldact }
    } else if log && has_act && crash_signals(signals).contains(signum) {
        SigactionPlan::InstallLogger { report_old: has_oldact }
    } else {
        SigactionPlan::Forward
    }
}

/// Whether such a call gets as far as asking [`signal_log_enabled`].
pub open spec fn asks_for_log(
    flags: RuntimeFlags,
    signals: SignalNumbers,
    resolved: bool,
    signum: i32,
    has_act: bool,
) -> bool {
    &&& resolved
    &&& flags.intercept_sigaction != 0
    &&& !(flags.force_ignore_sigchld != 0 && signum == signals.chld && has_act)
}

fn is_crash_signal(signals: &SignalNumbers, signum: i32) -> (b: bool)
    ensures
        b == crash_signals(*signals).contains(signum),
{
    proof {
        let all = crash_signals(*signals);
        assert(all[0] == signals.segv && all[1] == signals.abrt && all[2] == signals.fpe && all[3]
            == signals.ill && all[4] == signals.bus);
    }
    signum == signals.segv || signum == signals.abrt || signum == signals.fpe || signum
        == signals.ill || signum == signals.bus
}

/// Plans a call of `sigaction`, given the numbers of the signals.
///
/// `resolved` says whether the real `sigaction` was found, `log_truthy` whether
/// crash logging is asked for by its variable, and the last two whether the
/// call passes a new action and a place for the old one.
pub fn plan_sigaction(
    flags: &mut RuntimeFlags,
    signals: &SignalNumbers,
    resolved: bool,
    log_truthy: bool,
    signum: i32,
    has_act: bool,
    has_oldact: bool,
) -> (plan: SigactionPlan)
    ensures
        plan == planned_sigaction(
            *old(flags),
            *signals,
            resolved,
            cached_answer(old(flags).signal_log_enabled_cached, log_truthy),
            signum,
            has_act,
            has_oldact,
        ),
        *final(flags) == (if asks_for_log(*old(flags), *signals, resolved, signum, has_act) {
            RuntimeFlags {
                signal_log_enabled_cached: cache_after(
                    old(flags).signal_log_enabled_cached,
                    log_truthy,
                ),
                ..*old(flags)
            }
        } else {
            *old(flags)
        }),
{
    if !resolved {
        return SigactionPlan::Fail;
    }
    if flags.intercept_sigaction == 0 {
        return SigactionPlan::Forward;
    }
    if flags.force_ignore_sigchld != 0 && signum == signals.chld && has_act {
        return SigactionPlan::IgnoreChildren { report_old: has_oldact };
    }
    if signal_log_enabled(flags, log_truthy) && has_act && is_crash_signal(signals, signum) {
        return SigactionPlan::InstallLogger { report_old: has_oldact };
    }
    SigactionPlan::Forward
}

/// Plans a call of `sigaction` on this platform: [`plan_sigaction`] with the
/// platform's own signal numbers.
pub fn sigaction(
    flags: &mut RuntimeFlags,
    resolved: bool,
    log_truthy: bool,
    signum: i32,
    has_act: bool,
    has_oldact: bool,
) -> (plan: SigactionPlan)
    ensures
        exists|signals: SignalNumbers|
            {
                &&& #[trigger] linux_signals(signals)
                &&& are_platform_signals(signals)
                &&& plan == planned_sigaction(
                    *old(flags),
                    signals,
                    resolved,
                    cached_answer(old(flags).signal_log_enabled_cached, log_truthy),
                    signum,
                    has_act,
                    has_oldact,
                )
                &&& *final(flags) == (if asks_for_log(
                    *old(flags),
                    signals,
                    resolved,
                    signum,
                    has_act,
                ) {
                    RuntimeFlags {
                        signal_log_enabled_cached: cache_after(
                            old(flags).signal_log_enabled_cached,
                            log_truthy,
                        ),
                        ..*old(flags)
                    }
                } else {
                    *old(flags)
                })
            },
{
    let signals = signal_numbers();
    plan_sigaction(flags, &signals, resolved, log_truthy, signum, has_act, has_oldact)
}

/// As long as `SIGCHLD` is kept ignored, no call of `sigaction` that is looked
/// at installs another action for it.
pub proof fn law_sigchld_stays_ignored(
    flags: RuntimeFlags,
    signals: SignalNumbers,
    log: bool,
    has_oldact: bool,
)
    requires
        flags.intercept_sigaction != 0,
        flags.force_ignore_sigchld != 0,
    ensures
        planned_sigaction(flags, signals, true, log, signals.chld, true, has_oldact) == (
        SigactionPlan::IgnoreChildren { report_old: has_oldact }),
{
}

/// A call that only asks for the present action is handed on as it is.
pub proof fn law_queries_are_forwarded(
    flags: RuntimeFlags,
    signals: SignalNumbers,
    log: bool,
    signum: i32,
    has_oldact: bool,
)
    ensures
        planned_sigaction(flags, signals, true, log, signum, false, has_oldact)
            == SigactionPlan::Forward,
{
}

/// In a forked child whose overrides were dropped, every call is handed on as
/// it is.
pub proof fn law_forked_child_is_left_alone(
    flags: RuntimeFlags,
    signals: SignalNumbers,
    log: bool,
    signum: i32,
    has_act: bool,
    has_oldact: bool,
)
    requires
        flags.intercept_sigaction == 0,
    ensures
        planned_sigaction(flags, signals, true, log, signum, has_act, has_oldact)
            == SigactionPlan::Forward,
{
}

/// What is to be done with a C++ exception that is thrown.
pub enum ThrowPlan {
    /// There is no `__cxa_throw` to hand the exception to.
    Abort,
    /// Print a backtrace and look at the exception, each where asked for, and
    /// throw it in any case.
    Rethrow { backtrace: bool, inspect: bool },
}

/// Plans a throw.
pub fn plan_cxa_throw(
    flags: &mut RuntimeFlags,
    resolved: bool,
    backtrace_truthy: bool,
    catcher_truthy: bool,
) -> (plan: ThrowPlan)
    ensures
        plan == (if resolved {
            ThrowPlan::Rethrow {
                backtrace: backtrace_truthy,
                inspect: cached_answer(
                    old(flags).exception_catcher_enabled_cached,
                    catcher_truthy,
                ),
            }
        } else {
            ThrowPlan::Abort
        }),
        *final(flags) == (if resolved {
            RuntimeFlags {
                exception_catcher_enabled_cached: cache_after(
                    old(flags).exception_catcher_enabled_cached,
                    catcher_truthy,
                ),
                ..*old(flags)
            }
        } else {
            *old(flags)
        }),
{
    if !resolved {
        return ThrowPlan::Abort;
    }
    let backtrace = exception_backtrace_enabled(backtrace_truthy);
    let inspect = exception_catcher_enabled(flags, catcher_truthy);
    ThrowPlan::Rethrow { backtrace, inspect }
}

/// How the exception catcher is set up.
pub enum CatcherSetup {
    /// It is not enabled.
    Off,
    /// Announce it and install the logger for exceptions nobody catches.
    Install,
    /// Warn that there is no `__cxa_throw` to interpose.
    Unresolved,
}

/// Decides how the exception catcher is set up.
pub fn setup_exception_catcher_if_enabled(
    flags: &mut RuntimeFlags,
    catcher_truthy: bool,
    throw_resolved: bool,
) -> (setup: CatcherSetup)
    ensures
        setup == (if !cached_answer(old(flags).exception_catcher_enabled_cached, catcher_truthy) {
            CatcherSetup::Off
        } else if throw_resolved {
            CatcherSetup::Install
        } else {
            CatcherSetup::Unresolved
        }),
        *final(flags) == (RuntimeFlags {
            exception_catcher_enabled_cached: cache_after(
                old(flags).exception_catcher_enabled_cached,
                catcher_truthy,
            ),
            ..*old(flags)
        }),
{
    if !exception_catcher_enabled(flags, catcher_truthy) {
        return CatcherSetup::Off;
    }
    if throw_resolved {
        CatcherSetup::Install
    } else {
        CatcherSetup::Unresolved
    }
}

} // verus!
