use plex_pg_core::runtime_linux::{
    disable_postfork_signal_overrides_fast, exception_backtrace_enabled,
    exception_catcher_enabled, plan_cxa_throw, plan_sigaction, setup_exception_catcher_if_enabled,
    sigaction, signal_log_enabled, signal_numbers, CatcherSetup, RuntimeFlags, SigactionPlan,
    SignalNumbers, ThrowPlan,
};
use plex_pg_core::shim_init::{
    delay_micros, ensure_real_sqlite_loaded, init_delay, load_original_functions,
    process_base_name, resolve_interposition_hooks, route_charset, shim_cleanup, shim_init_begin,
    shim_init_finish, shim_init_loaded, shim_init_sqlite_loaded, sqlite_path, CharsetRoute, FoundSymbols, Hooks, InitDelay,
    LoadStep, ProcessMode, SigchldStartup, SignalEnv, SqliteFunctions, StartupEnv,
};
use plex_pg_core::tls_support::{tls_key, tls_state, TlsKey, TlsState, TlsStep};

#[test]
fn a_switch_keeps_its_first_answer() {
    let mut flags = RuntimeFlags::new();
    assert!(signal_log_enabled(&mut flags, true));
    assert!(signal_log_enabled(&mut flags, false));
    let mut flags = RuntimeFlags::new();
    assert!(!exception_catcher_enabled(&mut flags, false));
    assert!(!exception_catcher_enabled(&mut flags, true));
    assert!(exception_backtrace_enabled(true));
    assert!(!exception_backtrace_enabled(false));
}

#[test]
fn the_platform_gives_the_signals_its_own_numbers() {
    let signals = signal_numbers();
    assert_eq!(signals.segv, 11);
    assert_eq!(signals.abrt, 6);
    assert_eq!(signals.fpe, 8);
    assert_eq!(signals.ill, 4);
    assert_eq!(signals.chld, libc::SIGCHLD);
    assert_eq!(signals.bus, libc::SIGBUS);
}

#[test]
fn sigchld_stays_ignored() {
    let mut flags = RuntimeFlags::new();
    let plan = sigaction(&mut flags, true, false, libc::SIGCHLD, true, true);
    assert!(matches!(plan, SigactionPlan::IgnoreChildren { report_old: true }));
    let plan = sigaction(&mut flags, true, false, libc::SIGCHLD, false, true);
    assert!(matches!(plan, SigactionPlan::Forward));
}

#[test]
fn crash_signals_get_the_logger_where_it_is_asked_for() {
    for signum in [libc::SIGSEGV, libc::SIGABRT, libc::SIGFPE, libc::SIGILL, libc::SIGBUS] {
        let mut flags = RuntimeFlags::new();
        let plan = sigaction(&mut flags, true, true, signum, true, false);
        assert!(matches!(plan, SigactionPlan::InstallLogger { report_old: false }));
        let mut flags = RuntimeFlags::new();
        let plan = sigaction(&mut flags, true, false, signum, true, false);
        assert!(matches!(plan, SigactionPlan::Forward));
        assert_eq!(flags.signal_log_enabled_cached, 0);
    }
    let mut flags = RuntimeFlags::new();
    let plan = sigaction(&mut flags, true, true, libc::SIGTERM, true, false);
    assert!(matches!(plan, SigactionPlan::Forward));
}

#[test]
fn sigaction_goes_by_the_numbers_of_the_platform() {
    let signals = SignalNumbers { chld: 18, segv: 11, abrt: 6, fpe: 8, ill: 4, bus: 10 };
    let mut flags = RuntimeFlags::new();
    let plan = plan_sigaction(&mut flags, &signals, true, true, 18, true, false);
    assert!(matches!(plan, SigactionPlan::IgnoreChildren { report_old: false }));
    assert_eq!(flags.signal_log_enabled_cached, -1);
    let plan = plan_sigaction(&mut flags, &signals, true, true, 10, true, true);
    assert!(matches!(plan, SigactionPlan::InstallLogger { report_old: true }));
    let plan = plan_sigaction(&mut flags, &signals, false, true, 10, true, true);
    assert!(matches!(plan, SigactionPlan::Fail));
}

#[test]
fn a_forked_child_is_left_alone() {
    let mut flags = RuntimeFlags::new();
    disable_postfork_signal_overrides_fast(&mut flags);
    assert_eq!(flags.force_ignore_sigchld, 0);
    let plan = sigaction(&mut flags, true, true, libc::SIGCHLD, true, true);
    assert!(matches!(plan, SigactionPlan::Forward));
}

#[test]
fn an_exception_is_thrown_in_any_case() {
    let mut flags = RuntimeFlags::new();
    let plan = plan_cxa_throw(&mut flags, true, true, false);
    assert!(matches!(plan, ThrowPlan::Rethrow { backtrace: true, inspect: false }));
    let mut flags = RuntimeFlags::new();
    let plan = plan_cxa_throw(&mut flags, true, false, true);
    assert!(matches!(plan, ThrowPlan::Rethrow { backtrace: false, inspect: true }));
    let plan = plan_cxa_throw(&mut flags, false, false, true);
    assert!(matches!(plan, ThrowPlan::Abort));
}

#[test]
fn the_catcher_is_set_up_where_it_is_asked_for() {
    let mut flags = RuntimeFlags::new();
    let setup = setup_exception_catcher_if_enabled(&mut flags, true, true);
    assert!(matches!(setup, CatcherSetup::Install));
    let setup = setup_exception_catcher_if_enabled(&mut flags, false, false);
    assert!(matches!(setup, CatcherSetup::Unresolved));
    let mut flags = RuntimeFlags::new();
    let setup = setup_exception_catcher_if_enabled(&mut flags, false, true);
    assert!(matches!(setup, CatcherSetup::Off));
}

#[test]
fn a_symbol_that_is_not_found_leaves_its_hook() {
    let mut hooks = Hooks {
        orig_sigaction: 1,
        orig_cxa_throw: 2,
        orig_create_simple_converter: 3,
        shim_create_simple_codecvt_ptr: 4,
        shim_create_utf8_codecvt_ptr: 5,
        shim_create_simple_converter_ptr: 6,
        shim_create_utf8_converter_ptr: 7,
    };
    let found = FoundSymbols {
        sigaction: 10,
        cxa_throw: 0,
        create_simple_converter: 30,
        create_simple_codecvt: 0,
        create_utf8_codecvt: 50,
        create_utf8_converter: 0,
    };
    resolve_interposition_hooks(&mut hooks, &found);
    assert_eq!(hooks.orig_sigaction, 10);
    assert_eq!(hooks.orig_cxa_throw, 2);
    assert_eq!(hooks.orig_create_simple_converter, 30);
    assert_eq!(hooks.shim_create_simple_codecvt_ptr, 4);
    assert_eq!(hooks.shim_create_utf8_codecvt_ptr, 50);
    assert_eq!(hooks.shim_create_simple_converter_ptr, 30);
    assert_eq!(hooks.shim_create_utf8_converter_ptr, 7);
}

#[test]
fn a_request_for_ascii_is_answered_with_utf8() {
    assert!(matches!(route_charset(b"ASCII\0..", 8, 9), CharsetRoute::Utf8(8)));
    assert!(matches!(route_charset(b"ASCII\0..", 0, 9), CharsetRoute::Simple(9)));
    assert!(matches!(route_charset(b"ASCIIX", 8, 9), CharsetRoute::Simple(9)));
    assert!(matches!(route_charset(b"ASCII", 8, 9), CharsetRoute::Simple(9)));
    assert!(matches!(route_charset(b"latin1", 8, 0), CharsetRoute::Unresolved));
}

#[test]
fn the_first_sqlite_that_can_be_loaded_is_used() {
    assert_eq!(sqlite_path(0), "/usr/local/lib/plex-postgresql/libsqlite3_real.so");
    assert_eq!(sqlite_path(1), "/usr/lib/plexmediaserver/lib/libsqlite3.so.original");
    assert_eq!(sqlite_path(2), "/usr/lib/plexmediaserver/lib/libsqlite3.so");
    assert!(matches!(load_original_functions(0, 0), LoadStep::Try(1)));
    assert!(matches!(load_original_functions(1, 5), LoadStep::Use { handle: 5, attempt: 1 }));
    assert!(matches!(load_original_functions(2, 0), LoadStep::UseNext));
}

#[test]
fn sqlite_is_handed_to_the_shim_once() {
    let orig = SqliteFunctions { prepare_v2: 1, errmsg: 2, errcode: 3 };
    let mut shim = SqliteFunctions { prepare_v2: 0, errmsg: 0, errcode: 0 };
    ensure_real_sqlite_loaded(&mut shim, &orig);
    assert_eq!((shim.prepare_v2, shim.errmsg, shim.errcode), (1, 2, 3));
    let other = SqliteFunctions { prepare_v2: 7, errmsg: 8, errcode: 9 };
    ensure_real_sqlite_loaded(&mut shim, &other);
    assert_eq!((shim.prepare_v2, shim.errmsg, shim.errcode), (1, 2, 3));
    assert!(shim_init_loaded(1, 2));
    assert!(!shim_init_loaded(0, 2));
    assert!(!shim_init_loaded(1, 0));
    assert!(shim_cleanup(1));
    assert!(!shim_cleanup(0));
}

#[test]
fn the_name_of_a_process_follows_the_last_slash() {
    assert_eq!(process_base_name(b"/usr/lib/Plex Media Server\0--flag\0"), "Plex Media Server");
    assert_eq!(process_base_name(b"/bin/x\0/etc/conf\0"), "x");
    assert_eq!(process_base_name(b"sh"), "sh");
    assert_eq!(process_base_name("/usr/bin/caf\u{e9}\0".as_bytes()), "caf\u{e9}");
    assert_eq!(process_base_name(b"/usr/bin/\xff\xfe\0"), "");
    assert_eq!(process_base_name(b""), "");
}

fn no_signal_env() -> SignalEnv {
    SignalEnv {
        disable_sigchld_ignore: false,
        force_sigchld_ignore: false,
        disable_sigaction_intercept: false,
    }
}

#[test]
fn a_helper_process_is_passed_through() {
    let mut flags = RuntimeFlags::new();
    let mode = shim_init_begin(&mut flags, Some(b"/usr/lib/CrashUploader\0"), &no_signal_env());
    assert!(matches!(mode, ProcessMode::PassThrough { name } if name == "CrashUploader"));
    assert_eq!(flags.shim_passthrough_only, 1);
    assert_eq!(flags.intercept_sigaction, 0);
    assert_eq!(flags.force_ignore_sigchld, 0);
    let plan = sigaction(&mut flags, true, true, libc::SIGCHLD, true, true);
    assert!(matches!(plan, SigactionPlan::Forward));
}

#[test]
fn a_scanner_started_with_a_path_is_taken_over() {
    let scanner: &[u8] = b"/usr/lib/plexmediaserver/Plex Media Scanner\0--scan\0/data/Movies\0";
    let mut flags = RuntimeFlags::new();
    let mode = shim_init_begin(&mut flags, Some(scanner), &no_signal_env());
    assert!(matches!(mode, ProcessMode::Active));
    assert_eq!(flags.shim_passthrough_only, 0);
    assert_eq!(flags.force_ignore_sigchld, 1);
    assert_eq!(flags.intercept_sigaction, 1);
    let helper: &[u8] = b"/usr/bin/tail\0/var/log/Plex Media Server\0";
    let mode = shim_init_begin(&mut flags, Some(helper), &no_signal_env());
    assert!(matches!(mode, ProcessMode::PassThrough { name } if name == "tail"));
    assert_eq!(flags.shim_passthrough_only, 1);
}

#[test]
fn a_process_left_alone_is_initialized_once_sqlite_is_loaded() {
    let mut initialized = 0;
    let helper = ProcessMode::PassThrough { name: "tail".to_string() };
    assert!(!shim_init_sqlite_loaded(&mut initialized, &helper, &LoadStep::Try(1), 1, 2));
    assert_eq!(initialized, 0);
    assert!(!shim_init_sqlite_loaded(&mut initialized, &helper, &LoadStep::UseNext, 1, 2));
    assert_eq!(initialized, 1);

    let mut initialized = 0;
    let loaded = LoadStep::Use { handle: 5, attempt: 0 };
    assert!(shim_init_sqlite_loaded(&mut initialized, &ProcessMode::Active, &loaded, 1, 2));
    assert!(!shim_init_sqlite_loaded(&mut initialized, &ProcessMode::Active, &loaded, 0, 2));
    assert!(!shim_init_sqlite_loaded(&mut initialized, &ProcessMode::Active, &loaded, 1, 0));
    assert_eq!(initialized, 0);
}

#[test]
fn the_server_is_taken_over() {
    let server: &[u8] = b"/usr/lib/plexmediaserver/Plex Media Server\0";
    let mut flags = RuntimeFlags::new();
    let mode = shim_init_begin(&mut flags, Some(server), &no_signal_env());
    assert!(matches!(mode, ProcessMode::Active));
    assert_eq!(flags.force_ignore_sigchld, 1);
    assert_eq!(flags.intercept_sigaction, 1);

    let mut env = no_signal_env();
    env.disable_sigchld_ignore = true;
    env.disable_sigaction_intercept = true;
    let mode = shim_init_begin(&mut flags, Some(server), &env);
    assert!(matches!(mode, ProcessMode::Active));
    assert_eq!(flags.force_ignore_sigchld, 0);
    assert_eq!(flags.intercept_sigaction, 0);

    env.force_sigchld_ignore = true;
    shim_init_begin(&mut flags, Some(server), &env);
    assert_eq!(flags.force_ignore_sigchld, 1);

    let mut flags = RuntimeFlags::new();
    let mode = shim_init_begin(&mut flags, None, &env);
    assert!(matches!(mode, ProcessMode::Active));
    assert_eq!(flags.intercept_sigaction, 1);
}

#[test]
fn the_start_waits_as_long_as_it_is_told() {
    assert!(matches!(init_delay(false, None), InitDelay::Wait(200)));
    assert!(matches!(init_delay(false, Some("50")), InitDelay::Wait(50)));
    assert!(matches!(init_delay(false, Some(" 50")), InitDelay::Wait(200)));
    assert!(matches!(init_delay(false, Some("0")), InitDelay::NoWait));
    assert!(matches!(init_delay(false, Some("-1")), InitDelay::NoWait));
    assert!(matches!(init_delay(true, Some("50")), InitDelay::Disabled));
    assert_eq!(delay_micros(200), 200_000);
}

#[test]
fn the_rest_of_the_start_is_planned() {
    let signals = signal_numbers();
    let env = StartupEnv {
        exception_catcher: true,
        signal_log: true,
        no_init_delay: false,
        init_delay_ms: Some("5"),
    };
    let mut flags = RuntimeFlags::new();
    let plan = shim_init_finish(&mut flags, &signals, &env, true, false);
    assert!(matches!(plan.catcher, CatcherSetup::Install));
    assert_eq!(
        plan.logged_signals,
        vec![libc::SIGSEGV, libc::SIGABRT, libc::SIGFPE, libc::SIGILL, libc::SIGBUS]
    );
    assert!(matches!(plan.sigchld, SigchldStartup::Unresolved));
    assert!(plan.sigaction_intercepted);
    assert!(matches!(plan.delay, InitDelay::Wait(5)));

    let env = StartupEnv {
        exception_catcher: false,
        signal_log: false,
        no_init_delay: true,
        init_delay_ms: None,
    };
    let mut flags = RuntimeFlags::new();
    flags.force_ignore_sigchld = 0;
    flags.intercept_sigaction = 0;
    let plan = shim_init_finish(&mut flags, &signals, &env, true, true);
    assert!(matches!(plan.catcher, CatcherSetup::Off));
    assert_eq!(plan.logged_signals, vec![]);
    assert!(matches!(plan.sigchld, SigchldStartup::LeftAlone));
    assert!(!plan.sigaction_intercepted);
    assert!(matches!(plan.delay, InitDelay::Disabled));

    let mut flags = RuntimeFlags::new();
    let plan = shim_init_finish(&mut flags, &signals, &env, false, true);
    assert!(matches!(plan.sigchld, SigchldStartup::Ignored));
}

#[test]
fn the_key_is_created_once() {
    let mut key = TlsKey::Unasked;
    assert_eq!(tls_key(&mut key, Some(0)), Some(0));
    assert_eq!(tls_key(&mut key, Some(9)), Some(0));
    assert_eq!(tls_key(&mut key, None), Some(0));
    let mut key = TlsKey::Unasked;
    assert_eq!(tls_key(&mut key, None), None);
    assert_eq!(tls_key(&mut key, Some(3)), None);
}

#[test]
fn a_thread_uses_its_own_block() {
    assert!(matches!(tls_state(false, 0x10, None), TlsStep::Fallback));
    assert!(matches!(tls_state(true, 0x10, None), TlsStep::Use(0x10)));
    assert!(matches!(tls_state(true, 0, None), TlsStep::Allocate));
    match tls_state(true, 0, Some(0x20)) {
        TlsStep::Install { block, state } => {
            assert_eq!(block, 0x20);
            assert_eq!(state.in_interpose_call, 0);
            assert_eq!(state.prepare_v2_depth, 0);
            assert_eq!(state.in_resolve_tables, 0);
            assert_eq!(state.value_type_calls, 0);
            assert_eq!(state.column_type_calls, 0);
            assert_eq!(state.last_query, 0);
        }
        _ => panic!("a block that was allocated is installed"),
    }
    assert!(matches!(tls_state(true, 0, Some(0)), TlsStep::Fallback));
    let state = TlsState::new();
    assert_eq!(state.in_interpose_call, 0);
    assert_eq!(state.last_query, 0);
}
