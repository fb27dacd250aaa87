use shell_core::build_in::{BuildIn, BuildInError, Cd, Exit, Handle, Request, EXIT_FAILURE, EXIT_SUCCESS};
use shell_core::cmd::{
    child_forked, child_waited, decode_status, directory_changed, dispatch, execute_cmd,
    forward_env, run_expr, CmdError, Step, POSIX_NOT_FOUND,
};
use shell_core::env::{get_local_var, get_status_var, set_exit_status, Dep, EnvError, VarStore};
use shell_core::number::IntErrorKind;
use shell_core::parser::{Cmd, ParserError};

fn strings(items: &[&str]) -> Vec<String> {
    items.iter().map(|s| s.to_string()).collect()
}

fn hosted() -> VarStore {
    let mut store = VarStore::new();
    store.inherit("PATH".to_string(), "/no-such-directory:/".to_string());
    store.inherit("TERM".to_string(), "dumb".to_string());
    store.inherit("HOME".to_string(), "/home/me".to_string());
    store
}

#[test]
fn exit_codes_are_those_of_libc() {
    assert_eq!(EXIT_FAILURE, libc::EXIT_FAILURE);
    assert_eq!(EXIT_SUCCESS, libc::EXIT_SUCCESS);
    assert_eq!(POSIX_NOT_FOUND, 127);
}

#[test]
fn decode_normal_exit() {
    assert_eq!(decode_status(0), 0);
    assert_eq!(decode_status(3 << 8), 3);
    assert_eq!(decode_status(255 << 8), 255);
    assert_eq!(decode_status(0x1_0300), 3);
}

#[test]
fn decode_signal() {
    assert_eq!(decode_status(9), 137);
    assert_eq!(decode_status(15), 143);
    assert_eq!(decode_status(11 | 0x80), 139);
    assert_eq!(decode_status(1), 129);
    assert_eq!(decode_status(126), 254);
    assert_eq!(decode_status(0x0300 | 2), 130);
}

#[test]
fn decode_passes_other_statuses_through() {
    assert_eq!(decode_status(0x137f), 0x137f);
    assert_eq!(decode_status(0x7f), 0x7f);
    assert_eq!(decode_status(0xffff), 0xffff);
    assert_eq!(decode_status(-1), -1);
}

#[test]
fn decode_agrees_with_libc_on_every_low_half() {
    for raw in (-70000..70000).chain([i32::MIN, i32::MAX, i32::MAX - 127, i32::MIN + 128]) {
        let expected = if libc::WIFEXITED(raw) {
            libc::WEXITSTATUS(raw)
        } else if libc::WIFSIGNALED(raw) {
            128 + libc::WTERMSIG(raw)
        } else {
            raw
        };
        assert_eq!(decode_status(raw), expected, "{raw}");
    }
}

#[test]
fn waited_child_sets_the_status() {
    let mut store = hosted();
    child_waited(&mut store, 3 << 8);
    assert_eq!(get_local_var(&store, "?"), Some("3".to_string()));
    child_waited(&mut store, 9);
    assert_eq!(get_local_var(&store, "?"), Some("137".to_string()));
    assert_eq!(get_status_var(&store), 137);
    child_waited(&mut store, 0);
    assert_eq!(get_local_var(&store, "?"), Some("0".to_string()));
}

#[test]
fn failed_launch_inside_the_child_shows_as_its_status() {
    let mut store = hosted();
    child_waited(&mut store, 255 << 8);
    assert_eq!(get_status_var(&store), 255);
}

#[test]
fn fork_failure_is_an_error() {
    assert!(matches!(child_forked(-1), Err(CmdError::ForkError)));
    assert!(matches!(child_forked(i32::MIN), Err(CmdError::ForkError)));
    assert!(matches!(child_forked(4711), Ok(4711)));
    assert!(matches!(child_forked(0), Ok(0)));
}

#[test]
fn blank_line_runs_nothing_and_keeps_the_status() {
    let mut store = hosted();
    set_exit_status(&mut store, 42);
    for line in ["", "  ", "\t\n"] {
        assert!(matches!(run_expr(&mut store, line), Ok(Step::Done)));
        assert_eq!(get_local_var(&store, "?"), Some("42".to_string()));
    }
}

#[test]
fn assignment_only_line_sets_variables_and_keeps_the_status() {
    let mut store = hosted();
    set_exit_status(&mut store, 7);
    assert!(matches!(run_expr(&mut store, "A=1 B=\"two words\""), Ok(Step::Done)));
    assert_eq!(get_local_var(&store, "A"), Some("1".to_string()));
    assert_eq!(get_local_var(&store, "B"), Some("two words".to_string()));
    assert_eq!(get_status_var(&store), 7);
    assert!(matches!(run_expr(&mut store, "A=$B"), Ok(Step::Done)));
    assert_eq!(get_local_var(&store, "A"), Some("$B".to_string()));
}

#[test]
fn assignments_before_an_empty_name_are_applied() {
    let mut store = hosted();
    assert!(matches!(run_expr(&mut store, "A=1 $NOPE arg"), Ok(Step::Done)));
    assert_eq!(get_local_var(&store, "A"), Some("1".to_string()));
}

#[test]
fn syntax_error_changes_nothing() {
    let mut store = hosted();
    set_exit_status(&mut store, 5);
    assert!(matches!(
        run_expr(&mut store, "A=1 echo \"x"),
        Err(CmdError::ParserError(ParserError::ParseError(_)))
    ));
    assert!(matches!(
        run_expr(&mut store, "?=1"),
        Err(CmdError::ParserError(ParserError::NoMatches(_)))
    ));
    assert_eq!(get_status_var(&store), 5);
    assert_eq!(get_local_var(&store, "A"), None);
}

#[test]
fn unknown_command_sets_status_127() {
    let mut store = hosted();
    match run_expr(&mut store, "no-such-command-anywhere arg") {
        Err(CmdError::CommandNotFound(name)) => assert_eq!(name, "no-such-command-anywhere"),
        other => panic!("{other:?}"),
    }
    assert_eq!(get_local_var(&store, "?"), Some("127".to_string()));
}

#[test]
fn external_command_is_to_be_launched() {
    let mut store = hosted();
    set_exit_status(&mut store, 3);
    match run_expr(&mut store, "A=1 B=2 tmp -l \"a b\"") {
        Ok(Step::Launch(launch)) => {
            assert_eq!(launch.path, "//tmp");
            assert_eq!(launch.argv, strings(&["//tmp", "-l", "a b"]));
            assert_eq!(
                launch.envp,
                strings(&["A=1", "B=2", "PATH=/no-such-directory:/", "TERM=dumb"])
            );
        }
        other => panic!("{other:?}"),
    }
    assert_eq!(get_status_var(&store), 3);
    assert_eq!(get_local_var(&store, "A"), None);
}

#[test]
fn missing_terminal_type_is_an_error() {
    let mut store = VarStore::new();
    store.inherit("PATH".to_string(), "/".to_string());
    assert!(matches!(run_expr(&mut store, "tmp"), Err(CmdError::VarError)));
    assert!(matches!(run_expr(&mut store, "cd /"), Err(CmdError::VarError)));
    assert_eq!(get_status_var(&store), 0);
    let mut store = VarStore::new();
    store.inherit("TERM".to_string(), "dumb".to_string());
    assert!(matches!(run_expr(&mut store, "exit"), Err(CmdError::VarError)));
}

#[test]
fn nul_in_the_forwarded_environment_is_an_error() {
    let mut store = VarStore::new();
    store.inherit("PATH".to_string(), "/".to_string());
    store.inherit("TERM".to_string(), "du\0mb".to_string());
    assert!(matches!(run_expr(&mut store, "cd /"), Err(CmdError::NulError(7))));
    assert!(matches!(forward_env(&store, vec![]), Err(CmdError::NulError(7))));
}

#[test]
fn forward_env_appends_path_and_term() {
    let store = hosted();
    assert_eq!(
        forward_env(&store, strings(&["X=1"])).unwrap(),
        strings(&["X=1", "PATH=/no-such-directory:/", "TERM=dumb"])
    );
}

#[test]
fn execute_cmd_puts_the_path_first() {
    let launch = execute_cmd("/bin/ls", &strings(&["-l", "x"]), &strings(&["A=1"])).unwrap();
    assert_eq!(launch.path, "/bin/ls");
    assert_eq!(launch.argv, strings(&["/bin/ls", "-l", "x"]));
    assert_eq!(launch.envp, strings(&["A=1"]));
    let launch = execute_cmd("x", &[], &[]).unwrap();
    assert_eq!(launch.argv, strings(&["x"]));
    assert!(launch.envp.is_empty());
    assert!(matches!(execute_cmd("/bin\0/ls", &[], &[]), Err(CmdError::NulError(4))));
}

#[test]
fn exit_without_argument_uses_the_status() {
    let mut store = hosted();
    set_exit_status(&mut store, 5);
    assert!(matches!(run_expr(&mut store, "exit"), Ok(Step::Terminate(5))));
    assert_eq!(get_status_var(&store), 5);
}

#[test]
fn exit_with_argument_uses_the_argument() {
    let mut store = hosted();
    set_exit_status(&mut store, 5);
    assert!(matches!(run_expr(&mut store, "exit 9"), Ok(Step::Terminate(9))));
    assert!(matches!(run_expr(&mut store, "exit -1 ignored"), Ok(Step::Terminate(-1))));
    set_exit_status(&mut store, 0);
    assert!(matches!(run_expr(&mut store, "exit 9"), Ok(Step::Terminate(9))));
}

#[test]
fn exit_with_a_bad_argument_is_reported() {
    let mut store = hosted();
    set_exit_status(&mut store, 5);
    assert!(matches!(
        run_expr(&mut store, "exit nine"),
        Err(CmdError::BuildInError(BuildInError::ParseIntError(IntErrorKind::InvalidDigit)))
    ));
    assert!(matches!(
        run_expr(&mut store, "exit 99999999999"),
        Err(CmdError::BuildInError(BuildInError::ParseIntError(IntErrorKind::PosOverflow)))
    ));
    assert!(matches!(
        run_expr(&mut store, "exit \"\""),
        Err(CmdError::BuildInError(BuildInError::ParseIntError(IntErrorKind::Empty)))
    ));
    assert_eq!(get_status_var(&store), 5);
}

#[test]
fn exit_run_gives_a_request() {
    let mut store = VarStore::new();
    set_exit_status(&mut store, 17);
    assert!(matches!(Exit.run(&store, &[], &[]), Ok(Request::Terminate(17))));
    assert!(matches!(Exit.run(&store, &strings(&["3"]), &[]), Ok(Request::Terminate(3))));
    assert!(matches!(
        Exit.run(&store, &strings(&["-2147483649"]), &[]),
        Err(BuildInError::ParseIntError(IntErrorKind::NegOverflow))
    ));
    assert!(matches!(Handle::Exit(Exit).run(&store, &[], &[]), Ok(Request::Terminate(17))));
}

#[test]
fn cd_asks_for_the_directory() {
    let mut store = hosted();
    assert!(matches!(run_expr(&mut store, "cd /tmp"), Ok(Step::ChangeDir(p)) if p == "/tmp"));
    assert!(matches!(run_expr(&mut store, "cd"), Ok(Step::ChangeDir(p)) if p == "/home/me"));
    assert!(matches!(run_expr(&mut store, "cd . other"), Ok(Step::ChangeDir(p)) if p == "."));
    assert_eq!(get_status_var(&store), 0);
}

#[test]
fn cd_without_home_fails_with_a_status() {
    let mut store = VarStore::new();
    store.inherit("PATH".to_string(), "/".to_string());
    store.inherit("TERM".to_string(), "dumb".to_string());
    assert!(matches!(run_expr(&mut store, "cd"), Ok(Step::Report(text)) if text == "cd: HOME not set"));
    assert_eq!(get_local_var(&store, "?"), Some("1".to_string()));
    assert!(matches!(Cd.run(&store, &[], &[]), Ok(Request::Report(1, text)) if text == "cd: HOME not set"));
    assert!(matches!(run_expr(&mut store, "cd /"), Ok(Step::ChangeDir(path)) if path == "/"));
}

#[test]
fn cd_with_nul_in_home_is_an_error() {
    let mut store = VarStore::new();
    store.inherit("HOME".to_string(), "/ho\0me".to_string());
    assert!(matches!(Cd.run(&store, &[], &[]), Err(BuildInError::NulError(3))));
    assert!(matches!(Handle::Cd(Cd).run(&store, &strings(&["/x"]), &[]), Ok(Request::ChangeDir(p)) if p == "/x"));
}

#[test]
fn failed_change_of_directory_is_reported() {
    let mut store = hosted();
    let diagnostic = directory_changed(&mut store, "/no/such/dir", -1);
    assert_eq!(diagnostic, Some("cd: no such file or directory: /no/such/dir".to_string()));
    assert_eq!(get_local_var(&store, "?"), Some("1".to_string()));
    assert_eq!(
        Cd::finish("x", -1),
        (EXIT_FAILURE, Some("cd: no such file or directory: x".to_string()))
    );
}

#[test]
fn successful_change_of_directory_gives_status_zero() {
    let mut store = hosted();
    set_exit_status(&mut store, 9);
    for _ in 0..3 {
        assert_eq!(directory_changed(&mut store, ".", 0), None);
        assert_eq!(get_local_var(&store, "?"), Some("0".to_string()));
    }
    assert_eq!(Cd::finish(".", 0), (EXIT_SUCCESS, None));
}

#[test]
fn dispatch_takes_any_resolution() {
    let mut store = hosted();
    let cmd = || Cmd { command: "prog".to_string(), args: strings(&["a"]), env: strings(&["E=1"]) };
    assert!(matches!(dispatch(&mut store, cmd(), None), Err(CmdError::CommandNotFound(n)) if n == "prog"));
    assert_eq!(get_status_var(&store), 127);
    match dispatch(&mut store, cmd(), Some(Dep::Path("/opt/prog".to_string()))) {
        Ok(Step::Launch(launch)) => {
            assert_eq!(launch.argv, strings(&["/opt/prog", "a"]));
            assert_eq!(launch.envp, strings(&["E=1", "PATH=/no-such-directory:/", "TERM=dumb"]));
        }
        other => panic!("{other:?}"),
    }
    assert!(matches!(
        dispatch(&mut store, cmd(), Some(Dep::Path("/opt\0".to_string()))),
        Err(CmdError::NulError(4))
    ));
    assert!(matches!(
        dispatch(&mut store, cmd(), Some(Dep::BuildIn(Handle::Cd(Cd)))),
        Ok(Step::ChangeDir(p)) if p == "a"
    ));
    assert_eq!(get_status_var(&store), 127);
}

#[test]
fn env_error_wraps_a_bad_assignment() {
    let failure = CmdError::EnvError(EnvError::InvalidAssignExpr);
    assert!(matches!(failure, CmdError::EnvError(EnvError::InvalidAssignExpr)));
}
