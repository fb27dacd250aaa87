use shell_core::build_in::Handle;
use shell_core::env::{
    find_builtin, get_local_var, get_status_var, is_status_name, manage_local_vars, pick_file,
    resolve_dep,
    resolve_with, search_path, set_exit_status, set_local_var, split_assignment, var, Dep,
    EnvError, VarStore,
};

fn strings(items: &[&str]) -> Vec<String> {
    items.iter().map(|s| s.to_string()).collect()
}

#[test]
fn new_store_holds_status_zero() {
    let store = VarStore::new();
    assert_eq!(get_local_var(&store, "?"), Some("0".to_string()));
    assert_eq!(get_status_var(&store), 0);
    assert_eq!(get_local_var(&store, "PATH"), None);
    assert_eq!(store.inherited_var("PATH"), None);
}

#[test]
fn status_is_written_in_decimal() {
    let mut store = VarStore::new();
    for status in [0, 1, 3, 127, 137, 255, -1, i32::MAX, i32::MIN] {
        set_exit_status(&mut store, status);
        assert_eq!(get_local_var(&store, "?"), Some(status.to_string()));
        assert_eq!(get_status_var(&store), status);
    }
}

#[test]
fn set_local_var_inserts_and_updates() {
    let mut store = VarStore::new();
    assert_eq!(set_local_var(&mut store, "A", "1".to_string()), Ok(()));
    assert_eq!(get_local_var(&store, "A"), Some("1".to_string()));
    assert_eq!(set_local_var(&mut store, "A", "2".to_string()), Ok(()));
    assert_eq!(get_local_var(&store, "A"), Some("2".to_string()));
    assert_eq!(get_status_var(&store), 0);
}

#[test]
fn set_local_var_refuses_the_status_variable() {
    let mut store = VarStore::new();
    set_exit_status(&mut store, 9);
    assert_eq!(
        set_local_var(&mut store, "?", "12".to_string()),
        Err(EnvError::InvalidAssignExpr)
    );
    assert_eq!(get_local_var(&store, "?"), Some("9".to_string()));
    assert!(is_status_name("?"));
    assert!(!is_status_name("??"));
    assert!(!is_status_name(""));
    assert!(!is_status_name("a"));
}

#[test]
fn var_looks_at_local_then_inherited() {
    let mut store = VarStore::new();
    assert_eq!(var(&store, "X"), None);
    store.inherit("X".to_string(), "env".to_string());
    assert_eq!(var(&store, "X"), Some("env".to_string()));
    assert_eq!(get_local_var(&store, "X"), None);
    set_local_var(&mut store, "X", "own".to_string()).unwrap();
    assert_eq!(var(&store, "X"), Some("own".to_string()));
    assert_eq!(store.inherited_var("X"), Some("env".to_string()));
    store.inherit("X".to_string(), "again".to_string());
    assert_eq!(store.inherited_var("X"), Some("again".to_string()));
}

#[test]
fn split_assignment_cuts_at_the_first_equals_sign() {
    let info = split_assignment("A=b=c").unwrap();
    assert_eq!((info.var.as_str(), info.val.as_str()), ("A", "b=c"));
    let info = split_assignment("A=").unwrap();
    assert_eq!((info.var.as_str(), info.val.as_str()), ("A", ""));
    let info = split_assignment("=v").unwrap();
    assert_eq!((info.var.as_str(), info.val.as_str()), ("", "v"));
    assert!(split_assignment("novalue").is_none());
    assert!(split_assignment("").is_none());
}

#[test]
fn manage_local_vars_applies_in_order() {
    let mut store = VarStore::new();
    let applied = manage_local_vars(&mut store, &strings(&["A=1", "B=x=y", "A=3", "C="]));
    assert_eq!(applied, Ok(()));
    assert_eq!(get_local_var(&store, "A"), Some("3".to_string()));
    assert_eq!(get_local_var(&store, "B"), Some("x=y".to_string()));
    assert_eq!(get_local_var(&store, "C"), Some("".to_string()));
    assert_eq!(get_status_var(&store), 0);
    assert_eq!(manage_local_vars(&mut store, &[]), Ok(()));
}

#[test]
fn manage_local_vars_is_idempotent() {
    let mut store = VarStore::new();
    let entries = strings(&["A=1", "B=2"]);
    manage_local_vars(&mut store, &entries).unwrap();
    manage_local_vars(&mut store, &entries).unwrap();
    assert_eq!(get_local_var(&store, "A"), Some("1".to_string()));
    assert_eq!(get_local_var(&store, "B"), Some("2".to_string()));
}

#[test]
fn manage_local_vars_applies_nothing_if_one_entry_is_bad() {
    let mut store = VarStore::new();
    set_exit_status(&mut store, 4);
    let applied = manage_local_vars(&mut store, &strings(&["A=1", "?=7"]));
    assert_eq!(applied, Err(EnvError::InvalidAssignExpr));
    assert_eq!(get_local_var(&store, "A"), None);
    assert_eq!(get_status_var(&store), 4);
    let applied = manage_local_vars(&mut store, &strings(&["A=1", "novalue", "B=2"]));
    assert_eq!(applied, Err(EnvError::InvalidAssignExpr));
    assert_eq!(get_local_var(&store, "A"), None);
    assert_eq!(get_local_var(&store, "B"), None);
}

#[test]
fn builtins_are_found_by_exact_name() {
    assert_eq!(find_builtin("exit"), Some(Handle::Exit(shell_core::build_in::Exit)));
    assert_eq!(find_builtin("cd"), Some(Handle::Cd(shell_core::build_in::Cd)));
    assert_eq!(find_builtin("Exit"), None);
    assert_eq!(find_builtin("exit "), None);
    assert_eq!(find_builtin("c"), None);
    assert_eq!(find_builtin(""), None);
}

#[test]
fn search_path_lists_one_file_per_directory() {
    assert_eq!(search_path("/bin:/usr/bin", "ls"), strings(&["/bin/ls", "/usr/bin/ls"]));
    assert_eq!(search_path("/bin", "ls"), strings(&["/bin/ls"]));
    assert_eq!(search_path("", "ls"), strings(&["/ls"]));
    assert_eq!(search_path("a::b:", "x"), strings(&["a/x", "/x", "b/x", "/x"]));
    assert_eq!(search_path(":", ""), strings(&["/", "/"]));
}

#[test]
fn resolve_with_prefers_builtins() {
    let dep = resolve_with("cd", Some("/bin"), &[true]);
    assert!(matches!(dep, Some(Dep::BuildIn(Handle::Cd(_)))));
    let dep = resolve_with("exit", None, &[]);
    assert!(matches!(dep, Some(Dep::BuildIn(Handle::Exit(_)))));
}

#[test]
fn resolve_with_takes_the_first_file_that_exists() {
    let path = Some("/a:/b:/c");
    assert!(matches!(resolve_with("ls", path, &[false, true, true]), Some(Dep::Path(p)) if p == "/b/ls"));
    assert!(matches!(resolve_with("ls", path, &[true, false, false]), Some(Dep::Path(p)) if p == "/a/ls"));
    assert!(matches!(resolve_with("ls", path, &[false, false, true]), Some(Dep::Path(p)) if p == "/c/ls"));
    assert!(resolve_with("ls", path, &[false, false, false]).is_none());
    assert!(resolve_with("ls", path, &[false, false]).is_none());
    assert!(resolve_with("ls", path, &[]).is_none());
    assert!(resolve_with("ls", path, &[false, false, false, true]).is_none());
    assert!(resolve_with("ls", None, &[true]).is_none());
}

#[test]
fn resolve_dep_without_search_path_finds_only_builtins() {
    let store = VarStore::new();
    assert!(resolve_dep(&store, "tmp").is_none());
    assert!(matches!(resolve_dep(&store, "cd"), Some(Dep::BuildIn(Handle::Cd(_)))));
    assert!(matches!(resolve_dep(&store, "exit"), Some(Dep::BuildIn(Handle::Exit(_)))));
}

#[test]
fn resolve_dep_asks_the_file_system() {
    let mut store = VarStore::new();
    store.inherit("PATH".to_string(), "/no-such-directory-1:/:/no-such-directory-2".to_string());
    assert!(matches!(resolve_dep(&store, "tmp"), Some(Dep::Path(p)) if p == "//tmp"));
    assert!(resolve_dep(&store, "no-such-command-anywhere").is_none());
}

#[test]
fn resolve_dep_takes_the_first_of_two_hits() {
    let mut store = VarStore::new();
    store.inherit("PATH".to_string(), "/:/.".to_string());
    assert!(matches!(resolve_dep(&store, "tmp"), Some(Dep::Path(p)) if p == "//tmp"));
    store.inherit("PATH".to_string(), "/.:/".to_string());
    assert!(matches!(resolve_dep(&store, "tmp"), Some(Dep::Path(p)) if p == "/./tmp"));
    store.inherit("PATH".to_string(), "/no-such-directory:/.:/".to_string());
    assert!(matches!(resolve_dep(&store, "tmp"), Some(Dep::Path(p)) if p == "/./tmp"));
}

#[test]
fn pick_file_takes_the_first_yes() {
    let files = strings(&["a", "b", "c"]);
    assert_eq!(pick_file(&files, &[false, true, true]), Some("b".to_string()));
    assert_eq!(pick_file(&files, &[true]), Some("a".to_string()));
    assert_eq!(pick_file(&files, &[false, false, false]), None);
    assert_eq!(pick_file(&files, &[false, false, false, true]), None);
    assert_eq!(pick_file(&files, &[]), None);
    assert_eq!(pick_file(&[], &[true]), None);
}

#[test]
fn resolve_dep_reads_the_inherited_path_only() {
    let mut store = VarStore::new();
    set_local_var(&mut store, "PATH", "/".to_string()).unwrap();
    assert!(resolve_dep(&store, "tmp").is_none());
}
