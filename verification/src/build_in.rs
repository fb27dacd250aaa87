//! The commands that the shell runs itself: `exit` and `cd`.
//!
//! A built-in does not touch the process. It says what it asks for: a
//! failure to report, the end of the process, or a change of directory whose
//! result `Cd::finish` turns into a status.

use vstd::prelude::*;
use vstd::string::StringExecFns;

use crate::env::{get_status_var, VarStore};
use crate::number::{parse_i32, parse_i32_spec, IntErrorKind};
use crate::text::{find_nul, nul_at, texts};

verus! {

/// The status of a command that failed.
pub const EXIT_FAILURE: i32 = 1;

/// The status of a command that succeeded.
pub const EXIT_SUCCESS: i32 = 0;

/// Why a built-in could not do its work.
#[derive(Clone, Copy, Debug, PartialEq, Eq, Structural)]
pub enum BuildInError {
    /// An argument is not a 32-bit integer.
    ParseIntError(IntErrorKind),
    /// A path holds a NUL character; the place of the first one.
    NulError(usize),
}

/// What a built-in asks of the shell.
#[derive(Debug)]
pub enum Request {
    /// Record this status and print this text; the command is done.
    Report(i32, String),
    /// End the process with this status.
    Terminate(i32),
    /// Change the working directory to this path, and hand the result to
    /// `Cd::finish`.
    ChangeDir(String),
}

/// What a `Request` holds, as plain values.
pub enum RequestView {
    Report(i32, Seq<char>),
    Terminate(i32),
    ChangeDir(Seq<char>),
}

impl View for Request {
    type V = RequestView;

    open spec fn view(&self) -> RequestView {
        match self {
            Request::Report(status, text) => RequestView::Report(*status, text@),
            Request::Terminate(status) => RequestView::Terminate(*status),
            Request::ChangeDir(path) => RequestView::ChangeDir(path@),
        }
    }
}

/// A command that the shell runs itself.
pub trait BuildIn {
    /// What the built-in asks for, given the status of the last command, the
    /// inherited environment and its arguments.
    spec fn request(
        &self,
        status: i32,
        inherited: Map<Seq<char>, Seq<char>>,
        args: Seq<Seq<char>>,
    ) -> Result<RequestView, BuildInError>;

    /// Runs the built-in on `args`. `env` is the environment that a child
    /// process would get.
    fn run(&self, store: &VarStore, args: &[String], env: &[String]) -> (r: Result<
        Request,
        BuildInError,
    >)
        requires
            store.wf(),
        ensures
            match self.request(store.status(), store.inherited(), texts(args@)) {
                Ok(request) => r is Ok && r->Ok_0@ == request,
                Err(failure) => r == Err::<Request, BuildInError>(failure),
            },
    ;
}

/// `exit`: ends the process, with the status of the last command or with the
/// status that its first argument names.
#[derive(Clone, Copy, Debug, PartialEq, Eq, Structural)]
pub struct Exit;

impl BuildIn for Exit {
    open spec fn request(
        &self,
        status: i32,
        inherited: Map<Seq<char>, Seq<char>>,
        args: Seq<Seq<char>>,
    ) -> Result<RequestView, BuildInError> {
        if args.len() == 0 {
            Ok(RequestView::Terminate(status))
        } else {
            match parse_i32_spec(args[0]) {
                Ok(code) => Ok(RequestView::Terminate(code)),
                Err(kind) => Err(BuildInError::ParseIntError(kind)),
            }
        }
    }

    fn run(&self, store: &VarStore, args: &[String], env: &[String]) -> (r: Result<
        Request,
        BuildInError,
    >) {
        if args.len() == 0 {
            Ok(Request::Terminate(get_status_var(store)))
        } else {
            match parse_i32(args[0].as_str()) {
                Ok(code) => Ok(Request::Terminate(code)),
                Err(kind) => Err(BuildInError::ParseIntError(kind)),
            }
        }
    }
}

/// The text that reports that `cd` has nowhere to go.
pub open spec fn home_diagnostic() -> Seq<char> {
    "cd: HOME not set"@
}

/// `cd`: changes the working directory, to its first argument or to the
/// inherited `HOME`. Without either it fails, and says so.
#[derive(Clone, Copy, Debug, PartialEq, Eq, Structural)]
pub struct Cd;

impl BuildIn for Cd {
    open spec fn request(
        &self,
        status: i32,
        inherited: Map<Seq<char>, Seq<char>>,
        args: Seq<Seq<char>>,
    ) -> Result<RequestView, BuildInError> {
        if args.len() > 0 {
            Ok(RequestView::ChangeDir(args[0]))
        } else if !inherited.contains_key("HOME"@) {
            Ok(RequestView::Report(EXIT_FAILURE, home_diagnostic()))
        } else {
            match nul_at(inherited["HOME"@]) {
                Some(at) => Err(BuildInError::NulError(at)),
                None => Ok(RequestView::ChangeDir(inherited["HOME"@])),
            }
        }
    }

    fn run(&self, store: &VarStore, args: &[String], env: &[String]) -> (r: Result<
        Request,
        BuildInError,
    >) {
        if args.len() > 0 {
            return Ok(Request::ChangeDir(args[0].clone()));
        }
        match store.inherited_var("HOME") {
            None => Ok(Request::Report(EXIT_FAILURE, String::from_str("cd: HOME not set"))),
            Some(home) => match find_nul(home.as_str()) {
                Some(at) => Err(BuildInError::NulError(at)),
                None => Ok(Request::ChangeDir(home)),
            },
        }
    }
}

/// The text that reports a directory that could not be entered.
pub open spec fn cd_diagnostic(path: Seq<char>) -> Seq<char> {
    "cd: no such file or directory: "@ + path
}

impl Cd {
    /// Turns the result of changing the directory to `path` into a status,
    /// and into a text to print if the change failed. A negative `result`
    /// says that it failed.
    pub fn finish(path: &str, result: i32) -> (r: (i32, Option<String>))
        ensures
            result < 0 ==> r.0 == EXIT_FAILURE && r.1 is Some && r.1.unwrap()@ == cd_diagnostic(
                path@,
            ),
            result >= 0 ==> r.0 == EXIT_SUCCESS && r.1 is None,
    {
        if result < 0 {
            let text = String::from_str("cd: no such file or directory: ").concat(path);
            (EXIT_FAILURE, Some(text))
        } else {
            (EXIT_SUCCESS, None)
        }
    }
}

/// A built-in, found by its name.
#[derive(Clone, Copy, Debug, PartialEq, Eq, Structural)]
pub enum Handle {
    Exit(Exit),
    Cd(Cd),
}

impl BuildIn for Handle {
    open spec fn request(
        &self,
        status: i32,
        inherited: Map<Seq<char>, Seq<char>>,
        args: Seq<Seq<char>>,
    ) -> Result<RequestView, BuildInError> {
        match self {
            Handle::Exit(exit) => exit.request(status, inherited, args),
            Handle::Cd(cd) => cd.request(status, inherited, args),
        }
    }

    fn run(&self, store: &VarStore, args: &[String], env: &[String]) -> (r: Result<
        Request,
        BuildInError,
    >) {
        match self {
            Handle::Exit(exit) => exit.run(store, args, env),
            Handle::Cd(cd) => cd.run(store, args, env),
        }
    }
}

} // verus!
