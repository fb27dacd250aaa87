//! The execution engine: what running a line comes to.
//!
//! `run_expr` reads a line and decides what has to happen. What only the
//! host can do (create a child process and wait for it, change the working
//! directory, end the process) comes back as a `Step`; the host does it and
//! reports the outcome to `child_forked`, `child_waited` or
//! `directory_changed`.

use vstd::prelude::*;
use vstd::string::StringExecFns;

use crate::build_in::{BuildIn, BuildInError, Cd, Request, RequestView};
use crate::env::{
    assign_all, builtin_of, dep_view, lemma_assignments_keep_status, lemma_first_yes,
    manage_local_vars, resolve_dep,
    resolve_spec, set_exit_status, status_name, status_of, Dep, DepView, EnvError, VarStore,
};
use crate::grammar::is_space;
use crate::number::decimal;
use crate::parser::{
    empty_cmd, lemma_parse_blank, lemma_parsed_assignments, parse, parse_spec, Cmd, CmdView,
    ParseFailure, ParserError,
};
use crate::text::{find_nul, nul_at, texts};

verus! {

/// The status of a command that was not found.
pub const POSIX_NOT_FOUND: i32 = 127;

/// Whether a raw wait status says that the child exited by itself.
pub open spec fn exited(raw: i32) -> bool {
    (raw & 0x7f) == 0
}

/// The exit code in a raw wait status.
pub open spec fn exit_code(raw: i32) -> i32 {
    (raw >> 8) & 0xff
}

/// Whether a raw wait status says that a signal ended the child.
pub open spec fn signaled(raw: i32) -> bool {
    (((raw & 0x7f) + 1) as i8) >= 2
}

/// The signal in a raw wait status.
pub open spec fn term_signal(raw: i32) -> i32 {
    raw & 0x7f
}

/// `libc::WIFEXITED`, as libc defines it for Linux: the low seven bits of
/// the status are zero.
#[verifier::external_body]
fn wifexited(raw: i32) -> (b: bool)
    ensures
        b == exited(raw),
{
    libc::WIFEXITED(raw)
}

/// `libc::WEXITSTATUS`, as libc defines it for Linux: the second byte of the
/// status.
#[verifier::external_body]
fn wexitstatus(raw: i32) -> (code: i32)
    ensures
        code == exit_code(raw),
{
    libc::WEXITSTATUS(raw)
}

/// `libc::WIFSIGNALED`, as libc defines it for Linux: the low seven bits of
/// the status plus one, cut to a signed byte, are at least two.
#[verifier::external_body]
fn wifsignaled(raw: i32) -> (b: bool)
    ensures
        b == signaled(raw),
{
    libc::WIFSIGNALED(raw)
}

/// `libc::WTERMSIG`, as libc defines it for Linux: the low seven bits of the
/// status.
#[verifier::external_body]
fn wtermsig(raw: i32) -> (signal: i32)
    ensures
        signal == term_signal(raw),
{
    libc::WTERMSIG(raw)
}

/// The status of a child, from its raw wait status: its exit code if it
/// exited by itself, 128 plus the signal if a signal ended it, and the raw
/// status otherwise.
pub open spec fn decode_spec(raw: i32) -> i32 {
    if exited(raw) {
        exit_code(raw)
    } else if signaled(raw) {
        (128 + term_signal(raw)) as i32
    } else {
        raw
    }
}

/// The parts of a raw wait status in numbers: the low seven bits are the
/// remainder by 128, the exit code is the second byte, and a signal ended
/// the child where the low seven bits are neither 0 nor 127.
pub proof fn lemma_status_parts(raw: i32)
    ensures
        term_signal(raw) == raw as int % 128,
        exited(raw) <==> raw as int % 128 == 0,
        signaled(raw) <==> 1 <= raw as int % 128 <= 126,
        exit_code(raw) == (raw as int / 256) % 256,
{
    assert((raw & 0x7f) == raw as int % 128) by (bit_vector);
    assert(((raw >> 8) & 0xff) == (raw as int / 256) % 256) by (bit_vector);
    assert(((((raw & 0x7f) + 1) as i8) >= 2) <==> 1 <= (raw & 0x7f) <= 126) by (bit_vector);
}

/// Decodes a raw wait status.
pub fn decode_status(raw: i32) -> (status: i32)
    ensures
        status == decode_spec(raw),
{
    if wifexited(raw) {
        wexitstatus(raw)
    } else if wifsignaled(raw) {
        proof {
            lemma_status_parts(raw);
        }
        128 + wtermsig(raw)
    } else {
        raw
    }
}

/// A child that exits by itself with `code` leaves that code as its status.
pub proof fn lemma_decode_exit(code: i32)
    requires
        0 <= code <= 255,
    ensures
        decode_spec((code * 256) as i32) == code,
{
    lemma_status_parts((code * 256) as i32);
}

/// A child that `signal` ends leaves 128 plus the signal as its status,
/// whether or not it dumped core.
pub proof fn lemma_decode_signal(signal: i32, core: bool)
    requires
        1 <= signal <= 126,
    ensures
        decode_spec((signal + if core { 128int } else { 0int }) as i32) == 128 + signal,
{
    lemma_status_parts((signal + if core { 128int } else { 0int }) as i32);
}

/// Why a line could not be run.
#[derive(Debug)]
pub enum CmdError {
    /// No built-in has the name and no file along the search path; the name.
    CommandNotFound(String),
    /// A variable that a child process must get is not in the environment.
    VarError,
    /// The line is not a command.
    ParserError(ParserError),
    /// A text for the child process holds a NUL character; the place of the
    /// first one.
    NulError(usize),
    /// A built-in could not do its work.
    BuildInError(BuildInError),
    /// No child process could be created.
    ForkError,
    /// An assignment could not be applied.
    EnvError(EnvError),
}

/// What a `CmdError` holds, as plain values.
pub enum CmdFailure {
    CommandNotFound(Seq<char>),
    VarError,
    ParserError(ParseFailure),
    NulError(usize),
    BuildInError(BuildInError),
    ForkError,
    EnvError(EnvError),
}

impl View for CmdError {
    type V = CmdFailure;

    open spec fn view(&self) -> CmdFailure {
        match self {
            CmdError::CommandNotFound(name) => CmdFailure::CommandNotFound(name@),
            CmdError::VarError => CmdFailure::VarError,
            CmdError::ParserError(failure) => CmdFailure::ParserError(failure@),
            CmdError::NulError(at) => CmdFailure::NulError(*at),
            CmdError::BuildInError(failure) => CmdFailure::BuildInError(*failure),
            CmdError::ForkError => CmdFailure::ForkError,
            CmdError::EnvError(failure) => CmdFailure::EnvError(*failure),
        }
    }
}

/// A child process to create: the file that replaces its image, its
/// arguments, the file first among them, and its environment.
#[derive(Debug)]
pub struct Launch {
    pub path: String,
    pub argv: Vec<String>,
    pub envp: Vec<String>,
}

/// What a `Launch` holds, as plain sequences of characters.
pub struct LaunchView {
    pub path: Seq<char>,
    pub argv: Seq<Seq<char>>,
    pub envp: Seq<Seq<char>>,
}

impl View for Launch {
    type V = LaunchView;

    open spec fn view(&self) -> LaunchView {
        LaunchView { path: self.path@, argv: texts(self.argv@), envp: texts(self.envp@) }
    }
}

/// What is left to do for a line once the engine has decided.
#[derive(Debug)]
pub enum Step {
    /// Nothing: the line is done.
    Done,
    /// Print this text; the line is done.
    Report(String),
    /// End the process with this status.
    Terminate(i32),
    /// Change the working directory to this path, then call
    /// `directory_changed`.
    ChangeDir(String),
    /// Create this child process, call `child_forked`, wait for the child,
    /// then call `child_waited`.
    Launch(Launch),
}

/// What a `Step` holds, as plain values.
pub enum StepView {
    Done,
    Report(Seq<char>),
    Terminate(i32),
    ChangeDir(Seq<char>),
    Launch(LaunchView),
}

impl View for Step {
    type V = StepView;

    open spec fn view(&self) -> StepView {
        match self {
            Step::Done => StepView::Done,
            Step::Report(text) => StepView::Report(text@),
            Step::Terminate(status) => StepView::Terminate(*status),
            Step::ChangeDir(path) => StepView::ChangeDir(path@),
            Step::Launch(launch) => StepView::Launch(launch@),
        }
    }
}

/// The entry `NAME=VALUE` that hands the inherited variable `name` on to a
/// child; or why it cannot be handed on.
pub open spec fn forwarded_entry(inherited: Map<Seq<char>, Seq<char>>, name: Seq<char>) -> Result<
    Seq<char>,
    CmdFailure,
> {
    if !inherited.contains_key(name) {
        Err(CmdFailure::VarError)
    } else {
        let entry = name + seq!['='] + inherited[name];
        match nul_at(entry) {
            Some(at) => Err(CmdFailure::NulError(at)),
            None => Ok(entry),
        }
    }
}

/// The environment of a child: the assignments of the line, then the
/// inherited search path, then the inherited terminal type.
pub open spec fn forwarded(inherited: Map<Seq<char>, Seq<char>>, env: Seq<Seq<char>>) -> Result<
    Seq<Seq<char>>,
    CmdFailure,
> {
    match forwarded_entry(inherited, "PATH"@) {
        Err(failure) => Err(failure),
        Ok(path) => match forwarded_entry(inherited, "TERM"@) {
            Err(failure) => Err(failure),
            Ok(term) => Ok(env.push(path).push(term)),
        },
    }
}

fn forward_entry(store: &VarStore, name: &str) -> (r: Result<String, CmdError>)
    ensures
        match forwarded_entry(store.inherited(), name@) {
            Ok(entry) => r is Ok && r->Ok_0@ == entry,
            Err(failure) => r is Err && r->Err_0@ == failure,
        },
{
    match store.inherited_var(name) {
        None => Err(CmdError::VarError),
        Some(value) => {
            proof {
                reveal_strlit("=");
                assert("="@ =~= seq!['=']);
            }
            let entry = String::from_str(name).concat("=").concat(value.as_str());
            match find_nul(entry.as_str()) {
                Some(at) => Err(CmdError::NulError(at)),
                None => Ok(entry),
            }
        },
    }
}

/// Adds to `env` what every child inherits: the search path and the
/// terminal type.
pub fn forward_env(store: &VarStore, env: Vec<String>) -> (r: Result<Vec<String>, CmdError>)
    ensures
        match forwarded(store.inherited(), texts(env@)) {
            Ok(all) => r is Ok && texts(r->Ok_0@) == all,
            Err(failure) => r is Err && r->Err_0@ == failure,
        },
{
    let mut env = env;
    let ghost before = texts(env@);
    let path = forward_entry(store, "PATH")?;
    let term = forward_entry(store, "TERM")?;
    env.push(path);
    env.push(term);
    assert(texts(env@) =~= before.push(path@).push(term@));
    Ok(env)
}

/// The child process that runs `path` on `args` with the environment `env`.
pub open spec fn launch_spec(path: Seq<char>, args: Seq<Seq<char>>, env: Seq<Seq<char>>) -> Result<
    LaunchView,
    CmdFailure,
> {
    match nul_at(path) {
        Some(at) => Err(CmdFailure::NulError(at)),
        None => Ok(LaunchView { path, argv: seq![path] + args, envp: env }),
    }
}

/// Prepares the child process that runs the file `path`: its arguments are
/// the path, then `args`; its environment is `env`.
pub fn execute_cmd(path: &str, args: &[String], env: &[String]) -> (r: Result<Launch, CmdError>)
    ensures
        match launch_spec(path@, texts(args@), texts(env@)) {
            Ok(launch) => r is Ok && r->Ok_0@ == launch,
            Err(failure) => r is Err && r->Err_0@ == failure,
        },
{
    if let Some(at) = find_nul(path) {
        return Err(CmdError::NulError(at));
    }
    let mut argv: Vec<String> = Vec::new();
    argv.push(String::from_str(path));
    let mut i: usize = 0;
    while i < args.len()
        invariant
            i <= args@.len(),
            texts(argv@) == seq![path@] + texts(args@).take(i as int),
        decreases args@.len() - i,
    {
        let ghost before = texts(argv@);
        argv.push(args[i].clone());
        assert(texts(argv@) =~= before.push(args@[i as int]@));
        assert(texts(args@).take(i + 1) =~= texts(args@).take(i as int).push(args@[i as int]@));
        i += 1;
    }
    assert(texts(args@).take(args@.len() as int) =~= texts(args@));
    let mut envp: Vec<String> = Vec::new();
    let mut k: usize = 0;
    while k < env.len()
        invariant
            k <= env@.len(),
            texts(envp@) == texts(env@).take(k as int),
        decreases env@.len() - k,
    {
        let ghost before = texts(envp@);
        envp.push(env[k].clone());
        assert(texts(envp@) =~= before.push(env@[k as int]@));
        assert(texts(env@).take(k + 1) =~= texts(env@).take(k as int).push(env@[k as int]@));
        k += 1;
    }
    assert(texts(env@).take(env@.len() as int) =~= texts(env@));
    Ok(Launch { path: String::from_str(path), argv, envp })
}

/// Takes what creating the child process returned: a negative number says
/// that no child was created, any other is the child to wait for.
pub fn child_forked(pid: i32) -> (r: Result<i32, CmdError>)
    ensures
        pid < 0 ==> r is Err && r->Err_0@ == CmdFailure::ForkError,
        pid >= 0 ==> r == Ok::<i32, CmdError>(pid),
{
    if pid < 0 {
        Err(CmdError::ForkError)
    } else {
        Ok(pid)
    }
}

/// Takes the raw wait status of the child and records the status that it
/// decodes to.
pub fn child_waited(store: &mut VarStore, raw: i32)
    ensures
        final(store)@ == old(store)@.insert(status_name(), decimal(decode_spec(raw) as int)),
        final(store).inherited() == old(store).inherited(),
        final(store).wf(),
        final(store).status() == decode_spec(raw),
{
    set_exit_status(store, decode_status(raw));
}

/// Takes the result of changing the working directory to `path`, where a
/// negative number says that it failed, and records the status of `cd`.
/// Gives the text to print if the change failed.
pub fn directory_changed(store: &mut VarStore, path: &str, result: i32) -> (diagnostic: Option<
    String,
>)
    ensures
        final(store).inherited() == old(store).inherited(),
        final(store).wf(),
        result < 0 ==> final(store).status() == 1 && final(store)@ == old(store)@.insert(
            status_name(),
            decimal(1),
        ) && diagnostic is Some && diagnostic.unwrap()@ == crate::build_in::cd_diagnostic(path@),
        result >= 0 ==> final(store).status() == 0 && final(store)@ == old(store)@.insert(
            status_name(),
            decimal(0),
        ) && diagnostic is None,
{
    let (status, diagnostic) = Cd::finish(path, result);
    set_exit_status(store, status);
    diagnostic
}

/// What running a command comes to: what is left to do or why it failed,
/// and the status to record, if one is to be recorded now.
pub struct Outcome {
    pub result: Result<StepView, CmdFailure>,
    pub status: Option<i32>,
}

/// What running `cmd` comes to, once its name is resolved to `dep`.
///
/// A name that resolves to nothing fails with status 127. Otherwise the
/// environment of a child is put together, for a built-in too. A file is
/// to be launched. A built-in is asked what it wants: a failure is recorded
/// as its status and its text left to the host to print, and so are the end
/// of the process and a change of directory.
pub open spec fn dispatch_spec(
    status: i32,
    inherited: Map<Seq<char>, Seq<char>>,
    cmd: CmdView,
    dep: Option<DepView>,
) -> Outcome {
    match dep {
        None => Outcome {
            result: Err(CmdFailure::CommandNotFound(cmd.command)),
            status: Some(POSIX_NOT_FOUND),
        },
        Some(dep) => match forwarded(inherited, cmd.env) {
            Err(failure) => Outcome { result: Err(failure), status: None },
            Ok(env) => match dep {
                DepView::Path(path) => match launch_spec(path, cmd.args, env) {
                    Ok(launch) => Outcome { result: Ok(StepView::Launch(launch)), status: None },
                    Err(failure) => Outcome { result: Err(failure), status: None },
                },
                DepView::BuildIn(handle) => match handle.request(status, inherited, cmd.args) {
                    Err(failure) => Outcome {
                        result: Err(CmdFailure::BuildInError(failure)),
                        status: None,
                    },
                    Ok(RequestView::Report(code, text)) => Outcome {
                        result: Ok(StepView::Report(text)),
                        status: Some(code),
                    },
                    Ok(RequestView::Terminate(code)) => Outcome {
                        result: Ok(StepView::Terminate(code)),
                        status: None,
                    },
                    Ok(RequestView::ChangeDir(path)) => Outcome {
                        result: Ok(StepView::ChangeDir(path)),
                        status: None,
                    },
                },
            },
        },
    }
}

/// The view of what the engine returned.
pub open spec fn result_view(r: Result<Step, CmdError>) -> Result<StepView, CmdFailure> {
    match r {
        Ok(step) => Ok(step@),
        Err(failure) => Err(failure@),
    }
}

/// The variables after `status` is recorded, if there is one to record.
pub open spec fn recorded(vars: Map<Seq<char>, Seq<char>>, status: Option<i32>) -> Map<
    Seq<char>,
    Seq<char>,
> {
    match status {
        Some(status) => vars.insert(status_name(), decimal(status as int)),
        None => vars,
    }
}

/// Runs a command whose name is resolved to `dep`, as far as the engine can.
pub fn dispatch(store: &mut VarStore, cmd: Cmd, dep: Option<Dep>) -> (r: Result<Step, CmdError>)
    requires
        old(store).wf(),
    ensures
        result_view(r) == dispatch_spec(
            old(store).status(),
            old(store).inherited(),
            cmd@,
            dep_view(dep),
        ).result,
        final(store)@ == recorded(
            old(store)@,
            dispatch_spec(old(store).status(), old(store).inherited(), cmd@, dep_view(dep)).status,
        ),
        final(store).inherited() == old(store).inherited(),
        final(store).wf(),
{
    let Cmd { command, args, env } = cmd;
    let dep = match dep {
        Some(dep) => dep,
        None => {
            set_exit_status(store, POSIX_NOT_FOUND);
            return Err(CmdError::CommandNotFound(command));
        },
    };
    let env = match forward_env(store, env) {
        Ok(env) => env,
        Err(failure) => {
            return Err(failure);
        },
    };
    match dep {
        Dep::Path(path) => match execute_cmd(path.as_str(), args.as_slice(), env.as_slice()) {
            Ok(launch) => Ok(Step::Launch(launch)),
            Err(failure) => Err(failure),
        },
        Dep::BuildIn(handle) => match handle.run(store, args.as_slice(), env.as_slice()) {
            Err(failure) => Err(CmdError::BuildInError(failure)),
            Ok(Request::Report(code, text)) => {
                set_exit_status(store, code);
                Ok(Step::Report(text))
            },
            Ok(Request::Terminate(code)) => Ok(Step::Terminate(code)),
            Ok(Request::ChangeDir(path)) => Ok(Step::ChangeDir(path)),
        },
    }
}

/// What running a line comes to: what is left to do or why it failed, and
/// the variables of the shell afterwards.
pub struct Ran {
    pub result: Result<StepView, CmdFailure>,
    pub vars: Map<Seq<char>, Seq<char>>,
}

/// What running `line` comes to when the file system gives `answers` on the
/// files along the search path.
///
/// A line that is no command fails and changes nothing. A line without a
/// command name applies its assignments and leaves the status alone. Any
/// other line is resolved and dispatched.
pub open spec fn run_spec(
    line: Seq<char>,
    vars: Map<Seq<char>, Seq<char>>,
    inherited: Map<Seq<char>, Seq<char>>,
    answers: Seq<bool>,
) -> Ran {
    match parse_spec(line, vars, inherited) {
        Err(failure) => Ran { result: Err(CmdFailure::ParserError(failure)), vars },
        Ok(cmd) => if cmd.command.len() == 0 {
            Ran { result: Ok(StepView::Done), vars: assign_all(vars, cmd.env) }
        } else {
            let path = if inherited.contains_key("PATH"@) {
                Some(inherited["PATH"@])
            } else {
                None
            };
            let outcome = dispatch_spec(
                status_of(vars),
                inherited,
                cmd,
                resolve_spec(cmd.command, path, answers),
            );
            Ran { result: outcome.result, vars: recorded(vars, outcome.status) }
        },
    }
}

/// Runs one line, as far as the engine can, and says what is left to do.
/// The file system is asked at the time of the call which files along the
/// search path exist; the result is what `run_spec` gives for its answers.
pub fn run_expr(store: &mut VarStore, expr: &str) -> (r: Result<Step, CmdError>)
    requires
        old(store).wf(),
    ensures
        final(store).inherited() == old(store).inherited(),
        final(store).wf(),
        exists|answers: Seq<bool>|
            {
                let ran = #[trigger] run_spec(expr@, old(store)@, old(store).inherited(), answers);
                result_view(r) == ran.result && final(store)@ == ran.vars
            },
{
    let ghost none = Seq::<bool>::empty();
    let cmd = match parse(store, expr) {
        Ok(cmd) => cmd,
        Err(failure) => {
            assert(run_spec(expr@, store@, store.inherited(), none).vars == store@);
            return Err(CmdError::ParserError(failure));
        },
    };
    if cmd.command.as_str().is_empty() {
        proof {
            lemma_parsed_assignments(expr@, store@, store.inherited());
            assert(forall|i: int|
                0 <= i < cmd.env@.len() ==> cmd@.env[i] == (#[trigger] cmd.env@[i])@);
        }
        let applied = manage_local_vars(store, cmd.env.as_slice());
        assert(run_spec(expr@, old(store)@, store.inherited(), none).vars == store@);
        return match applied {
            Ok(()) => Ok(Step::Done),
            Err(failure) => Err(CmdError::EnvError(failure)),
        };
    }
    let dep = resolve_dep(store, cmd.command.as_str());
    let ghost answers = choose|answers: Seq<bool>|
        dep_view(dep) == #[trigger] resolve_spec(
            cmd.command@,
            store.env_var("PATH"@),
            answers,
        );
    let r = dispatch(store, cmd, dep);
    assert(run_spec(expr@, old(store)@, store.inherited(), answers).result == result_view(r));
    r
}

/// Running an empty line, or one of nothing but white space, leaves
/// nothing to do and changes no variable, the status among them.
pub proof fn lemma_blank_line_runs_nothing(
    line: Seq<char>,
    vars: Map<Seq<char>, Seq<char>>,
    inherited: Map<Seq<char>, Seq<char>>,
    answers: Seq<bool>,
)
    requires
        forall|i: int| 0 <= i < line.len() ==> is_space(#[trigger] line[i]),
    ensures
        run_spec(line, vars, inherited, answers).result == Ok::<StepView, CmdFailure>(
            StepView::Done,
        ),
        run_spec(line, vars, inherited, answers).vars == vars,
{
    lemma_parse_blank(line, vars, inherited);
}

/// A name that is no built-in resolves to nothing if none of the files
/// along the search path exists, whatever the path is.
pub proof fn lemma_unknown_resolves_to_nothing(
    name: Seq<char>,
    path: Option<Seq<char>>,
    answers: Seq<bool>,
)
    requires
        builtin_of(name) is None,
        forall|i: int| 0 <= i < answers.len() ==> !#[trigger] answers[i],
    ensures
        resolve_spec(name, path, answers) is None,
{
    lemma_first_yes(answers, 0);
}

/// Running a command whose name resolves to nothing fails with "command
/// not found" and records the status 127.
pub proof fn lemma_unknown_command_fails(
    line: Seq<char>,
    vars: Map<Seq<char>, Seq<char>>,
    inherited: Map<Seq<char>, Seq<char>>,
    answers: Seq<bool>,
)
    requires
        parse_spec(line, vars, inherited) is Ok,
        parse_spec(line, vars, inherited)->Ok_0.command.len() > 0,
        builtin_of(parse_spec(line, vars, inherited)->Ok_0.command) is None,
        forall|i: int| 0 <= i < answers.len() ==> !#[trigger] answers[i],
    ensures
        run_spec(line, vars, inherited, answers).result == Err::<StepView, CmdFailure>(
            CmdFailure::CommandNotFound(parse_spec(line, vars, inherited)->Ok_0.command),
        ),
        run_spec(line, vars, inherited, answers).vars == vars.insert(status_name(), decimal(127)),
{
    let name = parse_spec(line, vars, inherited)->Ok_0.command;
    let path = if inherited.contains_key("PATH"@) {
        Some(inherited["PATH"@])
    } else {
        None
    };
    lemma_unknown_resolves_to_nothing(name, path, answers);
}

/// Running a line without a command name leaves nothing to do and leaves
/// the status variable as it is.
pub proof fn lemma_assignment_line_keeps_status(
    line: Seq<char>,
    vars: Map<Seq<char>, Seq<char>>,
    inherited: Map<Seq<char>, Seq<char>>,
    answers: Seq<bool>,
)
    requires
        parse_spec(line, vars, inherited) is Ok,
        parse_spec(line, vars, inherited)->Ok_0.command.len() == 0,
    ensures
        run_spec(line, vars, inherited, answers).result == Ok::<StepView, CmdFailure>(
            StepView::Done,
        ),
        run_spec(line, vars, inherited, answers).vars.contains_key(status_name())
            == vars.contains_key(status_name()),
        run_spec(line, vars, inherited, answers).vars[status_name()] == vars[status_name()],
{
    lemma_parsed_assignments(line, vars, inherited);
    lemma_assignments_keep_status(vars, parse_spec(line, vars, inherited)->Ok_0.env);
}

} // verus!
