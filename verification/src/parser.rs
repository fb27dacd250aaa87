//! The items of a command line and the structured command they fold into.

use vstd::prelude::*;
use vstd::string::StringExecFns;

use crate::env::{is_assignment, is_status_name, lookup, name_of, status_name, value_of, var, VarStore};
use crate::grammar::{
    is_space, lemma_blank_line, lemma_program_names, location, plain_name, program, program_spec,
    LineCol,
};
use crate::text::{find_nul, first_at, lemma_first_at_is, nul_at, texts};

verus! {

/// One lexical item of a command line.
#[derive(Debug, Clone)]
pub enum Item {
    /// A bare word.
    Iden(String),
    /// The inside of a quoted string.
    Str(String),
    /// A dotted path, `./` included.
    Command(String),
    /// The name behind a `$`.
    Var(String),
    /// Name and value of `name=value`.
    VarAssign(String, String),
}

/// What an `Item` holds, as plain sequences of characters.
pub enum ItemView {
    Iden(Seq<char>),
    Str(Seq<char>),
    Command(Seq<char>),
    Var(Seq<char>),
    VarAssign(Seq<char>, Seq<char>),
}

impl View for Item {
    type V = ItemView;

    open spec fn view(&self) -> ItemView {
        match self {
            Item::Iden(s) => ItemView::Iden(s@),
            Item::Str(s) => ItemView::Str(s@),
            Item::Command(s) => ItemView::Command(s@),
            Item::Var(s) => ItemView::Var(s@),
            Item::VarAssign(name, value) => ItemView::VarAssign(name@, value@),
        }
    }
}

/// The views of a sequence of items.
pub open spec fn item_views(items: Seq<Item>) -> Seq<ItemView> {
    Seq::new(items.len(), |i: int| items[i]@)
}

/// The items of one line, in the order in which they were written.
#[derive(Debug)]
pub struct RawProgram(pub Vec<Item>);

impl View for RawProgram {
    type V = Seq<ItemView>;

    open spec fn view(&self) -> Seq<ItemView> {
        item_views(self.0@)
    }
}

/// The two sides of an assignment.
#[derive(Debug, Clone)]
pub struct EnvInfo {
    pub var: String,
    pub val: String,
}

/// A structured command: its name, its arguments and the assignments that
/// stand before the name, each as `NAME=VALUE`. An empty name says that the
/// line holds assignments only.
#[derive(Debug, Clone)]
pub struct Cmd {
    pub command: String,
    pub args: Vec<String>,
    pub env: Vec<String>,
}

/// What a `Cmd` holds, as plain sequences of characters.
pub struct CmdView {
    pub command: Seq<char>,
    pub args: Seq<Seq<char>>,
    pub env: Seq<Seq<char>>,
}

impl View for Cmd {
    type V = CmdView;

    open spec fn view(&self) -> CmdView {
        CmdView { command: self.command@, args: texts(self.args@), env: texts(self.env@) }
    }
}

impl CmdView {
    /// No text of the command holds a NUL character.
    pub open spec fn wf(self) -> bool {
        &&& !self.command.contains('\0')
        &&& forall|i: int| 0 <= i < self.args.len() ==> !(#[trigger] self.args[i]).contains('\0')
        &&& forall|i: int| 0 <= i < self.env.len() ==> !(#[trigger] self.env[i]).contains('\0')
    }
}

/// What one item adds to a command.
#[derive(Debug)]
pub enum CmdExpr {
    /// The name of the command.
    Command(String),
    /// An assignment that stands before the name.
    Env(EnvInfo),
    /// An argument.
    Arg(String),
}

/// What a `CmdExpr` holds, as plain sequences of characters.
pub enum CmdExprView {
    Command(Seq<char>),
    Env(Seq<char>, Seq<char>),
    Arg(Seq<char>),
}

impl View for CmdExpr {
    type V = CmdExprView;

    open spec fn view(&self) -> CmdExprView {
        match self {
            CmdExpr::Command(text) => CmdExprView::Command(text@),
            CmdExpr::Env(info) => CmdExprView::Env(info.var@, info.val@),
            CmdExpr::Arg(text) => CmdExprView::Arg(text@),
        }
    }
}

/// Why a line is not a command.
#[derive(Debug)]
pub enum ParserError {
    /// The grammar does not accept the line; the place where reading halted.
    ParseError(LineCol),
    /// An assignment names the status variable; the name.
    NoMatches(String),
    /// A text holds a NUL character; the place of the first one in the text.
    NulError(usize),
}

/// What a `ParserError` holds, as plain values.
pub enum ParseFailure {
    ParseError(LineCol),
    NoMatches(Seq<char>),
    NulError(usize),
}

impl View for ParserError {
    type V = ParseFailure;

    open spec fn view(&self) -> ParseFailure {
        match self {
            ParserError::ParseError(place) => ParseFailure::ParseError(*place),
            ParserError::NoMatches(name) => ParseFailure::NoMatches(name@),
            ParserError::NulError(at) => ParseFailure::NulError(*at),
        }
    }
}

/// `text`, or the failure that a NUL character in it gives.
pub open spec fn checked(text: Seq<char>) -> Result<Seq<char>, ParseFailure> {
    match nul_at(text) {
        Some(at) => Err(ParseFailure::NulError(at)),
        None => Ok(text),
    }
}

/// Lets a text through that holds no NUL character.
pub fn check_nul(text: String) -> (r: Result<String, ParserError>)
    ensures
        match checked(text@) {
            Ok(same) => r is Ok && r->Ok_0@ == same,
            Err(failure) => r is Err && r->Err_0@ == failure,
        },
{
    match find_nul(text.as_str()) {
        Some(at) => Err(ParserError::NulError(at)),
        None => Ok(text),
    }
}

/// The text that a name resolves to: its value, or nothing where it has none.
pub open spec fn resolved(
    local: Map<Seq<char>, Seq<char>>,
    inherited: Map<Seq<char>, Seq<char>>,
    name: Seq<char>,
) -> Seq<char> {
    match lookup(local, inherited, name) {
        Some(value) => value,
        None => Seq::empty(),
    }
}

/// What `item` adds to a command whose name is fixed already, or not yet.
/// The first item that is no assignment gives the name; what follows it are
/// arguments, and an assignment behind the name adds nothing.
pub open spec fn classify_spec(
    item: ItemView,
    fixed: bool,
    local: Map<Seq<char>, Seq<char>>,
    inherited: Map<Seq<char>, Seq<char>>,
) -> Result<Option<CmdExprView>, ParseFailure> {
    match item {
        ItemView::VarAssign(name, value) => {
            if fixed {
                Ok(None)
            } else if name == status_name() {
                Err(ParseFailure::NoMatches(name))
            } else {
                match checked(name + seq!['='] + value) {
                    Ok(_) => Ok(Some(CmdExprView::Env(name, value))),
                    Err(failure) => Err(failure),
                }
            }
        },
        ItemView::Var(name) => word_spec(resolved(local, inherited, name), fixed),
        ItemView::Iden(text) => word_spec(text, fixed),
        ItemView::Str(text) => word_spec(text, fixed),
        ItemView::Command(text) => word_spec(text, fixed),
    }
}

/// A text that is no assignment: the name of the command, or an argument.
pub open spec fn word_spec(text: Seq<char>, fixed: bool) -> Result<
    Option<CmdExprView>,
    ParseFailure,
> {
    match checked(text) {
        Ok(_) => Ok(Some(if fixed { CmdExprView::Arg(text) } else { CmdExprView::Command(text) })),
        Err(failure) => Err(failure),
    }
}

fn word(text: String, fixed: bool) -> (r: Result<Option<CmdExpr>, ParserError>)
    ensures
        match word_spec(text@, fixed) {
            Ok(expr) => r is Ok && r->Ok_0 is Some && Some(r->Ok_0.unwrap()@) == expr,
            Err(failure) => r is Err && r->Err_0@ == failure,
        },
{
    match check_nul(text) {
        Ok(text) => if fixed {
            Ok(Some(CmdExpr::Arg(text)))
        } else {
            Ok(Some(CmdExpr::Command(text)))
        },
        Err(failure) => Err(failure),
    }
}

/// Says what `item` adds to a command, given whether the name of the command
/// is fixed already. A reference to a variable is resolved here.
pub fn classify(store: &VarStore, item: &Item, fixed: bool) -> (r: Result<
    Option<CmdExpr>,
    ParserError,
>)
    ensures
        match classify_spec(item@, fixed, store@, store.inherited()) {
            Ok(None) => r is Ok && r->Ok_0 is None,
            Ok(Some(expr)) => r is Ok && r->Ok_0 is Some && r->Ok_0.unwrap()@ == expr,
            Err(failure) => r is Err && r->Err_0@ == failure,
        },
{
    match item {
        Item::VarAssign(name, value) => {
            if fixed {
                return Ok(None);
            }
            if is_status_name(name.as_str()) {
                return Err(ParserError::NoMatches(name.clone()));
            }
            proof {
                reveal_strlit("=");
                assert("="@ =~= seq!['=']);
            }
            let entry = name.clone().concat("=").concat(value.as_str());
            match check_nul(entry) {
                Ok(_) => Ok(Some(CmdExpr::Env(EnvInfo { var: name.clone(), val: value.clone() }))),
                Err(failure) => Err(failure),
            }
        },
        Item::Var(name) => {
            let text = match var(store, name.as_str()) {
                Some(value) => value,
                None => String::new(),
            };
            word(text, fixed)
        },
        Item::Iden(text) => word(text.clone(), fixed),
        Item::Str(text) => word(text.clone(), fixed),
        Item::Command(text) => word(text.clone(), fixed),
    }
}

/// A command in the making: what the items read so far have given, and
/// whether one of them has fixed the name.
pub struct Folded {
    pub fixed: bool,
    pub cmd: CmdView,
}

/// The command before any item is read.
pub open spec fn empty_cmd() -> CmdView {
    CmdView { command: Seq::empty(), args: Seq::empty(), env: Seq::empty() }
}

/// The entry `NAME=VALUE` of an assignment.
pub open spec fn entry_of(name: Seq<char>, value: Seq<char>) -> Seq<char> {
    name + seq!['='] + value
}

/// The command after `expr` is added to it.
pub open spec fn apply_spec(state: Folded, expr: CmdExprView) -> Folded {
    match expr {
        CmdExprView::Command(text) => Folded {
            fixed: true,
            cmd: CmdView { command: text, args: state.cmd.args, env: state.cmd.env },
        },
        CmdExprView::Env(name, value) => Folded {
            fixed: state.fixed,
            cmd: CmdView {
                command: state.cmd.command,
                args: state.cmd.args,
                env: state.cmd.env.push(entry_of(name, value)),
            },
        },
        CmdExprView::Arg(text) => Folded {
            fixed: state.fixed,
            cmd: CmdView {
                command: state.cmd.command,
                args: state.cmd.args.push(text),
                env: state.cmd.env,
            },
        },
    }
}

/// The command after one more item is read.
pub open spec fn fold_step(
    state: Folded,
    item: ItemView,
    local: Map<Seq<char>, Seq<char>>,
    inherited: Map<Seq<char>, Seq<char>>,
) -> Result<Folded, ParseFailure> {
    match classify_spec(item, state.fixed, local, inherited) {
        Ok(Some(expr)) => Ok(apply_spec(state, expr)),
        Ok(None) => Ok(state),
        Err(failure) => Err(failure),
    }
}

/// The command that `items` fold into, read from left to right; or the
/// failure of the first item that fails.
pub open spec fn fold_spec(
    items: Seq<ItemView>,
    local: Map<Seq<char>, Seq<char>>,
    inherited: Map<Seq<char>, Seq<char>>,
) -> Result<Folded, ParseFailure>
    decreases items.len(),
{
    if items.len() == 0 {
        Ok(Folded { fixed: false, cmd: empty_cmd() })
    } else {
        match fold_spec(items.drop_last(), local, inherited) {
            Ok(state) => fold_step(state, items.last(), local, inherited),
            Err(failure) => Err(failure),
        }
    }
}

/// The command that a line stands for, given the variables of the shell.
pub open spec fn parse_spec(
    line: Seq<char>,
    local: Map<Seq<char>, Seq<char>>,
    inherited: Map<Seq<char>, Seq<char>>,
) -> Result<CmdView, ParseFailure> {
    match program_spec(line) {
        Err(at) => Err(ParseFailure::ParseError(location(line, at))),
        Ok(items) => match fold_spec(items, local, inherited) {
            Ok(state) => Ok(state.cmd),
            Err(failure) => Err(failure),
        },
    }
}

/// Folds the items of a line into a command.
pub fn fold(store: &VarStore, items: &RawProgram) -> (r: Result<Cmd, ParserError>)
    ensures
        match fold_spec(items@, store@, store.inherited()) {
            Ok(state) => r is Ok && r->Ok_0@ == state.cmd,
            Err(failure) => r is Err && r->Err_0@ == failure,
        },
        r is Ok ==> r->Ok_0@.wf(),
{
    let mut cmd = Cmd { command: String::new(), args: Vec::new(), env: Vec::new() };
    let mut fixed: bool = false;
    let n: usize = items.0.len();
    let mut i: usize = 0;
    assert(items@.take(0) =~= Seq::<ItemView>::empty());
    assert(cmd@.args =~= Seq::<Seq<char>>::empty());
    assert(cmd@.env =~= Seq::<Seq<char>>::empty());
    while i < n
        invariant
            i <= n,
            n == items.0@.len(),
            fold_spec(items@.take(i as int), store@, store.inherited()) == Ok::<
                Folded,
                ParseFailure,
            >(Folded { fixed, cmd: cmd@ }),
            cmd@.wf(),
        decreases n - i,
    {
        proof {
            assert(items@.take(i + 1).drop_last() =~= items@.take(i as int));
            assert(items@.take(i + 1).last() == items.0@[i as int]@);
        }
        let ghost before = cmd@;
        match classify(store, &items.0[i], fixed) {
            Err(failure) => {
                proof {
                    lemma_fold_fails(items@, i + 1, store@, store.inherited());
                }
                return Err(failure);
            },
            Ok(None) => {},
            Ok(Some(CmdExpr::Command(text))) => {
                cmd.command = text;
                fixed = true;
            },
            Ok(Some(CmdExpr::Env(info))) => {
                proof {
                    reveal_strlit("=");
                    assert("="@ =~= seq!['=']);
                }
                let entry = info.var.concat("=").concat(info.val.as_str());
                cmd.env.push(entry);
                assert(cmd@.env =~= before.env.push(entry@));
            },
            Ok(Some(CmdExpr::Arg(text))) => {
                cmd.args.push(text);
                assert(cmd@.args =~= before.args.push(text@));
            },
        }
        i += 1;
    }
    assert(items@.take(n as int) =~= items@);
    Ok(cmd)
}

/// Once a prefix of the items has failed, so has the whole line, in the same way.
pub proof fn lemma_fold_fails(
    items: Seq<ItemView>,
    k: int,
    local: Map<Seq<char>, Seq<char>>,
    inherited: Map<Seq<char>, Seq<char>>,
)
    requires
        0 <= k <= items.len(),
        fold_spec(items.take(k), local, inherited) is Err,
    ensures
        fold_spec(items, local, inherited) == fold_spec(items.take(k), local, inherited),
    decreases items.len(),
{
    if k == items.len() {
        assert(items.take(k) =~= items);
    } else {
        assert(items.drop_last().take(k) =~= items.take(k));
        lemma_fold_fails(items.drop_last(), k, local, inherited);
    }
}

/// Reads a line as a command: splits it into items and folds them, resolving
/// references to variables against `store`.
pub fn parse(store: &VarStore, cmd: &str) -> (r: Result<Cmd, ParserError>)
    ensures
        match parse_spec(cmd@, store@, store.inherited()) {
            Ok(command) => r is Ok && r->Ok_0@ == command,
            Err(failure) => r is Err && r->Err_0@ == failure,
        },
        r is Ok ==> r->Ok_0@.wf(),
{
    match program(cmd) {
        Err(place) => Err(ParserError::ParseError(place)),
        Ok(items) => fold(store, &items),
    }
}

/// A line of nothing but white space, the empty line among them, is the
/// command without name, arguments and assignments.
pub proof fn lemma_parse_blank(
    line: Seq<char>,
    local: Map<Seq<char>, Seq<char>>,
    inherited: Map<Seq<char>, Seq<char>>,
)
    requires
        forall|i: int| 0 <= i < line.len() ==> is_space(#[trigger] line[i]),
    ensures
        parse_spec(line, local, inherited) == Ok::<CmdView, ParseFailure>(empty_cmd()),
{
    lemma_blank_line(line);
}

/// An entry splits back into the name and the value that it was made of,
/// if the name holds no `=`.
pub proof fn lemma_entry_splits(name: Seq<char>, value: Seq<char>)
    requires
        !name.contains('='),
    ensures
        first_at(entry_of(name, value), 0, '=') == name.len(),
        name_of(entry_of(name, value)) == name,
        value_of(entry_of(name, value)) == value,
{
    let entry = entry_of(name, value);
    assert forall|j: int| 0 <= j < name.len() implies #[trigger] entry[j] != '=' by {
        assert(entry[j] == name[j]);
        assert(name.contains(name[j]));
    }
    assert(entry[name.len() as int] == '=');
    lemma_first_at_is(entry, 0, name.len() as int, '=');
    assert(name_of(entry) =~= name);
    assert(value_of(entry) =~= value);
}

/// Every assignment that folding keeps can be applied to the variables, if
/// the names in the items hold no `=`.
pub proof fn lemma_fold_assignments(
    items: Seq<ItemView>,
    local: Map<Seq<char>, Seq<char>>,
    inherited: Map<Seq<char>, Seq<char>>,
)
    requires
        forall|i: int| 0 <= i < items.len() ==> plain_name(#[trigger] items[i]),
        fold_spec(items, local, inherited) is Ok,
    ensures
        forall|i: int|
            0 <= i < fold_spec(items, local, inherited)->Ok_0.cmd.env.len() ==> is_assignment(
                #[trigger] fold_spec(items, local, inherited)->Ok_0.cmd.env[i],
            ),
    decreases items.len(),
{
    if items.len() > 0 {
        let front = items.drop_last();
        assert forall|i: int| 0 <= i < front.len() implies plain_name(#[trigger] front[i]) by {
            assert(front[i] == items[i]);
        }
        lemma_fold_assignments(front, local, inherited);
        let state = fold_spec(front, local, inherited)->Ok_0;
        assert(plain_name(items.last()));
        if let ItemView::VarAssign(name, value) = items.last() {
            lemma_entry_splits(name, value);
        }
    }
}

/// Every assignment of a command that a line stands for can be applied to
/// the variables: it holds a `=` and does not name the status variable.
pub proof fn lemma_parsed_assignments(
    line: Seq<char>,
    local: Map<Seq<char>, Seq<char>>,
    inherited: Map<Seq<char>, Seq<char>>,
)
    requires
        parse_spec(line, local, inherited) is Ok,
    ensures
        forall|i: int|
            0 <= i < parse_spec(line, local, inherited)->Ok_0.env.len() ==> is_assignment(
                #[trigger] parse_spec(line, local, inherited)->Ok_0.env[i],
            ),
{
    lemma_program_names(line);
    lemma_fold_assignments(program_spec(line)->Ok_0, local, inherited);
}

} // verus!
