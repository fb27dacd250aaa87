//! The variable store: the shell's own variables, with the reserved status
//! variable among them, and the environment that the process inherited.

use vstd::hash_map::StringHashMap;
use vstd::prelude::*;
use vstd::string::{StrSliceExecFns, StringExecFns};

use crate::build_in::{Cd, Exit, Handle};
use crate::number::{decimal, format_i32, lemma_parse_decimal, parse_i32, parse_i32_spec};
use crate::parser::EnvInfo;
use crate::text::{chars_of, find_char, first_at, lemma_first_at, same_text, texts};

verus! {

/// What can go wrong when variables are assigned.
#[derive(Clone, Copy, Debug, PartialEq, Eq, Structural)]
pub enum EnvError {
    /// The text is no `NAME=VALUE`, or it names the status variable.
    InvalidAssignExpr,
}

/// The name of the variable that holds the status of the last command.
pub open spec fn status_name() -> Seq<char> {
    seq!['?']
}

/// The status that the variables hold.
pub open spec fn status_of(vars: Map<Seq<char>, Seq<char>>) -> i32 {
    parse_i32_spec(vars[status_name()])->Ok_0
}

/// The variables of one shell.
pub struct VarStore {
    local: StringHashMap<String>,
    inherited: StringHashMap<String>,
}

/// A map of strings, read as a map of character sequences.
pub open spec fn map_texts(m: Map<Seq<char>, String>) -> Map<Seq<char>, Seq<char>> {
    Map::new(|k: Seq<char>| m.contains_key(k), |k: Seq<char>| m[k]@)
}

impl View for VarStore {
    type V = Map<Seq<char>, Seq<char>>;

    /// The shell's own variables.
    closed spec fn view(&self) -> Map<Seq<char>, Seq<char>> {
        map_texts(self.local@)
    }
}

/// The value that a name resolves to: the shell's own variable if there is
/// one, else the inherited one.
pub open spec fn lookup(
    local: Map<Seq<char>, Seq<char>>,
    inherited: Map<Seq<char>, Seq<char>>,
    name: Seq<char>,
) -> Option<Seq<char>> {
    if local.contains_key(name) {
        Some(local[name])
    } else if inherited.contains_key(name) {
        Some(inherited[name])
    } else {
        None
    }
}

impl VarStore {
    /// The environment that the process inherited.
    pub closed spec fn inherited(&self) -> Map<Seq<char>, Seq<char>> {
        map_texts(self.inherited@)
    }

    /// The inherited variable `name`, if there is one.
    pub open spec fn env_var(&self, name: Seq<char>) -> Option<Seq<char>> {
        if self.inherited().contains_key(name) {
            Some(self.inherited()[name])
        } else {
            None
        }
    }

    /// The status variable is there and holds an integer.
    pub open spec fn wf(&self) -> bool {
        &&& self@.contains_key(status_name())
        &&& parse_i32_spec(self@[status_name()]) is Ok
    }

    /// The status that the store holds.
    pub open spec fn status(&self) -> i32 {
        status_of(self@)
    }

    /// A store with status 0, no other variable and an empty environment.
    pub fn new() -> (store: VarStore)
        ensures
            store.wf(),
            store@ == Map::<Seq<char>, Seq<char>>::empty().insert(status_name(), decimal(0)),
            store.inherited() == Map::<Seq<char>, Seq<char>>::empty(),
    {
        let mut store = VarStore { local: StringHashMap::new(), inherited: StringHashMap::new() };
        assert(store@ =~= Map::<Seq<char>, Seq<char>>::empty());
        assert(store.inherited() =~= Map::<Seq<char>, Seq<char>>::empty());
        set_exit_status(&mut store, 0);
        store
    }

    /// Whether the status variable is there and holds an integer. It always
    /// is in a store that only this library has worked on.
    pub fn is_well_formed(&self) -> (b: bool)
        ensures
            b == self.wf(),
    {
        proof {
            reveal_strlit("?");
            assert("?"@ =~= status_name());
        }
        match self.local.get("?") {
            Some(text) => parse_i32(text.as_str()).is_ok(),
            None => false,
        }
    }

    /// Records one variable of the inherited environment.
    pub fn inherit(&mut self, name: String, value: String)
        ensures
            final(self)@ == old(self)@,
            final(self).inherited() == old(self).inherited().insert(name@, value@),
    {
        self.inherited.insert(name, value);
        assert(self.inherited() =~= old(self).inherited().insert(name@, value@));
    }

    /// The inherited variable `name`, if there is one.
    pub fn inherited_var(&self, name: &str) -> (value: Option<String>)
        ensures
            value is Some <==> self.env_var(name@) is Some,
            value is Some ==> Some(value.unwrap()@) == self.env_var(name@),
    {
        match self.inherited.get(name) {
            Some(value) => Some(value.clone()),
            None => None,
        }
    }
}

/// The shell's own variable `var`, if there is one.
pub fn get_local_var(store: &VarStore, var: &str) -> (value: Option<String>)
    ensures
        value is Some <==> store@.contains_key(var@),
        value is Some ==> value.unwrap()@ == store@[var@],
{
    match store.local.get(var) {
        Some(value) => Some(value.clone()),
        None => None,
    }
}

/// What `var` resolves to: the shell's own variable first, the inherited
/// environment second.
pub fn var(store: &VarStore, name: &str) -> (value: Option<String>)
    ensures
        value is Some <==> lookup(store@, store.inherited(), name@) is Some,
        value is Some ==> Some(value.unwrap()@) == lookup(store@, store.inherited(), name@),
{
    match get_local_var(store, name) {
        Some(value) => Some(value),
        None => store.inherited_var(name),
    }
}

/// The status of the last command.
pub fn get_status_var(store: &VarStore) -> (status: i32)
    requires
        store.wf(),
    ensures
        status == store.status(),
{
    proof {
        reveal_strlit("?");
        assert("?"@ =~= status_name());
    }
    match store.local.get("?") {
        Some(text) => match parse_i32(text.as_str()) {
            Ok(status) => status,
            Err(_) => vstd::pervasive::unreached(),
        },
        None => vstd::pervasive::unreached(),
    }
}

/// Records the status of a command. Nothing else ever changes the status
/// variable.
pub fn set_exit_status(store: &mut VarStore, status: i32)
    ensures
        final(store)@ == old(store)@.insert(status_name(), decimal(status as int)),
        final(store).inherited() == old(store).inherited(),
        final(store).wf(),
        final(store).status() == status,
{
    proof {
        reveal_strlit("?");
        assert("?"@ =~= status_name());
        lemma_parse_decimal(status);
    }
    store.local.insert(String::from_str("?"), format_i32(status));
    assert(store@ =~= old(store)@.insert(status_name(), decimal(status as int)));
}

/// Whether `name` is the name of the status variable.
pub fn is_status_name(name: &str) -> (b: bool)
    ensures
        b == (name@ == status_name()),
{
    let b = name.unicode_len() == 1 && name.get_char(0) == '?';
    assert(b ==> name@ =~= status_name());
    b
}

/// Sets one of the shell's own variables, whether or not it exists already.
/// The status variable cannot be set this way.
pub fn set_local_var(store: &mut VarStore, var: &str, val: String) -> (r: Result<(), EnvError>)
    ensures
        r is Err <==> var@ == status_name(),
        r is Err ==> *final(store) == *old(store),
        r is Ok ==> final(store)@ == old(store)@.insert(var@, val@),
        final(store).inherited() == old(store).inherited(),
        old(store).wf() ==> final(store).wf(),
{
    if is_status_name(var) {
        return Err(EnvError::InvalidAssignExpr);
    }
    store.local.insert(String::from_str(var), val);
    assert(store@ =~= old(store)@.insert(var@, val@));
    Ok(())
}

/// The name of an assignment `NAME=VALUE`: what stands before the first `=`.
pub open spec fn name_of(entry: Seq<char>) -> Seq<char> {
    entry.take(first_at(entry, 0, '='))
}

/// The value of an assignment `NAME=VALUE`: what stands behind the first `=`.
pub open spec fn value_of(entry: Seq<char>) -> Seq<char> {
    entry.skip(first_at(entry, 0, '=') + 1)
}

/// Whether `entry` can be applied: it holds a `=`, and its name is not that
/// of the status variable.
pub open spec fn is_assignment(entry: Seq<char>) -> bool {
    first_at(entry, 0, '=') < entry.len() && name_of(entry) != status_name()
}

/// The variables after all of `entries` have been assigned, first to last.
pub open spec fn assign_all(vars: Map<Seq<char>, Seq<char>>, entries: Seq<Seq<char>>) -> Map<
    Seq<char>,
    Seq<char>,
>
    decreases entries.len(),
{
    if entries.len() == 0 {
        vars
    } else {
        assign_all(vars, entries.drop_last()).insert(
            name_of(entries.last()),
            value_of(entries.last()),
        )
    }
}

/// Splits `NAME=VALUE` at its first `=`.
pub fn split_assignment(entry: &str) -> (r: Option<EnvInfo>)
    ensures
        r is Some <==> first_at(entry@, 0, '=') < entry@.len(),
        r is Some ==> r.unwrap().var@ == name_of(entry@) && r.unwrap().val@ == value_of(entry@),
{
    let chars = chars_of(entry);
    let at: usize = find_char(&chars, 0, '=');
    if at == chars.len() {
        return None;
    }
    let var = String::from_str(entry.substring_char(0, at));
    let val = String::from_str(entry.substring_char(at + 1, chars.len()));
    Some(EnvInfo { var, val })
}

/// Applies the assignments `vars`, each a `NAME=VALUE`, first to last. If one
/// of them cannot be applied, none is.
pub fn manage_local_vars(store: &mut VarStore, vars: &[String]) -> (r: Result<(), EnvError>)
    ensures
        r is Ok <==> forall|i: int| 0 <= i < vars@.len() ==> is_assignment(#[trigger] vars@[i]@),
        r is Ok ==> final(store)@ == assign_all(old(store)@, texts(vars@)),
        r is Err ==> final(store)@ == old(store)@,
        final(store).inherited() == old(store).inherited(),
        old(store).wf() ==> final(store).wf(),
{
    let n: usize = vars.len();
    let mut pairs: Vec<EnvInfo> = Vec::new();
    let mut i: usize = 0;
    while i < n
        invariant
            i <= n,
            n == vars@.len(),
            pairs@.len() == i,
            forall|j: int| 0 <= j < i ==> is_assignment(#[trigger] vars@[j]@),
            forall|j: int|
                0 <= j < i ==> (#[trigger] pairs@[j]).var@ == name_of(vars@[j]@) && pairs@[j].val@
                    == value_of(vars@[j]@),
        decreases n - i,
    {
        match split_assignment(vars[i].as_str()) {
            None => {
                return Err(EnvError::InvalidAssignExpr);
            },
            Some(pair) => {
                if is_status_name(pair.var.as_str()) {
                    return Err(EnvError::InvalidAssignExpr);
                }
                pairs.push(pair);
            },
        }
        i += 1;
    }
    let ghost entries = texts(vars@);
    let mut k: usize = 0;
    assert(entries.take(0) =~= Seq::<Seq<char>>::empty());
    while k < n
        invariant
            k <= n,
            n == vars@.len(),
            pairs@.len() == n,
            entries == texts(vars@),
            forall|j: int| 0 <= j < n ==> is_assignment(#[trigger] vars@[j]@),
            forall|j: int|
                0 <= j < n ==> (#[trigger] pairs@[j]).var@ == name_of(vars@[j]@) && pairs@[j].val@
                    == value_of(vars@[j]@),
            store@ == assign_all(old(store)@, entries.take(k as int)),
            store.inherited() == old(store).inherited(),
            old(store).wf() ==> store.wf(),
        decreases n - k,
    {
        proof {
            assert(entries.take(k + 1).drop_last() =~= entries.take(k as int));
            assert(entries.take(k + 1).last() == vars@[k as int]@);
            assert(is_assignment(vars@[k as int]@));
        }
        let pair = &pairs[k];
        let applied = set_local_var(store, pair.var.as_str(), pair.val.clone());
        assert(applied is Ok);
        k += 1;
    }
    assert(entries.take(n as int) =~= entries);
    Ok(())
}

/// What a command name resolves to.
#[derive(Debug)]
pub enum Dep {
    /// The file to run.
    Path(String),
    /// The built-in to run.
    BuildIn(Handle),
}

/// What a `Dep` holds, as plain values.
pub enum DepView {
    Path(Seq<char>),
    BuildIn(Handle),
}

impl View for Dep {
    type V = DepView;

    open spec fn view(&self) -> DepView {
        match self {
            Dep::Path(path) => DepView::Path(path@),
            Dep::BuildIn(handle) => DepView::BuildIn(*handle),
        }
    }
}

/// The view of a dependency that may be missing.
pub open spec fn dep_view(dep: Option<Dep>) -> Option<DepView> {
    match dep {
        Some(dep) => Some(dep@),
        None => None,
    }
}

/// The built-in of that name, if there is one.
pub open spec fn builtin_of(name: Seq<char>) -> Option<Handle> {
    if name == "exit"@ {
        Some(Handle::Exit(Exit))
    } else if name == "cd"@ {
        Some(Handle::Cd(Cd))
    } else {
        None
    }
}

/// Looks `name` up in the table of built-ins.
pub fn find_builtin(name: &str) -> (handle: Option<Handle>)
    ensures
        handle == builtin_of(name@),
{
    if same_text(name, "exit") {
        Some(Handle::Exit(Exit))
    } else if same_text(name, "cd") {
        Some(Handle::Cd(Cd))
    } else {
        None
    }
}

/// The pieces of `s` from `from` on, cut at every `c`. A text without `c`
/// is one piece, and so is the empty text.
pub open spec fn split_from(s: Seq<char>, from: int, c: char) -> Seq<Seq<char>>
    decreases s.len() - from,
{
    let at = first_at(s, from, c);
    if 0 <= from <= at < s.len() {
        seq![s.subrange(from, at)] + split_from(s, at + 1, c)
    } else {
        seq![s.subrange(from, s.len() as int)]
    }
}

/// The file that the directory `dir` would hold for the command `name`.
pub open spec fn candidate(dir: Seq<char>, name: Seq<char>) -> Seq<char> {
    dir + seq!['/'] + name
}

/// The files to try for the command `name`, one for each directory of the
/// search path `path`, in the order of the path.
pub open spec fn candidates(path: Seq<char>, name: Seq<char>) -> Seq<Seq<char>> {
    let dirs = split_from(path, 0, ':');
    Seq::new(dirs.len(), |i: int| candidate(dirs[i], name))
}

/// Lists the files to try for the command `name` along the search path `path`.
pub fn search_path(path: &str, name: &str) -> (files: Vec<String>)
    ensures
        texts(files@) == candidates(path@, name@),
{
    let chars = chars_of(path);
    let n: usize = chars.len();
    let mut files: Vec<String> = Vec::new();
    let mut from: usize = 0;
    let ghost dirs = split_from(path@, 0, ':');
    let ghost mut done: Seq<Seq<char>> = Seq::empty();
    proof {
        reveal_strlit("/");
        assert("/"@ =~= seq!['/']);
    }
    loop
        invariant
            chars@ == path@,
            n == chars.len(),
            from <= n,
            "/"@ == seq!['/'],
            dirs == split_from(path@, 0, ':'),
            dirs == done + split_from(path@, from as int, ':'),
            files@.len() == done.len(),
            forall|j: int| 0 <= j < done.len() ==> (#[trigger] files@[j])@ == candidate(
                done[j],
                name@,
            ),
        decreases n - from,
    {
        let at: usize = find_char(&chars, from, ':');
        let dir = path.substring_char(from, at);
        let file = String::from_str(dir).concat("/").concat(name);
        files.push(file);
        proof {
            let rest = if at < n {
                split_from(path@, at + 1, ':')
            } else {
                Seq::<Seq<char>>::empty()
            };
            assert(split_from(path@, from as int, ':') =~= seq![dir@] + rest);
            assert(done + (seq![dir@] + rest) =~= done.push(dir@) + rest);
            done = done.push(dir@);
        }
        if at == n {
            assert(dirs =~= done);
            assert(texts(files@) =~= candidates(path@, name@));
            return files;
        }
        from = at + 1;
    }
}

/// The first place at or after `from` where `answers` says yes; its length
/// if it never does.
pub open spec fn first_yes(answers: Seq<bool>, from: int) -> int
    decreases answers.len() - from,
{
    if 0 <= from < answers.len() && !answers[from] {
        first_yes(answers, from + 1)
    } else if from < answers.len() {
        from
    } else {
        answers.len() as int
    }
}

/// The first of `files` that exists, where `exists` says of each whether it
/// does. A file without an answer counts as missing.
pub open spec fn pick_spec(files: Seq<Seq<char>>, exists: Seq<bool>) -> Option<Seq<char>> {
    let found = first_yes(exists, 0);
    if found < exists.len() && found < files.len() {
        Some(files[found])
    } else {
        None
    }
}

/// What a command name resolves to: a built-in of that name first; else,
/// where there is a search path, the first of its files that exists, where
/// `exists` says of each file to try whether it does.
pub open spec fn resolve_spec(name: Seq<char>, path: Option<Seq<char>>, exists: Seq<bool>) -> Option<
    DepView,
> {
    match builtin_of(name) {
        Some(handle) => Some(DepView::BuildIn(handle)),
        None => match path {
            None => None,
            Some(path) => match pick_spec(candidates(path, name), exists) {
                Some(file) => Some(DepView::Path(file)),
                None => None,
            },
        },
    }
}

/// `first_yes` gives a place at or after `from`.
pub proof fn lemma_first_yes(answers: Seq<bool>, from: int)
    requires
        0 <= from <= answers.len(),
    ensures
        from <= first_yes(answers, from) <= answers.len(),
        first_yes(answers, from) < answers.len() ==> answers[first_yes(answers, from)],
    decreases answers.len() - from,
{
    if from < answers.len() && !answers[from] {
        lemma_first_yes(answers, from + 1);
    }
}

/// Picks the first of `files` that exists, given for each of them whether
/// it does.
pub fn pick_file(files: &[String], exists: &[bool]) -> (file: Option<String>)
    ensures
        match pick_spec(texts(files@), exists@) {
            Some(text) => file is Some && file.unwrap()@ == text,
            None => file is None,
        },
{
    let mut i: usize = 0;
    while i < exists.len() && i < files.len()
        invariant
            i <= exists@.len(),
            i <= files@.len(),
            first_yes(exists@, 0) == first_yes(exists@, i as int),
        decreases exists@.len() - i,
    {
        if exists[i] {
            assert(texts(files@)[i as int] == files@[i as int]@);
            return Some(files[i].clone());
        }
        i += 1;
    }
    proof {
        lemma_first_yes(exists@, i as int);
    }
    None
}

/// Resolves a command name, given the search path and, for each file to try
/// along it, whether that file exists.
pub fn resolve_with(cmd: &str, path: Option<&str>, exists: &[bool]) -> (dep: Option<Dep>)
    ensures
        dep_view(dep) == resolve_spec(
            cmd@,
            match path {
                Some(path) => Some(path@),
                None => None,
            },
            exists@,
        ),
{
    if let Some(handle) = find_builtin(cmd) {
        return Some(Dep::BuildIn(handle));
    }
    match path {
        None => None,
        Some(dirs) => {
            let files = search_path(dirs, cmd);
            match pick_file(files.as_slice(), exists) {
                Some(file) => Some(Dep::Path(file)),
                None => None,
            }
        },
    }
}

/// `std::path::Path::exists`: whether something is at `path` at the time of
/// the call. Nothing is promised of the answer.
#[verifier::external_body]
fn path_exists(path: &str) -> bool {
    std::path::Path::new(path).exists()
}

/// Asks the file system about `files`, first to last, up to the first that
/// exists. Gives one answer for each file asked about: all are no but the
/// last, which may be yes.
fn probe(files: &[String]) -> (answers: Vec<bool>)
    ensures
        answers@.len() <= files@.len(),
        forall|j: int| 0 <= j < answers@.len() - 1 ==> !#[trigger] answers@[j],
        answers@.len() < files@.len() ==> answers@.len() > 0 && answers@.last(),
{
    let mut answers: Vec<bool> = Vec::new();
    let mut found: bool = false;
    while answers.len() < files.len() && !found
        invariant
            answers@.len() <= files@.len(),
            forall|j: int| 0 <= j < answers@.len() - 1 ==> !#[trigger] answers@[j],
            found <==> answers@.len() > 0 && answers@.last(),
        decreases files@.len() - answers@.len(),
    {
        found = path_exists(files[answers.len()].as_str());
        answers.push(found);
    }
    answers
}

/// Resolves a command name: to the built-in of that name, or else to the
/// first file along the inherited search path `PATH` that exists at the time
/// of the call. The files are asked about in the order of the path, up to
/// the first that exists, and `pick_file` decides on the answers; so the
/// result is what `resolve_with` gives for the answers of the file system.
pub fn resolve_dep(store: &VarStore, cmd: &str) -> (dep: Option<Dep>)
    ensures
        exists|answers: Seq<bool>|
            dep_view(dep) == #[trigger] resolve_spec(cmd@, store.env_var("PATH"@), answers),
{
    if let Some(handle) = find_builtin(cmd) {
        assert(dep_view(Some(Dep::BuildIn(handle))) == resolve_spec(
            cmd@,
            store.env_var("PATH"@),
            Seq::<bool>::empty(),
        ));
        return Some(Dep::BuildIn(handle));
    }
    let path = match store.inherited_var("PATH") {
        Some(path) => path,
        None => {
            assert(dep_view(None) == resolve_spec(cmd@, None, Seq::<bool>::empty()));
            return None;
        },
    };
    let files = search_path(path.as_str(), cmd);
    let answers = probe(files.as_slice());
    let dep = match pick_file(files.as_slice(), answers.as_slice()) {
        Some(file) => Some(Dep::Path(file)),
        None => None,
    };
    assert(dep_view(dep) == resolve_spec(cmd@, Some(path@), answers@));
    dep
}

/// The value that the last of `entries` with the name `name` assigns, if
/// one of them has that name.
pub open spec fn last_value(entries: Seq<Seq<char>>, name: Seq<char>) -> Option<Seq<char>>
    decreases entries.len(),
{
    if entries.len() == 0 {
        None
    } else if name_of(entries.last()) == name {
        Some(value_of(entries.last()))
    } else {
        last_value(entries.drop_last(), name)
    }
}

/// After assignments a variable holds what the last assignment to it gave
/// it; a variable that none of them names is as it was.
pub proof fn lemma_assign_all(
    vars: Map<Seq<char>, Seq<char>>,
    entries: Seq<Seq<char>>,
    name: Seq<char>,
)
    ensures
        assign_all(vars, entries).contains_key(name) <==> vars.contains_key(name) || last_value(
            entries,
            name,
        ) is Some,
        last_value(entries, name) is Some ==> assign_all(vars, entries)[name] == last_value(
            entries,
            name,
        )->Some_0,
        last_value(entries, name) is None ==> assign_all(vars, entries)[name] == vars[name],
    decreases entries.len(),
{
    if entries.len() > 0 {
        lemma_assign_all(vars, entries.drop_last(), name);
    }
}

/// Applying the same assignments a second time changes nothing.
pub proof fn lemma_assign_all_idempotent(vars: Map<Seq<char>, Seq<char>>, entries: Seq<Seq<char>>)
    ensures
        assign_all(assign_all(vars, entries), entries) == assign_all(vars, entries),
{
    let once = assign_all(vars, entries);
    let twice = assign_all(once, entries);
    assert forall|name: Seq<char>| #[trigger]
        twice.contains_key(name) == once.contains_key(name) && (once.contains_key(name)
            ==> twice[name] == once[name]) by {
        lemma_assign_all(vars, entries, name);
        lemma_assign_all(once, entries, name);
    }
    assert(twice =~= once);
}

/// Assignments that can be applied leave the status variable as it is.
pub proof fn lemma_assignments_keep_status(
    vars: Map<Seq<char>, Seq<char>>,
    entries: Seq<Seq<char>>,
)
    requires
        forall|i: int| 0 <= i < entries.len() ==> is_assignment(#[trigger] entries[i]),
    ensures
        assign_all(vars, entries).contains_key(status_name()) == vars.contains_key(status_name()),
        assign_all(vars, entries)[status_name()] == vars[status_name()],
    decreases entries.len(),
{
    if entries.len() > 0 {
        let front = entries.drop_last();
        assert forall|i: int| 0 <= i < front.len() implies is_assignment(#[trigger] front[i]) by {
            assert(front[i] == entries[i]);
        }
        lemma_assignments_keep_status(vars, front);
        assert(is_assignment(entries.last()));
    }
}

} // verus!
