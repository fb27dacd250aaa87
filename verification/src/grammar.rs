//! The grammar of a command line.
//!
//! ```text
//! program     := ws? (item (ws item)*)?
//! item        := command | var_ref | var_assign | string | word
//! command     := "./" word
//! var_ref     := "$" word
//! var_assign  := word "=" (string | word)
//! string      := '"' printable-or-space* '"'
//! word        := printable-non-ws-non-equals+
//! ```
//!
//! The alternatives of `item` are tried in the order written and the first
//! that matches is taken; a run of characters is always as long as it can be.

use vstd::prelude::*;
use vstd::string::{StrSliceExecFns, StringExecFns};

use crate::parser::{item_views, Item, ItemView, RawProgram};
use crate::text::chars_of;

verus! {

/// The three kinds of character runs that the grammar is built from.
#[derive(Clone, Copy, Debug, PartialEq, Eq, Structural)]
pub enum CharClass {
    /// Space, tab and newline: what separates items.
    Space,
    /// Printable characters other than space, `"` and `=`: what words are made of.
    Word,
    /// Printable characters and space, other than `"`: the inside of a string.
    Quoted,
}

pub open spec fn is_space(c: char) -> bool {
    c == ' ' || c == '\n' || c == '\t'
}

pub open spec fn is_word_char(c: char) -> bool {
    c == '!' || ('#' <= c <= '<') || ('>' <= c <= '~')
}

pub open spec fn is_string_char(c: char) -> bool {
    c == ' ' || c == '!' || ('#' <= c <= '~')
}

impl CharClass {
    pub open spec fn has(self, c: char) -> bool {
        match self {
            CharClass::Space => is_space(c),
            CharClass::Word => is_word_char(c),
            CharClass::Quoted => is_string_char(c),
        }
    }

    /// Whether `c` belongs to the class.
    pub fn contains(&self, c: char) -> (b: bool)
        ensures
            b == self.has(c),
    {
        match self {
            CharClass::Space => c == ' ' || c == '\n' || c == '\t',
            CharClass::Word => c == '!' || ('#' <= c && c <= '<') || ('>' <= c && c <= '~'),
            CharClass::Quoted => c == ' ' || c == '!' || ('#' <= c && c <= '~'),
        }
    }
}

/// Where the longest run of characters of `class` that starts at `from` ends.
pub open spec fn run_end(s: Seq<char>, from: int, class: CharClass) -> int
    decreases s.len() - from,
{
    if 0 <= from < s.len() && class.has(s[from]) {
        run_end(s, from + 1, class)
    } else {
        from
    }
}

/// A run ends inside the text, holds only characters of its class, and is
/// followed by the end of the text or by a character outside the class.
pub proof fn lemma_run_end(s: Seq<char>, from: int, class: CharClass)
    requires
        0 <= from <= s.len(),
    ensures
        from <= run_end(s, from, class) <= s.len(),
        forall|j: int| from <= j < run_end(s, from, class) ==> class.has(#[trigger] s[j]),
        run_end(s, from, class) < s.len() ==> !class.has(s[run_end(s, from, class)]),
    decreases s.len() - from,
{
    if from < s.len() && class.has(s[from]) {
        lemma_run_end(s, from + 1, class);
    }
}

/// A stretch of characters of one class that cannot be made longer is the run.
pub proof fn lemma_run_end_is(s: Seq<char>, from: int, to: int, class: CharClass)
    requires
        0 <= from <= to <= s.len(),
        forall|j: int| from <= j < to ==> class.has(#[trigger] s[j]),
        to < s.len() ==> !class.has(s[to]),
    ensures
        run_end(s, from, class) == to,
    decreases to - from,
{
    if from < to {
        assert(class.has(s[from]));
        lemma_run_end_is(s, from + 1, to, class);
    }
}

/// Finds the end of the run of `class` that starts at `from`.
pub fn scan_run(chars: &Vec<char>, from: usize, class: CharClass) -> (to: usize)
    requires
        from <= chars.len(),
    ensures
        to == run_end(chars@, from as int, class),
        from <= to <= chars.len(),
{
    let mut to: usize = from;
    while to < chars.len() && class.contains(chars[to])
        invariant
            from <= to <= chars.len(),
            run_end(chars@, from as int, class) == run_end(chars@, to as int, class),
        decreases chars.len() - to,
    {
        to += 1;
    }
    to
}

/// What the grammar finds at one place of a line.
pub struct Scan {
    /// The item that starts there, if one does.
    pub item: Option<ItemView>,
    /// Where that item ends.
    pub end: int,
    /// The place to report if the line cannot be read on from here: the
    /// furthest place at which the grammar asked for a character that was
    /// not there.
    pub reach: int,
}

pub open spec fn has_char(s: Seq<char>, at: int, c: char) -> bool {
    0 <= at < s.len() && s[at] == c
}

/// The item that starts at `p`: the first alternative of `item` that matches.
pub open spec fn item_at(s: Seq<char>, p: int) -> Scan {
    let path_end = run_end(s, p + 2, CharClass::Word);
    let name_end = run_end(s, p + 1, CharClass::Word);
    let word_end = run_end(s, p, CharClass::Word);
    if has_char(s, p, '.') && has_char(s, p + 1, '/') && path_end > p + 2 {
        Scan { item: Some(ItemView::Command(s.subrange(p, path_end))), end: path_end, reach: path_end }
    } else if has_char(s, p, '$') && name_end > p + 1 {
        Scan { item: Some(ItemView::Var(s.subrange(p + 1, name_end))), end: name_end, reach: name_end }
    } else if word_end > p {
        let word = s.subrange(p, word_end);
        if !has_char(s, word_end, '=') {
            Scan { item: Some(ItemView::Iden(word)), end: word_end, reach: word_end }
        } else if has_char(s, word_end + 1, '"') {
            let close = run_end(s, word_end + 2, CharClass::Quoted);
            if has_char(s, close, '"') {
                Scan {
                    item: Some(ItemView::VarAssign(word, s.subrange(word_end + 2, close))),
                    end: close + 1,
                    reach: close + 1,
                }
            } else {
                Scan { item: Some(ItemView::Iden(word)), end: word_end, reach: close }
            }
        } else {
            let value_end = run_end(s, word_end + 1, CharClass::Word);
            if value_end > word_end + 1 {
                Scan {
                    item: Some(ItemView::VarAssign(word, s.subrange(word_end + 1, value_end))),
                    end: value_end,
                    reach: value_end,
                }
            } else {
                Scan { item: Some(ItemView::Iden(word)), end: word_end, reach: word_end + 1 }
            }
        }
    } else if has_char(s, p, '"') {
        let close = run_end(s, p + 1, CharClass::Quoted);
        if has_char(s, close, '"') {
            Scan { item: Some(ItemView::Str(s.subrange(p + 1, close))), end: close + 1, reach: close + 1 }
        } else {
            Scan { item: None, end: p, reach: close }
        }
    } else {
        Scan { item: None, end: p, reach: p }
    }
}

/// An item is never empty and lies inside the line, and so does the place
/// that is reported when the line cannot be read on.
pub proof fn lemma_item_at(s: Seq<char>, p: int)
    requires
        0 <= p <= s.len(),
    ensures
        item_at(s, p).item is Some ==> p < item_at(s, p).end <= s.len(),
        item_at(s, p).end <= item_at(s, p).reach <= s.len(),
{
    let word_end = run_end(s, p, CharClass::Word);
    lemma_run_end(s, p, CharClass::Word);
    if p + 1 <= s.len() {
        lemma_run_end(s, p + 1, CharClass::Word);
        lemma_run_end(s, p + 1, CharClass::Quoted);
    }
    if p + 2 <= s.len() {
        lemma_run_end(s, p + 2, CharClass::Word);
    }
    if word_end + 1 <= s.len() {
        lemma_run_end(s, word_end + 1, CharClass::Word);
    }
    if word_end + 2 <= s.len() {
        lemma_run_end(s, word_end + 2, CharClass::Quoted);
    }
}

/// Copies the characters of `line` between two places.
fn text_between(line: &str, from: usize, to: usize) -> (text: String)
    requires
        from <= to <= line@.len(),
    ensures
        text@ == line@.subrange(from as int, to as int),
{
    String::from_str(line.substring_char(from, to))
}

/// Reads the item that starts at `p`. `chars` holds the characters of `line`.
/// Gives the item, where it ends, and the place to report on failure.
pub fn scan_item(line: &str, chars: &Vec<char>, p: usize) -> (r: (Option<Item>, usize, usize))
    requires
        chars@ == line@,
        p <= chars.len(),
    ensures
        r.0 is Some <==> item_at(line@, p as int).item is Some,
        r.0 is Some ==> Some(r.0.unwrap()@) == item_at(line@, p as int).item,
        r.1 == item_at(line@, p as int).end,
        r.2 == item_at(line@, p as int).reach,
{
    let n: usize = chars.len();
    proof {
        lemma_item_at(line@, p as int);
    }
    if p < n && chars[p] == '.' && p + 1 < n && chars[p + 1] == '/' {
        let path_end: usize = scan_run(chars, p + 2, CharClass::Word);
        if path_end > p + 2 {
            let text = text_between(line, p, path_end);
            return (Some(Item::Command(text)), path_end, path_end);
        }
    }
    if p < n && chars[p] == '$' {
        let name_end: usize = scan_run(chars, p + 1, CharClass::Word);
        if name_end > p + 1 {
            let text = text_between(line, p + 1, name_end);
            return (Some(Item::Var(text)), name_end, name_end);
        }
    }
    let word_end: usize = scan_run(chars, p, CharClass::Word);
    if word_end > p {
        let word = text_between(line, p, word_end);
        if !(word_end < n && chars[word_end] == '=') {
            return (Some(Item::Iden(word)), word_end, word_end);
        }
        if word_end + 1 < n && chars[word_end + 1] == '"' {
            let close: usize = scan_run(chars, word_end + 2, CharClass::Quoted);
            if close < n && chars[close] == '"' {
                let value = text_between(line, word_end + 2, close);
                return (Some(Item::VarAssign(word, value)), close + 1, close + 1);
            }
            return (Some(Item::Iden(word)), word_end, close);
        }
        let value_end: usize = scan_run(chars, word_end + 1, CharClass::Word);
        if value_end > word_end + 1 {
            let value = text_between(line, word_end + 1, value_end);
            return (Some(Item::VarAssign(word, value)), value_end, value_end);
        }
        return (Some(Item::Iden(word)), word_end, word_end + 1);
    }
    if p < n && chars[p] == '"' {
        let close: usize = scan_run(chars, p + 1, CharClass::Quoted);
        if close < n && chars[close] == '"' {
            let text = text_between(line, p + 1, close);
            return (Some(Item::Str(text)), close + 1, close + 1);
        }
        return (None, p, close);
    }
    (None, p, p)
}

/// The items from `p` on, where `p` is a place at which an item has to
/// start; or the place to report, if the rest of the line is not a run of
/// items with white space between them.
pub open spec fn items_from(s: Seq<char>, p: int) -> Result<Seq<ItemView>, int>
    decreases s.len() - p,
    via items_from_decreases
{
    let scan = item_at(s, p);
    if scan.item is None {
        Err(scan.reach)
    } else if scan.end == s.len() {
        Ok(seq![scan.item.unwrap()])
    } else {
        let next = run_end(s, scan.end, CharClass::Space);
        if next == scan.end {
            Err(scan.reach)
        } else {
            match items_from(s, next) {
                Ok(rest) => Ok(seq![scan.item.unwrap()] + rest),
                Err(at) => Err(at),
            }
        }
    }
}

#[via_fn]
proof fn items_from_decreases(s: Seq<char>, p: int) {
    if 0 <= p <= s.len() {
        lemma_item_at(s, p);
        if item_at(s, p).item is Some {
            lemma_run_end(s, item_at(s, p).end, CharClass::Space);
        }
    }
}

/// The items of a whole line; or, for a line that the grammar does not
/// accept, the place to report.
pub open spec fn program_spec(s: Seq<char>) -> Result<Seq<ItemView>, int> {
    let start = run_end(s, 0, CharClass::Space);
    if start == s.len() {
        Ok(Seq::empty())
    } else {
        items_from(s, start)
    }
}

/// A place in a text. Lines and columns are counted from 1, the offset from
/// 0, all three in characters.
#[derive(Clone, Copy, Debug, PartialEq, Eq, Structural)]
pub struct LineCol {
    pub line: usize,
    pub column: usize,
    pub offset: usize,
}

/// How many newlines `s` holds.
pub open spec fn newlines(s: Seq<char>) -> nat
    decreases s.len(),
{
    if s.len() == 0 {
        0
    } else {
        newlines(s.drop_last()) + if s.last() == '\n' { 1nat } else { 0nat }
    }
}

/// How many characters follow the last newline of `s`.
pub open spec fn tail_len(s: Seq<char>) -> nat
    decreases s.len(),
{
    if s.len() == 0 || s.last() == '\n' {
        0
    } else {
        tail_len(s.drop_last()) + 1
    }
}

/// `count + 1`, or the largest `usize` where that does not fit.
pub open spec fn one_based(count: nat) -> usize {
    if count < usize::MAX {
        (count + 1) as usize
    } else {
        usize::MAX
    }
}

/// Line and column of the place `at` in `s`.
pub open spec fn location(s: Seq<char>, at: int) -> LineCol {
    LineCol {
        line: one_based(newlines(s.take(at))),
        column: one_based(tail_len(s.take(at))),
        offset: at as usize,
    }
}

/// Finds line and column of the place `at`.
pub fn locate(chars: &Vec<char>, at: usize) -> (place: LineCol)
    requires
        at <= chars.len(),
    ensures
        place == location(chars@, at as int),
{
    let mut lines: usize = 0;
    let mut tail: usize = 0;
    let mut i: usize = 0;
    assert(chars@.take(0) =~= Seq::<char>::empty());
    while i < at
        invariant
            i <= at <= chars.len(),
            lines == newlines(chars@.take(i as int)),
            tail == tail_len(chars@.take(i as int)),
            lines <= i,
            tail <= i,
        decreases at - i,
    {
        proof {
            assert(chars@.take(i + 1).drop_last() =~= chars@.take(i as int));
            assert(chars@.take(i + 1).last() == chars@[i as int]);
        }
        if chars[i] == '\n' {
            lines += 1;
            tail = 0;
        } else {
            tail += 1;
        }
        i += 1;
    }
    LineCol { line: lines.saturating_add(1), column: tail.saturating_add(1), offset: at }
}

/// Splits a line into its items. A line that the grammar does not accept
/// gives the place at which reading it came to a halt.
pub fn program(line: &str) -> (r: Result<RawProgram, LineCol>)
    ensures
        match program_spec(line@) {
            Ok(items) => r is Ok && r.unwrap()@ == items,
            Err(at) => r == Err::<RawProgram, LineCol>(location(line@, at)),
        },
{
    let chars = chars_of(line);
    let n: usize = chars.len();
    let mut items: Vec<Item> = Vec::new();
    let mut p: usize = scan_run(&chars, 0, CharClass::Space);
    if p == n {
        assert(item_views(items@) =~= Seq::<ItemView>::empty());
        return Ok(RawProgram(items));
    }
    loop
        invariant
            chars@ == line@,
            n == chars.len(),
            p <= n,
            match items_from(line@, p as int) {
                Ok(rest) => program_spec(line@) == Ok::<Seq<ItemView>, int>(
                    item_views(items@) + rest,
                ),
                Err(at) => program_spec(line@) == Err::<Seq<ItemView>, int>(at),
            },
        decreases n - p,
    {
        proof {
            lemma_item_at(line@, p as int);
        }
        let ghost before = item_views(items@);
        let (item, end, reach) = scan_item(line, &chars, p);
        match item {
            None => {
                return Err(locate(&chars, reach));
            },
            Some(item) => {
                let ghost first = seq![item@];
                items.push(item);
                assert(item_views(items@) =~= before + first);
                if end == n {
                    return Ok(RawProgram(items));
                }
                let next: usize = scan_run(&chars, end, CharClass::Space);
                if next == end {
                    return Err(locate(&chars, reach));
                }
                proof {
                    if let Ok(rest) = items_from(line@, next as int) {
                        assert((before + first) + rest =~= before + (first + rest));
                    }
                }
                p = next;
            },
        }
    }
}

/// A line of nothing but white space, the empty line among them, has no items.
pub proof fn lemma_blank_line(s: Seq<char>)
    requires
        forall|i: int| 0 <= i < s.len() ==> is_space(#[trigger] s[i]),
    ensures
        program_spec(s) == Ok::<Seq<ItemView>, int>(Seq::empty()),
{
    lemma_run_end_is(s, 0, s.len() as int, CharClass::Space);
}

/// Whether the name of an assignment is free of `=`. Other items pass.
pub open spec fn plain_name(item: ItemView) -> bool {
    match item {
        ItemView::VarAssign(name, _) => !name.contains('='),
        _ => true,
    }
}

/// The name of an assignment that the grammar finds holds no `=`.
pub proof fn lemma_item_name(s: Seq<char>, p: int)
    requires
        0 <= p <= s.len(),
        item_at(s, p).item is Some,
    ensures
        plain_name(item_at(s, p).item.unwrap()),
{
    let word_end = run_end(s, p, CharClass::Word);
    lemma_run_end(s, p, CharClass::Word);
    let word = s.subrange(p, word_end);
    assert forall|i: int| 0 <= i < word.len() implies word[i] != '=' by {
        assert(CharClass::Word.has(s[p + i]));
    }
}

/// The names of the assignments of a line hold no `=`.
pub proof fn lemma_items_names(s: Seq<char>, p: int)
    requires
        0 <= p <= s.len(),
        items_from(s, p) is Ok,
    ensures
        forall|i: int|
            0 <= i < items_from(s, p)->Ok_0.len() ==> plain_name(
                #[trigger] items_from(s, p)->Ok_0[i],
            ),
    decreases s.len() - p,
{
    let scan = item_at(s, p);
    lemma_item_at(s, p);
    lemma_item_name(s, p);
    if scan.end != s.len() {
        let next = run_end(s, scan.end, CharClass::Space);
        lemma_run_end(s, scan.end, CharClass::Space);
        lemma_items_names(s, next);
    }
}

/// The names of the assignments of a whole line hold no `=`.
pub proof fn lemma_program_names(s: Seq<char>)
    requires
        program_spec(s) is Ok,
    ensures
        forall|i: int|
            0 <= i < program_spec(s)->Ok_0.len() ==> plain_name(#[trigger] program_spec(s)->Ok_0[i]),
{
    let start = run_end(s, 0, CharClass::Space);
    lemma_run_end(s, 0, CharClass::Space);
    if start != s.len() {
        lemma_items_names(s, start);
    }
}

} // verus!
