//! Small helpers on text that the other modules share.

use vstd::prelude::*;

verus! {

/// The characters of `s`, for indexing in constant time.
pub fn chars_of(s: &str) -> (v: Vec<char>)
    ensures
        v@ == s@,
{
    let mut v: Vec<char> = Vec::new();
    for c in it: s.chars()
        invariant
            v@ == it.seq().take(it.index() as int),
    {
        v.push(c);
    }
    v
}

/// The texts of a sequence of strings.
pub open spec fn texts(v: Seq<String>) -> Seq<Seq<char>> {
    Seq::new(v.len(), |i: int| v[i]@)
}

/// Where `c` first occurs in `s` at or after `from`; the length of `s` if it
/// does not occur there.
pub open spec fn first_at(s: Seq<char>, from: int, c: char) -> int
    decreases s.len() - from,
{
    if 0 <= from < s.len() && s[from] != c {
        first_at(s, from + 1, c)
    } else if from < s.len() {
        from
    } else {
        s.len() as int
    }
}

/// `first_at` gives a place of `c` with no `c` before it, or the length.
pub proof fn lemma_first_at(s: Seq<char>, from: int, c: char)
    requires
        0 <= from <= s.len(),
    ensures
        from <= first_at(s, from, c) <= s.len(),
        forall|j: int| from <= j < first_at(s, from, c) ==> #[trigger] s[j] != c,
        first_at(s, from, c) < s.len() ==> s[first_at(s, from, c)] == c,
    decreases s.len() - from,
{
    if from < s.len() && s[from] != c {
        lemma_first_at(s, from + 1, c);
    }
}

/// The first place of `c` at or after `from` is what `first_at` gives.
pub proof fn lemma_first_at_is(s: Seq<char>, from: int, to: int, c: char)
    requires
        0 <= from <= to <= s.len(),
        forall|j: int| from <= j < to ==> #[trigger] s[j] != c,
        to < s.len() ==> s[to] == c,
    ensures
        first_at(s, from, c) == to,
    decreases to - from,
{
    if from < to {
        assert(s[from] != c);
        lemma_first_at_is(s, from + 1, to, c);
    }
}

/// Finds the first `c` at or after `from`.
pub fn find_char(chars: &Vec<char>, from: usize, c: char) -> (at: usize)
    requires
        from <= chars.len(),
    ensures
        at == first_at(chars@, from as int, c),
        from <= at <= chars.len(),
{
    let mut at: usize = from;
    while at < chars.len() && chars[at] != c
        invariant
            from <= at <= chars.len(),
            first_at(chars@, from as int, c) == first_at(chars@, at as int, c),
        decreases chars.len() - at,
    {
        at += 1;
    }
    at
}

/// The place of the first NUL character in `text`, if it holds one.
pub open spec fn nul_at(text: Seq<char>) -> Option<usize> {
    if text.contains('\0') {
        Some(first_at(text, 0, '\0') as usize)
    } else {
        None
    }
}

/// Finds the first NUL character in `text`.
pub fn find_nul(text: &str) -> (at: Option<usize>)
    ensures
        at == nul_at(text@),
{
    let chars = chars_of(text);
    let at: usize = find_char(&chars, 0, '\0');
    proof {
        lemma_first_at(chars@, 0, '\0');
    }
    if at < chars.len() {
        Some(at)
    } else {
        None
    }
}

/// Whether two texts hold the same characters.
pub fn same_text(a: &str, b: &str) -> (same: bool)
    ensures
        same == (a@ == b@),
{
    let left = chars_of(a);
    let right = chars_of(b);
    if left.len() != right.len() {
        return false;
    }
    let mut i: usize = 0;
    while i < left.len()
        invariant
            i <= left.len(),
            left.len() == right.len(),
            left@ == a@,
            right@ == b@,
            forall|j: int| 0 <= j < i ==> left@[j] == right@[j],
        decreases left.len() - i,
    {
        if left[i] != right[i] {
            assert(a@[i as int] != b@[i as int]);
            return false;
        }
        i += 1;
    }
    assert(left@ =~= right@);
    true
}

} // verus!
