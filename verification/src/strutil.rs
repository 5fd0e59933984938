//! Small executable helpers over `&str` and `String`.
//!
//! Everything here is stated over the character-sequence view of a
//! string, so callers can reason about the exact contents.

use vstd::prelude::*;
use vstd::string::StrSliceExecFns;
use vstd::string::StringExecFns;

verus! {

/// Relies on alloc's `String::push`: appends the character to the end.
pub assume_specification[ String::push ](s: &mut String, c: char)
    ensures
        final(s)@ == old(s)@.push(c),
;

/// Character-wise string equality, decided executably.
pub fn str_eq(a: &str, b: &str) -> (r: bool)
    ensures
        r == (a@ == b@),
{
    let an = a.unicode_len();
    let bn = b.unicode_len();
    if an != bn {
        assert(a@ != b@) by {
            assert(a@.len() != b@.len());
        }
        return false;
    }
    let mut i: usize = 0;
    while i < an
        invariant
            0 <= i <= an,
            an == a@.len(),
            an == b@.len(),
            forall|j: int| 0 <= j < i ==> a@[j] == b@[j],
        decreases an - i,
    {
        if a.get_char(i) != b.get_char(i) {
            return false;
        }
        i += 1;
    }
    assert(a@ =~= b@);
    true
}

/// String equality through the same character-wise decision.
pub fn string_eq(a: &String, b: &String) -> (r: bool)
    ensures
        r == (a@ == b@),
{
    str_eq(a.as_str(), b.as_str())
}

/// Whitespace, the set this crate's trimming recognises: the
/// characters with Unicode's White_Space property, the same set
/// `str::trim` removes.
pub open spec fn is_space(c: char) -> bool {
    c == ' ' || c == '\t' || c == '\n' || c == '\r' || c == '\u{b}' || c == '\u{c}' || c
        == '\u{85}' || c == '\u{a0}' || c == '\u{1680}' || ('\u{2000}' as u32 <= c as u32 && c
        as u32 <= '\u{200a}' as u32) || c == '\u{2028}' || c == '\u{2029}' || c == '\u{202f}'
        || c == '\u{205f}' || c == '\u{3000}'
}

pub fn is_space_exec(c: char) -> (r: bool)
    ensures
        r == is_space(c),
{
    c == ' ' || c == '\t' || c == '\n' || c == '\r' || c == '\u{b}' || c == '\u{c}' || c
        == '\u{85}' || c == '\u{a0}' || c == '\u{1680}' || ('\u{2000}' as u32 <= c as u32 && c
        as u32 <= '\u{200a}' as u32) || c == '\u{2028}' || c == '\u{2029}' || c == '\u{202f}'
        || c == '\u{205f}' || c == '\u{3000}'
}

/// The sequence with its leading whitespace removed.
pub open spec fn trim_front_spec(s: Seq<char>) -> Seq<char>
    decreases s.len(),
{
    if s.len() > 0 && is_space(s[0]) {
        trim_front_spec(s.drop_first())
    } else {
        s
    }
}

/// The sequence with its trailing whitespace removed.
pub open spec fn trim_back_spec(s: Seq<char>) -> Seq<char>
    decreases s.len(),
{
    if s.len() > 0 && is_space(s.last()) {
        trim_back_spec(s.drop_last())
    } else {
        s
    }
}

/// The sequence with whitespace removed from both ends.
pub open spec fn trimmed_spec(s: Seq<char>) -> Seq<char> {
    trim_back_spec(trim_front_spec(s))
}

/// Removes leading whitespace.
pub fn trim_front(s: &str) -> (r: &str)
    ensures
        r@ == trim_front_spec(s@),
    decreases s@.len(),
{
    let n = s.unicode_len();
    if n > 0 && is_space_exec(s.get_char(0)) {
        let rest = s.substring_char(1, n);
        assert(rest@ =~= s@.drop_first());
        trim_front(rest)
    } else {
        s
    }
}

/// Removes trailing whitespace.
pub fn trim_back(s: &str) -> (r: &str)
    ensures
        r@ == trim_back_spec(s@),
    decreases s@.len(),
{
    let n = s.unicode_len();
    if n > 0 && is_space_exec(s.get_char(n - 1)) {
        let rest = s.substring_char(0, n - 1);
        assert(rest@ =~= s@.drop_last());
        trim_back(rest)
    } else {
        s
    }
}

/// Trims whitespace from both ends, like `str::trim`.
pub fn trim_ends(s: &str) -> (r: &str)
    ensures
        r@ == trimmed_spec(s@),
{
    trim_back(trim_front(s))
}

/// The sequence with every leading `c` removed.
pub open spec fn strip_front_spec(s: Seq<char>, c: char) -> Seq<char>
    decreases s.len(),
{
    if s.len() > 0 && s[0] == c {
        strip_front_spec(s.drop_first(), c)
    } else {
        s
    }
}

/// The sequence with every trailing `c` removed.
pub open spec fn strip_back_spec(s: Seq<char>, c: char) -> Seq<char>
    decreases s.len(),
{
    if s.len() > 0 && s.last() == c {
        strip_back_spec(s.drop_last(), c)
    } else {
        s
    }
}

/// Removes every leading occurrence of `c`.
pub fn strip_front(s: &str, c: char) -> (r: &str)
    ensures
        r@ == strip_front_spec(s@, c),
    decreases s@.len(),
{
    let n = s.unicode_len();
    if n > 0 && s.get_char(0) == c {
        let rest = s.substring_char(1, n);
        assert(rest@ =~= s@.drop_first());
        strip_front(rest, c)
    } else {
        s
    }
}

/// Removes every trailing occurrence of `c`.
pub fn strip_back(s: &str, c: char) -> (r: &str)
    ensures
        r@ == strip_back_spec(s@, c),
    decreases s@.len(),
{
    let n = s.unicode_len();
    if n > 0 && s.get_char(n - 1) == c {
        let rest = s.substring_char(0, n - 1);
        assert(rest@ =~= s@.drop_last());
        strip_back(rest, c)
    } else {
        s
    }
}

/// The lower-case form of an ASCII letter; any other character is
/// unchanged.
pub open spec fn lower_char(c: char) -> char {
    if 'A' as u32 <= c as u32 && c as u32 <= 'Z' as u32 {
        ((c as u8 + 32) as u8) as char
    } else {
        c
    }
}

/// Lower-cases an ASCII letter.
pub fn lower_char_exec(c: char) -> (r: char)
    ensures
        r == lower_char(c),
{
    if 'A' as u32 <= c as u32 && c as u32 <= 'Z' as u32 {
        ((c as u8) + 32) as char
    } else {
        c
    }
}

/// An ASCII letter or digit.
pub open spec fn is_ascii_alnum(c: char) -> bool {
    ('0' as u32 <= c as u32 && c as u32 <= '9' as u32) || ('a' as u32 <= c as u32 && c as u32
        <= 'z' as u32) || ('A' as u32 <= c as u32 && c as u32 <= 'Z' as u32)
}

pub fn is_ascii_alnum_exec(c: char) -> (r: bool)
    ensures
        r == is_ascii_alnum(c),
{
    ('0' as u32 <= c as u32 && c as u32 <= '9' as u32) || ('a' as u32 <= c as u32 && c as u32
        <= 'z' as u32) || ('A' as u32 <= c as u32 && c as u32 <= 'Z' as u32)
}

/// Case-insensitive ASCII string equality.
pub open spec fn eq_ignore_case_spec(a: Seq<char>, b: Seq<char>) -> bool {
    a.len() == b.len() && forall|i: int|
        0 <= i < a.len() ==> lower_char(#[trigger] a[i]) == lower_char(b[i])
}

/// Compares two strings ignoring ASCII case.
pub fn eq_ignore_ascii_case(a: &str, b: &str) -> (r: bool)
    ensures
        r == eq_ignore_case_spec(a@, b@),
{
    let an = a.unicode_len();
    let bn = b.unicode_len();
    if an != bn {
        return false;
    }
    let mut i: usize = 0;
    while i < an
        invariant
            0 <= i <= an,
            an == a@.len(),
            an == b@.len(),
            forall|j: int| 0 <= j < i ==> lower_char(#[trigger] a@[j]) == lower_char(b@[j]),
        decreases an - i,
    {
        if lower_char_exec(a.get_char(i)) != lower_char_exec(b.get_char(i)) {
            return false;
        }
        i += 1;
    }
    true
}

/// The character sequences of a sequence of strings.
pub open spec fn seq_views(s: Seq<String>) -> Seq<Seq<char>> {
    Seq::new(s.len(), |i: int| s[i]@)
}

/// The first index of `c` in `s`, if any.
pub open spec fn find_char(s: Seq<char>, c: char) -> Option<int>
    decreases s.len(),
{
    if s.len() == 0 {
        None
    } else if s[0] == c {
        Some(0)
    } else {
        match find_char(s.drop_first(), c) {
            Some(i) => Some(i + 1),
            None => None,
        }
    }
}

/// What `find_char` finds is the first occurrence.
pub proof fn lemma_find_char(s: Seq<char>, c: char)
    ensures
        match find_char(s, c) {
            Some(i) => 0 <= i < s.len() && s[i] == c && forall|j: int| 0 <= j < i ==> s[j] != c,
            None => forall|j: int| 0 <= j < s.len() ==> s[j] != c,
        },
    decreases s.len(),
{
    if s.len() > 0 && s[0] != c {
        let rest = s.drop_first();
        lemma_find_char(rest, c);
        match find_char(rest, c) {
            Some(i) => {
                assert(s[i + 1] == rest[i]);
                assert forall|j: int| 0 <= j < i + 1 implies s[j] != c by {
                    if j > 0 {
                        assert(rest[j - 1] != c);
                    }
                }
            },
            None => {
                assert forall|j: int| 0 <= j < s.len() implies s[j] != c by {
                    if j > 0 {
                        assert(rest[j - 1] != c);
                    }
                }
            },
        }
    }
}

/// A position holding `c`, with none before it, is where `c` is found.
pub proof fn lemma_find_char_at(s: Seq<char>, c: char, p: int)
    requires
        0 <= p < s.len(),
        s[p] == c,
        forall|j: int| 0 <= j < p ==> s[j] != c,
    ensures
        find_char(s, c) == Some(p),
{
    lemma_find_char(s, c);
    match find_char(s, c) {
        Some(i) => {
            if i < p {
                assert(s[i] != c);
            }
            if i > p {
                assert(s[p] != c);
            }
        },
        None => {
            assert(s[p] != c);
        },
    }
}

/// Trimming a sequence without surrounding whitespace changes nothing.
pub proof fn lemma_trimmed_id(s: Seq<char>)
    requires
        s.len() == 0 || (!is_space(s[0]) && !is_space(s.last())),
    ensures
        trimmed_spec(s) == s,
{
}

/// Stripping a character a sequence neither starts nor ends with
/// changes nothing.
pub proof fn lemma_strip_id(s: Seq<char>, c: char)
    requires
        s.len() == 0 || (s[0] != c && s.last() != c),
    ensures
        strip_front_spec(s, c) == s,
        strip_back_spec(s, c) == s,
{
}

/// Finds the first occurrence of `c` in `s`.
pub fn find_char_exec(s: &str, c: char) -> (r: Option<usize>)
    ensures
        match r {
            Some(i) => i < s@.len() && find_char(s@, c) == Some(i as int),
            None => find_char(s@, c) is None,
        },
{
    proof {
        lemma_find_char(s@, c);
    }
    let n = s.unicode_len();
    let mut i: usize = 0;
    while i < n
        invariant
            0 <= i <= n,
            n == s@.len(),
            forall|j: int| 0 <= j < i ==> s@[j] != c,
        decreases n - i,
    {
        if s.get_char(i) == c {
            proof {
                lemma_find_char(s@, c);
                match find_char(s@, c) {
                    Some(fi) => {
                        if fi < i as int {
                            assert(s@[fi] != c);
                        }
                        if fi > i as int {
                            assert(s@[i as int] != c);
                        }
                    },
                    None => {
                        assert(s@[i as int] != c);
                    },
                }
            }
            return Some(i);
        }
        i += 1;
    }
    None
}

/// Trims an optional string; an absent or all-whitespace value becomes
/// nothing.
pub fn optional_trim(value: Option<String>) -> (r: Option<String>)
    ensures
        match r {
            Some(t) => value is Some && t@ == trimmed_spec(value->Some_0@) && t@.len() > 0,
            None => value is None || trimmed_spec(value->Some_0@).len() == 0,
        },
{
    match value {
        Some(entry) => {
            let t = trim_ends(entry.as_str());
            if t.unicode_len() == 0 {
                None
            } else {
                Some(t.to_owned())
            }
        },
        None => None,
    }
}

} // verus!
