//! Path normalization and related string rules.
//!
//! Paths are handled as plain strings with `/` as the separator;
//! normalization turns backslashes into slashes, trims whitespace and
//! trailing separators, and maps the empty result to the root.

use vstd::prelude::*;
use vstd::string::StrSliceExecFns;
use vstd::string::StringExecFns;
use crate::strutil::is_space;
use crate::strutil::lower_char;
use crate::strutil::is_ascii_alnum;
use crate::strutil::str_eq;
use crate::strutil::strip_back;
use crate::strutil::strip_back_spec;
use crate::strutil::strip_front;
use crate::strutil::strip_front_spec;
use crate::strutil::trim_back_spec;
use crate::strutil::trim_ends;
use crate::strutil::trim_front_spec;
use crate::strutil::trimmed_spec;
use crate::strutil::lower_char_exec;
use crate::strutil::is_ascii_alnum_exec;

verus! {

/// Every backslash replaced by a forward slash.
pub open spec fn slashes_mapped(s: Seq<char>) -> Seq<char> {
    Seq::new(s.len(), |i: int| if s[i] == '\\' { '/' } else { s[i] })
}

/// The normalized form of a raw path: backslashes mapped to slashes,
/// whitespace trimmed, trailing slashes removed, and the empty result
/// replaced by the filesystem root.
pub open spec fn normalized_path_spec(s: Seq<char>) -> Seq<char> {
    let stripped = strip_back_spec(trimmed_spec(slashes_mapped(s)), '/');
    if stripped.len() == 0 {
        "/"@
    } else {
        stripped
    }
}

fn map_slashes(raw: &str) -> (r: String)
    ensures
        r@ == slashes_mapped(raw@),
{
    let n = raw.unicode_len();
    let mut out = String::new();
    let mut i: usize = 0;
    while i < n
        invariant
            0 <= i <= n,
            n == raw@.len(),
            out@ =~= slashes_mapped(raw@).take(i as int),
        decreases n - i,
    {
        let c = raw.get_char(i);
        if c == '\\' {
            out.push('/');
        } else {
            out.push(c);
        }
        assert(out@ =~= slashes_mapped(raw@).take(i + 1));
        i += 1;
    }
    assert(out@ =~= slashes_mapped(raw@));
    out
}

/// Normalizes a raw path string.
pub fn normalize_path(raw: &str) -> (r: String)
    ensures
        r@ == normalized_path_spec(raw@),
{
    let mapped = map_slashes(raw);
    let trimmed = trim_ends(mapped.as_str());
    let stripped = strip_back(trimmed, '/');
    if stripped.unicode_len() == 0 {
        String::from_str("/")
    } else {
        stripped.to_owned()
    }
}

/// The suffix of `s` after its last slash; the whole of `s` when it
/// holds none, empty when it ends with one.
pub open spec fn suffix_after_last_slash(s: Seq<char>) -> Seq<char>
    decreases s.len(),
{
    if s.len() == 0 {
        s
    } else if s.last() == '/' {
        Seq::empty()
    } else {
        suffix_after_last_slash(s.drop_last()).push(s.last())
    }
}

/// The last non-empty `/`-separated segment of the normalized path,
/// or the raw input itself when there is none.
pub open spec fn path_tail_spec(s: Seq<char>) -> Seq<char> {
    let n = normalized_path_spec(s);
    if n == "/"@ {
        s
    } else {
        suffix_after_last_slash(n)
    }
}

fn suffix_exec(s: &str) -> (r: String)
    ensures
        r@ == suffix_after_last_slash(s@),
    decreases s@.len(),
{
    let n = s.unicode_len();
    if n == 0 {
        return String::new();
    }
    let c = s.get_char(n - 1);
    if c == '/' {
        return String::new();
    }
    let head = s.substring_char(0, n - 1);
    assert(head@ =~= s@.drop_last());
    let mut r = suffix_exec(head);
    r.push(c);
    r
}

/// The final path component of a raw path, after normalization; a
/// path that normalizes to the root falls back to the raw input.
pub fn path_tail(raw: &str) -> (r: String)
    ensures
        r@ == path_tail_spec(raw@),
{
    let normalized = normalize_path(raw);
    if str_eq(normalized.as_str(), "/") {
        raw.to_owned()
    } else {
        suffix_exec(normalized.as_str())
    }
}

/// Directory names passed over when scanning for candidate projects:
/// hidden directories and common build outputs.
pub open spec fn skip_scan_dir(s: Seq<char>) -> bool {
    (s.len() > 0 && s[0] == '.') || s == "node_modules"@ || s == "dist"@ || s == "build"@ || s
        == "out"@
}

/// Whether a directory name is skipped by the project scan.
pub fn should_skip_scan_dir(name: &str) -> (r: bool)
    ensures
        r == skip_scan_dir(name@),
{
    if name.unicode_len() > 0 && name.get_char(0) == '.' {
        return true;
    }
    str_eq(name, "node_modules") || str_eq(name, "dist") || str_eq(name, "build") || str_eq(
        name,
        "out",
    )
}

/// Directory names passed over when scanning for skill bundles.
pub open spec fn skip_skill_scan_dir(s: Seq<char>) -> bool {
    (s.len() > 0 && s[0] == '.') || s == "node_modules"@ || s == "dist"@ || s == "build"@ || s
        == "target"@ || s == "__pycache__"@
}

/// Whether a directory name is skipped by the skill scan.
pub fn should_skip_skill_scan_dir(name: &str) -> (r: bool)
    ensures
        r == skip_skill_scan_dir(name@),
{
    if name.unicode_len() > 0 && name.get_char(0) == '.' {
        return true;
    }
    str_eq(name, "node_modules") || str_eq(name, "dist") || str_eq(name, "build") || str_eq(
        name,
        "target",
    ) || str_eq(name, "__pycache__")
}

/// One pass of skill-name sanitisation: characters are lower-cased;
/// letters, digits, `_` and `-` are kept; every other run of
/// characters collapses to a single dash.
pub open spec fn squashed_name(s: Seq<char>, prev_dash: bool) -> Seq<char>
    decreases s.len(),
{
    if s.len() == 0 {
        Seq::empty()
    } else {
        let c = lower_char(s[0]);
        if is_ascii_alnum(c) || c == '_' || c == '-' {
            seq![c] + squashed_name(s.drop_first(), false)
        } else if prev_dash {
            squashed_name(s.drop_first(), true)
        } else {
            seq!['-'] + squashed_name(s.drop_first(), true)
        }
    }
}

/// The sanitized skill name: input trimmed, squashed, dashes stripped
/// from both ends, and an empty result replaced by a fixed fallback.
pub open spec fn sanitized_name_spec(s: Seq<char>) -> Seq<char> {
    let squashed = squashed_name(trimmed_spec(s), false);
    let stripped = strip_back_spec(strip_front_spec(squashed, '-'), '-');
    if stripped.len() == 0 {
        "imported-skill"@
    } else {
        stripped
    }
}

/// Derives a safe directory name from a free-form skill name.
pub fn sanitize_skill_name(input: &str) -> (r: String)
    ensures
        r@ == sanitized_name_spec(input@),
{
    let trimmed = trim_ends(input);
    let n = trimmed.unicode_len();
    let mut out = String::new();
    let mut prev_dash = false;
    let mut i: usize = 0;
    proof {
        assert(trimmed@.skip(0) =~= trimmed@);
        assert(Seq::<char>::empty() + squashed_name(trimmed@, false) =~= squashed_name(
            trimmed@,
            false,
        ));
    }
    while i < n
        invariant
            0 <= i <= n,
            n == trimmed@.len(),
            out@ + squashed_name(trimmed@.skip(i as int), prev_dash) == squashed_name(
                trimmed@,
                false,
            ),
        decreases n - i,
    {
        let ghost rest = trimmed@.skip(i as int);
        let ghost rest_next = trimmed@.skip(i + 1);
        proof {
            assert(rest.len() > 0);
            assert(rest[0] == trimmed@[i as int]);
            assert(rest.drop_first() =~= rest_next);
        }
        let c0 = trimmed.get_char(i);
        let c = lower_char_exec(c0);
        if is_ascii_alnum_exec(c) || c == '_' || c == '-' {
            proof {
                assert(squashed_name(rest, prev_dash) == seq![c] + squashed_name(
                    rest_next,
                    false,
                ));
                assert(out@.push(c) + squashed_name(rest_next, false) =~= out@ + squashed_name(
                    rest,
                    prev_dash,
                ));
            }
            out.push(c);
            prev_dash = false;
        } else if !prev_dash {
            proof {
                assert(squashed_name(rest, prev_dash) == seq!['-'] + squashed_name(
                    rest_next,
                    true,
                ));
                assert(out@.push('-') + squashed_name(rest_next, true) =~= out@ + squashed_name(
                    rest,
                    prev_dash,
                ));
            }
            out.push('-');
            prev_dash = true;
        } else {
            proof {
                assert(squashed_name(rest, prev_dash) == squashed_name(rest_next, true));
            }
        }
        i += 1;
    }
    proof {
        assert(trimmed@.skip(n as int) =~= Seq::<char>::empty());
        assert(out@ + Seq::<char>::empty() =~= out@);
    }
    let stripped = strip_back(strip_front(out.as_str(), '-'), '-');
    if stripped.unicode_len() == 0 {
        String::from_str("imported-skill")
    } else {
        stripped.to_owned()
    }
}

/// A relative path with its leading slashes and backslashes removed.
pub open spec fn relative_cleaned(s: Seq<char>) -> Seq<char> {
    strip_front_spec(strip_front_spec(s, '/'), '\\')
}

/// The raw (un-normalized) join of an optional home directory and a
/// relative path, the way the platform's path join writes it.
pub open spec fn home_joined_raw(home: Option<Seq<char>>, relative: Seq<char>) -> Seq<char> {
    let rel = relative_cleaned(relative);
    match home {
        Some(h) => if h.len() > 0 && h.last() == '/' {
            h + rel
        } else {
            h + "/"@ + rel
        },
        None => "/"@ + rel,
    }
}

/// Joins a relative path onto the home directory and normalizes the
/// result; with no home directory the path is rooted at `/`.
pub fn join_home_path(home: Option<&str>, relative: &str) -> (r: String)
    ensures
        r@ == normalized_path_spec(
            home_joined_raw(
                match home {
                    Some(h) => Some(h@),
                    None => None,
                },
                relative@,
            ),
        ),
{
    let joined = home_relative_path(home, relative);
    normalize_path(joined.as_str())
}

/// Joins a relative path onto the home directory without normalizing;
/// with no home directory the path is rooted at `/`.
pub fn home_relative_path(home: Option<&str>, relative: &str) -> (r: String)
    ensures
        r@ == home_joined_raw(
            match home {
                Some(h) => Some(h@),
                None => None,
            },
            relative@,
        ),
{
    let rel = strip_front(strip_front(relative, '/'), '\\');
    match home {
        Some(h) => {
            let hn = h.unicode_len();
            if hn > 0 && h.get_char(hn - 1) == '/' {
                String::from_str(h).concat(rel)
            } else {
                String::from_str(h).concat("/").concat(rel)
            }
        },
        None => String::from_str("/").concat(rel),
    }
}


/// How the platform's path join writes `base` joined with `rel`: an
/// absolute `rel` replaces the base, and a separator is added only
/// when the base does not already end with one.
pub open spec fn joined_path_spec(base: Seq<char>, rel: Seq<char>) -> Seq<char> {
    if rel.len() > 0 && rel[0] == '/' {
        rel
    } else if base.len() > 0 && base.last() == '/' {
        base + rel
    } else {
        base + "/"@ + rel
    }
}

/// Joins a relative path under a base path.
pub fn join_path(base: &str, rel: &str) -> (r: String)
    ensures
        r@ == joined_path_spec(base@, rel@),
{
    if rel.unicode_len() > 0 && rel.get_char(0) == '/' {
        rel.to_owned()
    } else {
        let bn = base.unicode_len();
        if bn > 0 && base.get_char(bn - 1) == '/' {
            String::from_str(base).concat(rel)
        } else {
            String::from_str(base).concat("/").concat(rel)
        }
    }
}

} // verus!
