//! Parsing of skill import locations: a repository URL, an optional
//! branch and subdirectory, and the safe skill name inferred from
//! them; and the choice of the source directory inside a fetched
//! repository.

use vstd::prelude::*;
use vstd::string::StrSliceExecFns;
use vstd::string::StringExecFns;
use crate::paths::joined_path_spec;
use crate::paths::join_path;
use crate::paths::path_tail;
use crate::paths::path_tail_spec;
use crate::paths::sanitize_skill_name;
use crate::paths::sanitized_name_spec;
use crate::strutil::find_char;
use crate::strutil::find_char_exec;
use crate::strutil::seq_views;
use crate::strutil::str_eq;
use crate::strutil::trim_ends;
use crate::strutil::trimmed_spec;

verus! {

/// The non-empty pieces of `s` split on `c`.
pub open spec fn segments_of(s: Seq<char>, c: char) -> Seq<Seq<char>>
    decreases s.len(),
{
    if s.len() == 0 {
        Seq::empty()
    } else {
        match find_char(s, c) {
            Some(i) => if 0 <= i < s.len() {
                (if i > 0 {
                    seq![s.take(i)]
                } else {
                    Seq::<Seq<char>>::empty()
                }) + segments_of(s.skip(i + 1), c)
            } else {
                seq![s]
            },
            None => seq![s],
        }
    }
}

/// Splits a string on `c`, dropping empty pieces.
pub fn split_segments(s: &str, c: char) -> (r: Vec<String>)
    ensures
        seq_views(r@) == segments_of(s@, c),
    decreases s@.len(),
{
    let n = s.unicode_len();
    let mut out: Vec<String> = Vec::new();
    if n == 0 {
        assert(seq_views(out@) =~= segments_of(s@, c));
        return out;
    }
    match find_char_exec(s, c) {
        Some(i) => {
            let tail = s.substring_char(i + 1, n);
            assert(tail@ =~= s@.skip(i + 1));
            let rest = split_segments(tail, c);
            if i > 0 {
                let head = s.substring_char(0, i);
                assert(head@ =~= s@.take(i as int));
                out.push(head.to_owned());
            }
            let ghost base = out@;
            let mut j: usize = 0;
            while j < rest.len()
                invariant
                    0 <= j <= rest@.len(),
                    out@ =~= base + rest@.take(j as int),
                decreases rest@.len() - j,
            {
                let item = rest[j].clone();
                out.push(item);
                assert(out@ =~= base + rest@.take(j + 1));
                j += 1;
            }
            proof {
                assert(rest@.take(rest@.len() as int) =~= rest@);
                assert(out@ =~= base + rest@);
                assert(seq_views(out@) =~= segments_of(s@, c));
            }
            out
        },
        None => {
            out.push(s.to_owned());
            assert(seq_views(out@) =~= segments_of(s@, c));
            out
        },
    }
}

/// The string with every trailing `.git` suffix removed.
pub open spec fn strip_git_suffix(s: Seq<char>) -> Seq<char>
    decreases s.len(),
{
    if s.len() >= 4 && s.subrange(s.len() - 4, s.len() as int) == ".git"@ {
        strip_git_suffix(s.take(s.len() - 4))
    } else {
        s
    }
}

fn strip_git_exec(s: &str) -> (r: &str)
    ensures
        r@ == strip_git_suffix(s@),
    decreases s@.len(),
{
    let n = s.unicode_len();
    if n >= 4 {
        let tail = s.substring_char(n - 4, n);
        proof {
            assert(tail@ =~= s@.subrange(s@.len() - 4, s@.len() as int));
        }
        if str_eq(tail, ".git") {
            let head = s.substring_char(0, n - 4);
            assert(head@ =~= s@.take(s@.len() - 4));
            return strip_git_exec(head);
        }
    }
    s
}

/// The segments from `i` on, joined with `/`.
pub open spec fn joined_from(ss: Seq<Seq<char>>, i: int) -> Seq<char>
    decreases ss.len() - i,
{
    if i < 0 || i >= ss.len() {
        Seq::empty()
    } else if i == ss.len() - 1 {
        ss[i]
    } else {
        ss[i] + "/"@ + joined_from(ss, i + 1)
    }
}

fn join_from(v: &Vec<String>, start: usize) -> (r: String)
    ensures
        r@ == joined_from(seq_views(v@), start as int),
    decreases v@.len() - start,
{
    if start >= v.len() {
        let r = String::new();
        assert(r@ =~= joined_from(seq_views(v@), start as int));
        r
    } else if start == v.len() - 1 {
        v[start].clone()
    } else {
        let rest = join_from(v, start + 1);
        v[start].clone().concat("/").concat(rest.as_str())
    }
}

/// Whether a trimmed URL points into the code-hosting site the import
/// understands structurally.
pub open spec fn is_github_url(t: Seq<char>) -> bool {
    t.len() >= 19 && t.take(19) == "https://github.com/"@
}

/// A parsed import location.
#[derive(Debug)]
pub struct ParsedImportSource {
    pub repo_url: String,
    pub source_url: String,
    pub branch: Option<String>,
    pub subdir: Option<String>,
    pub skill_name: String,
}

impl Clone for ParsedImportSource {
    fn clone(&self) -> (r: Self)
        ensures
            r.repo_url@ == self.repo_url@,
            r.source_url@ == self.source_url@,
            crate::records::opt_view(r.branch) == crate::records::opt_view(self.branch),
            crate::records::opt_view(r.subdir) == crate::records::opt_view(self.subdir),
            r.skill_name@ == self.skill_name@,
    {
        ParsedImportSource {
            repo_url: self.repo_url.clone(),
            source_url: self.source_url.clone(),
            branch: match &self.branch {
                Some(b) => Some(b.clone()),
                None => None,
            },
            subdir: match &self.subdir {
                Some(sd) => Some(sd.clone()),
                None => None,
            },
            skill_name: self.skill_name.clone(),
        }
    }
}

/// Parses an import URL.  A URL of the known hosting site is split
/// into owner, repository, optional branch (`/tree/<branch>`) and
/// subdirectory; anything else is taken as a bare repository URL.
/// The skill name is inferred from the subdirectory's last component,
/// or the repository name, and sanitized.
pub fn parse_skill_import_url(url: &str) -> (r: Result<ParsedImportSource, String>)
    ensures
        match r {
            Ok(p) => trimmed_spec(url@).len() > 0 && {
                let t = trimmed_spec(url@);
                if is_github_url(t) {
                    let segs = segments_of(t.skip(19), '/');
                    let repo = strip_git_suffix(segs[1]);
                    let has_branch = segs.len() >= 4 && segs[2] == "tree"@;
                    let has_subdir = has_branch && segs.len() > 4;
                    segs.len() >= 2 && p.repo_url@ == "https://github.com/"@ + segs[0] + "/"@
                        + repo + ".git"@ && p.source_url@ == t && (match p.branch {
                        Some(b) => has_branch && b@ == segs[3],
                        None => !has_branch,
                    }) && (match p.subdir {
                        Some(sd) => has_subdir && sd@ == joined_from(segs, 4),
                        None => !has_subdir,
                    }) && p.skill_name@ == sanitized_name_spec(
                        if has_subdir {
                            path_tail_spec(joined_from(segs, 4))
                        } else {
                            repo
                        },
                    )
                } else {
                    let segs = segments_of(t, '/');
                    p.repo_url@ == t && p.source_url@ == t && p.branch is None && p.subdir
                        is None && p.skill_name@ == sanitized_name_spec(
                        if segs.len() > 0 {
                            strip_git_suffix(segs.last())
                        } else {
                            "imported-skill"@
                        },
                    )
                }
            },
            Err(m) => if trimmed_spec(url@).len() == 0 {
                m@ == "Missing URL for import."@
            } else {
                is_github_url(trimmed_spec(url@)) && segments_of(
                    trimmed_spec(url@).skip(19),
                    '/',
                ).len() < 2 && m@ == "Invalid GitHub URL."@
            },
        },
{
    let trimmed = trim_ends(url);
    let tn = trimmed.unicode_len();
    if tn == 0 {
        return Err(String::from_str("Missing URL for import."));
    }
    proof {
        reveal_strlit("https://github.com/");
    }
    let is_github = if tn >= 19 {
        let head = trimmed.substring_char(0, 19);
        proof {
            assert(head@ =~= trimmed@.take(19));
        }
        str_eq(head, "https://github.com/")
    } else {
        false
    };
    if is_github {
        let path_part = trimmed.substring_char(19, tn);
        assert(path_part@ =~= trimmed@.skip(19));
        let segments = split_segments(path_part, '/');
        if segments.len() < 2 {
            return Err(String::from_str("Invalid GitHub URL."));
        }
        let repo = strip_git_exec(segments[1].as_str());
        let mut branch: Option<String> = None;
        let mut subdir: Option<String> = None;
        if segments.len() >= 4 && str_eq(segments[2].as_str(), "tree") {
            branch = Some(segments[3].clone());
            if segments.len() > 4 {
                subdir = Some(join_from(&segments, 4));
            }
        }
        let inferred: String = match &subdir {
            Some(sd) => path_tail(sd.as_str()),
            None => repo.to_owned(),
        };
        let repo_url = String::from_str("https://github.com/").concat(segments[0].as_str())
            .concat("/").concat(repo).concat(".git");
        Ok(
            ParsedImportSource {
                repo_url,
                source_url: trimmed.to_owned(),
                branch,
                subdir,
                skill_name: sanitize_skill_name(inferred.as_str()),
            },
        )
    } else {
        let segments = split_segments(trimmed, '/');
        let sn = segments.len();
        let inferred: String = if sn > 0 {
            strip_git_exec(segments[sn - 1].as_str()).to_owned()
        } else {
            String::from_str("imported-skill")
        };
        proof {
            if sn > 0 {
                assert(seq_views(segments@).last() == segments@[sn - 1]@);
            }
        }
        Ok(
            ParsedImportSource {
                repo_url: trimmed.to_owned(),
                source_url: trimmed.to_owned(),
                branch: None,
                subdir: None,
                skill_name: sanitize_skill_name(inferred.as_str()),
            },
        )
    }
}

/// Chooses the directory to import from inside a fetched repository:
/// the requested subdirectory when one was given (which must exist),
/// the repository root when it is itself a skill bundle, or the
/// single discovered skill directory; none or several discovered
/// skills are rejected.
pub fn select_import_source_path(
    temp_repo_path: &str,
    source: &ParsedImportSource,
    subdir_exists: bool,
    root_has_marker: bool,
    discovered: &Vec<String>,
) -> (r: Result<String, String>)
    ensures
        match r {
            Ok(path) => match source.subdir {
                Some(_) => subdir_exists && path@ == joined_path_spec(
                    temp_repo_path@,
                    source.subdir->Some_0@,
                ),
                None => if root_has_marker {
                    path@ == temp_repo_path@
                } else {
                    discovered@.len() == 1 && path@ == discovered@[0]@
                },
            },
            Err(m) => match source.subdir {
                Some(_) => !subdir_exists && m@ == "Import path does not exist in repository: "@
                    + source.subdir->Some_0@,
                None => !root_has_marker && (if discovered@.len() == 0 {
                    m@ == "No SKILL.md found in repository. Provide a direct skill subdirectory URL."@
                } else {
                    discovered@.len() > 1 && m@
                        == "Multiple skills found in repository. Provide a direct subdirectory URL."@
                }),
            },
        },
{
    match &source.subdir {
        Some(subdir) => {
            if !subdir_exists {
                return Err(
                    String::from_str("Import path does not exist in repository: ").concat(
                        subdir.as_str(),
                    ),
                );
            }
            Ok(join_path(temp_repo_path, subdir.as_str()))
        },
        None => {
            if root_has_marker {
                return Ok(temp_repo_path.to_owned());
            }
            if discovered.len() == 1 {
                return Ok(discovered[0].clone());
            }
            if discovered.len() == 0 {
                return Err(
                    String::from_str(
                        "No SKILL.md found in repository. Provide a direct skill subdirectory URL.",
                    ),
                );
            }
            Err(
                String::from_str(
                    "Multiple skills found in repository. Provide a direct subdirectory URL.",
                ),
            )
        },
    }
}

} // verus!
