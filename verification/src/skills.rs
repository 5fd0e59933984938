//! Skill bundles: the marker-file front-matter split, description
//! inference, per-project destination candidates, the synchronizer's
//! decision logic, skill creation, and the default agent definitions.

use vstd::prelude::*;
use vstd::string::StrSliceExecFns;
use vstd::string::StringExecFns;
use crate::envtext::split_lines;
use crate::envtext::split_lines_exec;
use crate::paths::join_path;
use crate::paths::joined_path_spec;
use crate::paths::normalize_path;
use crate::paths::normalized_path_spec;
use crate::paths::path_tail;
use crate::paths::path_tail_spec;
use crate::records::AgentConfig;
use crate::records::AgentConfigV;
use crate::strutil::eq_ignore_ascii_case;
use crate::strutil::eq_ignore_case_spec;
use crate::strutil::seq_views;
use crate::strutil::str_eq;
use crate::strutil::string_eq;
use crate::strutil::strip_front;
use crate::strutil::strip_front_spec;
use crate::strutil::trim_ends;
use crate::strutil::trimmed_spec;

verus! {

// ---------------------------------------------------------------------
// Front-matter splitting.
// ---------------------------------------------------------------------
/// Every `\r\n` pair replaced by a bare `\n`.
pub open spec fn crlf_mapped(s: Seq<char>) -> Seq<char>
    decreases s.len(),
{
    if s.len() == 0 {
        s
    } else if s.len() >= 2 && s[0] == '\r' && s[1] == '\n' {
        seq!['\n'] + crlf_mapped(s.skip(2))
    } else {
        seq![s[0]] + crlf_mapped(s.skip(1))
    }
}

fn map_crlf(raw: &str) -> (r: String)
    ensures
        r@ == crlf_mapped(raw@),
    decreases raw@.len(),
{
    let n = raw.unicode_len();
    if n == 0 {
        return String::new();
    }
    if n >= 2 && raw.get_char(0) == '\r' && raw.get_char(1) == '\n' {
        let rest = raw.substring_char(2, n);
        assert(rest@ =~= raw@.skip(2));
        let tail = map_crlf(rest);
        let mut out = String::new();
        out.push('\n');
        out.append(tail.as_str());
        assert(out@ =~= crlf_mapped(raw@));
        out
    } else {
        let rest = raw.substring_char(1, n);
        assert(rest@ =~= raw@.skip(1));
        let tail = map_crlf(rest);
        let mut out = String::new();
        out.push(raw.get_char(0));
        out.append(tail.as_str());
        assert(out@ =~= crlf_mapped(raw@));
        out
    }
}

/// The first index at which `pat` occurs in `s`, if any.
pub open spec fn find_sub(s: Seq<char>, pat: Seq<char>) -> Option<int>
    decreases s.len(),
{
    if s.len() < pat.len() {
        None
    } else if s.take(pat.len() as int) == pat {
        Some(0)
    } else if s.len() == 0 {
        None
    } else {
        match find_sub(s.drop_first(), pat) {
            Some(i) => Some(i + 1),
            None => None,
        }
    }
}

proof fn lemma_find_sub(s: Seq<char>, pat: Seq<char>)
    requires
        pat.len() > 0,
    ensures
        match find_sub(s, pat) {
            Some(i) => 0 <= i && i + pat.len() <= s.len() && s.subrange(i, i + pat.len())
                == pat && forall|j: int|
                0 <= j < i ==> #[trigger] s.subrange(j, j + pat.len()) != pat,
            None => forall|j: int|
                0 <= j && j + pat.len() <= s.len() ==> #[trigger] s.subrange(j, j + pat.len())
                    != pat,
        },
    decreases s.len(),
{
    if s.len() >= pat.len() && s.take(pat.len() as int) == pat {
        assert(s.subrange(0, pat.len() as int) =~= s.take(pat.len() as int));
    } else if s.len() < pat.len() {
        assert forall|j: int| 0 <= j && j + pat.len() <= s.len() implies #[trigger] s.subrange(
            j,
            j + pat.len(),
        ) != pat by {}
    } else {
        let rest = s.drop_first();
        lemma_find_sub(rest, pat);
        assert(s.take(pat.len() as int) =~= s.subrange(0, pat.len() as int));
        assert forall|j: int|
            0 <= j && j + pat.len() <= rest.len() implies #[trigger] rest.subrange(
            j,
            j + pat.len(),
        ) =~= s.subrange(j + 1, j + 1 + pat.len()) by {}
        match find_sub(rest, pat) {
            Some(i) => {
                assert(rest.subrange(i, i + pat.len()) == pat);
                assert(s.subrange(i + 1, i + 1 + pat.len()) =~= rest.subrange(i, i + pat.len()));
                assert forall|j: int| 0 <= j < i + 1 implies #[trigger] s.subrange(
                    j,
                    j + pat.len(),
                ) != pat by {
                    if j > 0 {
                        assert(rest.subrange(j - 1, j - 1 + pat.len()) != pat);
                        assert(s.subrange(j, j + pat.len()) =~= rest.subrange(
                            j - 1,
                            j - 1 + pat.len(),
                        ));
                    }
                }
            },
            None => {
                assert forall|j: int|
                    0 <= j && j + pat.len() <= s.len() implies #[trigger] s.subrange(
                    j,
                    j + pat.len(),
                ) != pat by {
                    if j > 0 {
                        assert(rest.subrange(j - 1, j - 1 + pat.len()) != pat);
                        assert(s.subrange(j, j + pat.len()) =~= rest.subrange(
                            j - 1,
                            j - 1 + pat.len(),
                        ));
                    }
                }
            },
        }
    }
}

fn find_sub_exec(s: &str, pat: &str) -> (r: Option<usize>)
    requires
        pat@.len() > 0,
    ensures
        match r {
            Some(i) => find_sub(s@, pat@) == Some(i as int) && i + pat@.len() <= s@.len(),
            None => find_sub(s@, pat@) is None,
        },
{
    proof {
        lemma_find_sub(s@, pat@);
    }
    let n = s.unicode_len();
    let m = pat.unicode_len();
    if n < m {
        return None;
    }
    let mut i: usize = 0;
    while i <= n - m
        invariant
            0 <= i <= n - m + 1,
            m >= 1,
            m <= n,
            n == s@.len(),
            m == pat@.len(),
            forall|j: int| 0 <= j < i ==> #[trigger] s@.subrange(j, j + pat@.len()) != pat@,
        decreases n + 1 - m - i,
    {
        let window = s.substring_char(i, i + m);
        if str_eq(window, pat) {
            proof {
                lemma_find_sub(s@, pat@);
                assert(window@ =~= s@.subrange(i as int, i as int + pat@.len()));
                match find_sub(s@, pat@) {
                    Some(fi) => {
                        if fi < i as int {
                            assert(s@.subrange(fi, fi + pat@.len()) != pat@);
                        }
                        if fi > i as int {
                            assert(s@.subrange(i as int, i as int + pat@.len()) != pat@);
                        }
                    },
                    None => {
                        assert(s@.subrange(i as int, i as int + pat@.len()) != pat@);
                    },
                }
            }
            return Some(i);
        }
        proof {
            assert(window@ =~= s@.subrange(i as int, i as int + pat@.len()));
        }
        i += 1;
    }
    None
}

/// How a raw marker file splits: the text between the opening
/// `---` line and the closing one (over `\r\n`-normalized text), and
/// the body after it — or nothing, when no front-matter block opens
/// and closes the file.
pub open spec fn split_frontmatter_spec(raw: Seq<char>) -> Option<(Seq<char>, Seq<char>)> {
    let normalized = crlf_mapped(raw);
    if !(normalized.len() >= 4 && normalized.take(4) == "---\n"@) {
        None
    } else {
        let remaining = normalized.skip(4);
        match find_sub(remaining, "\n---\n"@) {
            Some(e) => Some((remaining.take(e), remaining.skip(e + 5))),
            None => None,
        }
    }
}

/// Splits a marker file into front-matter text and body; a file
/// without a complete front-matter block yields nothing and is all
/// body.
pub fn split_frontmatter(raw: &str) -> (r: Option<(String, String)>)
    ensures
        match r {
            Some((front, body)) => split_frontmatter_spec(raw@) == Some((front@, body@)),
            None => split_frontmatter_spec(raw@) is None,
        },
{
    let normalized = map_crlf(raw);
    let n = normalized.as_str().unicode_len();
    if n < 4 {
        return None;
    }
    let head = normalized.as_str().substring_char(0, 4);
    proof {
        assert(head@ =~= crlf_mapped(raw@).take(4));
    }
    if !str_eq(head, "---\n") {
        return None;
    }
    let remaining = normalized.as_str().substring_char(4, n);
    proof {
        assert(remaining@ =~= crlf_mapped(raw@).skip(4));
    }
    proof {
        reveal_strlit("\n---\n");
    }
    match find_sub_exec(remaining, "\n---\n") {
        Some(e) => {
            let front = remaining.substring_char(0, e);
            let rn = remaining.unicode_len();
            let body = remaining.substring_char(e + 5, rn);
            proof {
                assert(front@ =~= remaining@.take(e as int));
                assert(body@ =~= remaining@.skip(e as int + 5));
            }
            Some((front.to_owned(), body.to_owned()))
        },
        None => None,
    }
}

/// The inferred description of a skill: its first non-blank line,
/// with leading `#` marks and surrounding whitespace removed.
pub open spec fn inferred_description(lines: Seq<Seq<char>>) -> Seq<char>
    decreases lines.len(),
{
    if lines.len() == 0 {
        Seq::empty()
    } else {
        let t = trimmed_spec(lines[0]);
        if t.len() == 0 {
            inferred_description(lines.drop_first())
        } else {
            trimmed_spec(strip_front_spec(t, '#'))
        }
    }
}

/// Infers a description from markdown: the first non-blank line,
/// without heading marks.
pub fn infer_description(markdown: &str) -> (r: String)
    ensures
        r@ == inferred_description(split_lines(markdown@)),
{
    let lines = split_lines_exec(markdown);
    let n = lines.len();
    let mut i: usize = 0;
    proof {
        assert(seq_views(lines@).skip(0) =~= seq_views(lines@));
    }
    while i < n
        invariant
            0 <= i <= n,
            n == lines@.len(),
            seq_views(lines@) == split_lines(markdown@),
            inferred_description(seq_views(lines@).skip(i as int)) == inferred_description(
                seq_views(lines@),
            ),
        decreases n - i,
    {
        let ghost rest = seq_views(lines@).skip(i as int);
        proof {
            assert(rest[0] == lines@[i as int]@);
            assert(rest.drop_first() =~= seq_views(lines@).skip(i + 1));
        }
        let trimmed = trim_ends(lines[i].as_str());
        if trimmed.unicode_len() > 0 {
            return trim_ends(strip_front(trimmed, '#')).to_owned();
        }
        i += 1;
    }
    proof {
        assert(seq_views(lines@).skip(n as int) =~= Seq::<Seq<char>>::empty());
    }
    String::new()
}

// ---------------------------------------------------------------------
// Destination candidates.
// ---------------------------------------------------------------------
/// The destination parents a project offers an agent: the agent's own
/// project-relative directory, and for the `codex` agent also the
/// `.agents/skills` alias, deduplicated.
pub open spec fn candidate_paths_spec(project: Seq<char>, agent: AgentConfigV) -> Seq<Seq<char>> {
    let rel = trimmed_spec(agent.project_path);
    let first = joined_path_spec(project, rel);
    if eq_ignore_case_spec(agent.name, "codex"@) && rel != ".agents/skills"@ {
        seq![first, joined_path_spec(project, ".agents/skills"@)]
    } else {
        seq![first]
    }
}

/// The candidate skill-parent directories of a project for one agent.
pub fn project_skill_parent_candidates(project_path: &str, agent: &AgentConfig) -> (r: Vec<
    String,
>)
    ensures
        seq_views(r@) == candidate_paths_spec(project_path@, agent@),
{
    let rel = trim_ends(agent.project_path.as_str());
    let first = join_path(project_path, rel);
    let mut out: Vec<String> = Vec::new();
    if eq_ignore_ascii_case(agent.name.as_str(), "codex") && !str_eq(rel, ".agents/skills") {
        let second = join_path(project_path, ".agents/skills");
        out.push(first);
        out.push(second);
        assert(seq_views(out@) =~= candidate_paths_spec(project_path@, agent@));
    } else {
        out.push(first);
        assert(seq_views(out@) =~= candidate_paths_spec(project_path@, agent@));
    }
    out
}

// ---------------------------------------------------------------------
// The synchronizer's decision.
// ---------------------------------------------------------------------
/// What a skill synchronisation will do, decided before any file is
/// touched.
#[derive(Debug)]
pub struct SyncPlan {
    /// The normalized destination directory.
    pub destination: String,
    /// No file may be touched: source and destination are the same
    /// path, and the destination is returned as is.
    pub no_op: bool,
}

/// The normalized destination of a synchronisation.
pub open spec fn sync_destination_spec(source: Seq<char>, parent: Seq<char>) -> Seq<char> {
    normalized_path_spec(joined_path_spec(parent, path_tail_spec(source)))
}

/// Decides a skill synchronisation from the source path, the
/// destination parent, and the two source probes.  A missing source
/// or marker file is rejected; a destination that equals the
/// normalized source is a no-op, so an idempotent re-sync touches
/// nothing.
pub fn sync_plan(
    source_path: &str,
    destination_parent: &str,
    source_exists: bool,
    has_marker: bool,
) -> (r: Result<SyncPlan, String>)
    ensures
        match r {
            Ok(plan) => source_exists && has_marker && plan.destination@ == sync_destination_spec(
                source_path@,
                destination_parent@,
            ) && plan.no_op == (normalized_path_spec(source_path@) == plan.destination@),
            Err(m) => if !source_exists {
                m@ == "Skill path does not exist: "@ + source_path@
            } else {
                !has_marker && m@ == "SKILL.md not found in "@ + source_path@
            },
        },
{
    if !source_exists {
        return Err(String::from_str("Skill path does not exist: ").concat(source_path));
    }
    if !has_marker {
        return Err(String::from_str("SKILL.md not found in ").concat(source_path));
    }
    let tail = path_tail(source_path);
    let destination = normalize_path(join_path(destination_parent, tail.as_str()).as_str());
    let normalized_source = normalize_path(source_path);
    let no_op = string_eq(&normalized_source, &destination);
    Ok(SyncPlan { destination, no_op })
}

// ---------------------------------------------------------------------
// Skill creation.
// ---------------------------------------------------------------------
/// Every newline replaced by a space.
pub open spec fn newlines_flattened(s: Seq<char>) -> Seq<char> {
    Seq::new(s.len(), |i: int| if s[i] == '\n' { ' ' } else { s[i] })
}

/// The marker-file text a created skill gets: the content itself when
/// it already opens with a front-matter fence, else a generated
/// front-matter of the trimmed name and flattened description
/// followed by the content.
pub open spec fn skill_file_content_spec(
    name: Seq<char>,
    description: Seq<char>,
    content: Seq<char>,
) -> Seq<char> {
    let lead = trim_front_of(content);
    if lead.len() >= 3 && lead.take(3) == "---"@ {
        content
    } else {
        "---\nname: "@ + trimmed_spec(name) + "\ndescription: "@ + newlines_flattened(
            trimmed_spec(description),
        ) + "\n---\n\n"@ + content + "\n"@
    }
}

/// The sequence with leading whitespace removed (alias used by the
/// front-matter check).
pub open spec fn trim_front_of(s: Seq<char>) -> Seq<char> {
    crate::strutil::trim_front_spec(s)
}

fn flatten_newlines(s: &str) -> (r: String)
    ensures
        r@ == newlines_flattened(s@),
{
    let n = s.unicode_len();
    let mut out = String::new();
    let mut i: usize = 0;
    while i < n
        invariant
            0 <= i <= n,
            n == s@.len(),
            out@ =~= newlines_flattened(s@).take(i as int),
        decreases n - i,
    {
        let c = s.get_char(i);
        if c == '\n' {
            out.push(' ');
        } else {
            out.push(c);
        }
        assert(out@ =~= newlines_flattened(s@).take(i + 1));
        i += 1;
    }
    assert(out@ =~= newlines_flattened(s@));
    out
}

/// Validates a skill creation request and assembles the safe
/// directory name and the marker-file text to write.
pub fn skill_create_content(name: &str, description: &str, content: String) -> (r: Result<
    (String, String),
    String,
>)
    ensures
        match r {
            Ok((safe_name, file_content)) => trimmed_spec(name@).len() > 0 && trimmed_spec(
                content@,
            ).len() > 0 && safe_name@ == crate::paths::sanitized_name_spec(name@)
                && file_content@ == skill_file_content_spec(name@, description@, content@),
            Err(m) => if trimmed_spec(name@).len() == 0 {
                m@ == "Name is required."@
            } else {
                trimmed_spec(content@).len() == 0 && m@ == "Content is required."@
            },
        },
{
    if trim_ends(name).unicode_len() == 0 {
        return Err(String::from_str("Name is required."));
    }
    if trim_ends(content.as_str()).unicode_len() == 0 {
        return Err(String::from_str("Content is required."));
    }
    let safe_name = crate::paths::sanitize_skill_name(name);
    let lead = crate::strutil::trim_front(content.as_str());
    let starts_with_fence = if lead.unicode_len() >= 3 {
        let head = lead.substring_char(0, 3);
        proof {
            assert(head@ =~= trim_front_of(content@).take(3));
        }
        str_eq(head, "---")
    } else {
        false
    };
    if starts_with_fence {
        Ok((safe_name, content))
    } else {
        let flattened = flatten_newlines(trim_ends(description));
        let file_content = String::from_str("---\nname: ").concat(trim_ends(name)).concat(
            "\ndescription: ",
        ).concat(flattened.as_str()).concat("\n---\n\n").concat(content.as_str()).concat("\n");
        Ok((safe_name, file_content))
    }
}

// ---------------------------------------------------------------------
// Default agents.
// ---------------------------------------------------------------------
/// One built-in agent definition.
pub open spec fn default_agent_spec(
    home: Option<Seq<char>>,
    name: Seq<char>,
    global_rel: Seq<char>,
    project_rel: Seq<char>,
    enabled: bool,
) -> AgentConfigV {
    AgentConfigV {
        name,
        global_path: normalized_path_spec(crate::paths::home_joined_raw(home, global_rel)),
        project_path: project_rel,
        enabled,
        is_custom: false,
    }
}

/// The built-in agent definitions, with their global skill
/// directories rooted under the home directory.
pub fn default_agents(home: Option<&str>) -> (r: Vec<AgentConfig>)
    ensures
        ({
            let h = match home {
                Some(s) => Some(s@),
                None => None,
            };
            r@.len() == 5 && r@[0]@ == default_agent_spec(
                h,
                "Antigravity"@,
                ".gemini/antigravity/skills"@,
                ".agent/skills"@,
                true,
            ) && r@[1]@ == default_agent_spec(
                h,
                "ToolA Code"@,
                ".toola/skills"@,
                ".toola/skills"@,
                true,
            ) && r@[2]@ == default_agent_spec(
                h,
                "Cursor"@,
                ".cursor/skills"@,
                ".cursor/skills"@,
                true,
            ) && r@[3]@ == default_agent_spec(
                h,
                "Codex"@,
                ".codex/skills"@,
                ".codex/skills"@,
                true,
            ) && r@[4]@ == default_agent_spec(
                h,
                "Gemini CLI"@,
                ".gemini/skills"@,
                ".gemini/skills"@,
                false,
            )
        }),
{
    let mut out: Vec<AgentConfig> = Vec::new();
    out.push(
        AgentConfig {
            name: String::from_str("Antigravity"),
            global_path: crate::paths::join_home_path(home, ".gemini/antigravity/skills"),
            project_path: String::from_str(".agent/skills"),
            enabled: true,
            is_custom: false,
        },
    );
    out.push(
        AgentConfig {
            name: String::from_str("ToolA Code"),
            global_path: crate::paths::join_home_path(home, ".toola/skills"),
            project_path: String::from_str(".toola/skills"),
            enabled: true,
            is_custom: false,
        },
    );
    out.push(
        AgentConfig {
            name: String::from_str("Cursor"),
            global_path: crate::paths::join_home_path(home, ".cursor/skills"),
            project_path: String::from_str(".cursor/skills"),
            enabled: true,
            is_custom: false,
        },
    );
    out.push(
        AgentConfig {
            name: String::from_str("Codex"),
            global_path: crate::paths::join_home_path(home, ".codex/skills"),
            project_path: String::from_str(".codex/skills"),
            enabled: true,
            is_custom: false,
        },
    );
    out.push(
        AgentConfig {
            name: String::from_str("Gemini CLI"),
            global_path: crate::paths::join_home_path(home, ".gemini/skills"),
            project_path: String::from_str(".gemini/skills"),
            enabled: false,
            is_custom: false,
        },
    );
    out
}

} // verus!
