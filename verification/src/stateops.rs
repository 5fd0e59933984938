//! Configuration-state operations: tracked projects, scan roots,
//! agent definitions and related bookkeeping.

use vstd::prelude::*;
use vstd::string::StrSliceExecFns;
use vstd::string::StringExecFns;
use crate::envtext::sort_keys;
use crate::envtext::sort_keys_exec;
use crate::paths::normalize_path;
use crate::paths::normalized_path_spec;
use crate::records::AgentConfig;
use crate::records::AgentConfigV;
use crate::records::DesktopState;
use crate::records::SkillDocument;
use crate::records::agent_views;
use crate::records::clone_string_vec;
use crate::records::string_views;
use crate::strutil::lower_char;
use crate::strutil::lower_char_exec;
use crate::strutil::str_eq;
use crate::strutil::string_eq;
use crate::strutil::trim_ends;
use crate::strutil::trimmed_spec;

verus! {

fn find_agent_name(agents: &Vec<AgentConfig>, name: &str) -> (r: Option<usize>)
    ensures
        match r {
            Some(i) => i < agents@.len() && agents@[i as int].name@ == name@ && (forall|j: int|
                0 <= j < i ==> (#[trigger] agents@[j]).name@ != name@),
            None => forall|j: int| 0 <= j < agents@.len() ==> (#[trigger] agents@[j]).name@ != name@,
        },
{
    let n = agents.len();
    let mut i: usize = 0;
    while i < n
        invariant
            0 <= i <= n,
            n == agents@.len(),
            forall|j: int| 0 <= j < i ==> (#[trigger] agents@[j]).name@ != name@,
        decreases n - i,
    {
        if str_eq(agents[i].name.as_str(), name) {
            return Some(i);
        }
        i += 1;
    }
    None
}

/// Whether the list holds an entry that normalizes to `p`.
pub open spec fn contains_normalized(entries: Seq<Seq<char>>, p: Seq<char>) -> bool {
    exists|i: int| 0 <= i < entries.len() && normalized_path_spec(#[trigger] entries[i]) == p
}

fn find_normalized(entries: &Vec<String>, p: &String) -> (r: Option<usize>)
    ensures
        match r {
            Some(i) => i < entries@.len() && normalized_path_spec(entries@[i as int]@) == p@,
            None => !contains_normalized(string_views(entries@), p@),
        },
{
    let n = entries.len();
    let mut i: usize = 0;
    while i < n
        invariant
            0 <= i <= n,
            n == entries@.len(),
            forall|j: int|
                0 <= j < i ==> normalized_path_spec(#[trigger] entries@[j]@) != p@,
        decreases n - i,
    {
        let normalized = normalize_path(entries[i].as_str());
        if string_eq(&normalized, p) {
            return Some(i);
        }
        i += 1;
    }
    proof {
        assert forall|j: int|
            0 <= j < string_views(entries@).len() implies normalized_path_spec(
            #[trigger] string_views(entries@)[j],
        ) != p@ by {
            assert(string_views(entries@)[j] == entries@[j]@);
        }
    }
    None
}

/// Adds a project path: the path is normalized, must not be the
/// filesystem root, must lie inside a git work tree (probed by the
/// caller), and is inserted — keeping the list sorted — unless an
/// entry already normalizes to it.
pub fn project_add(state: &mut DesktopState, project_path: &str, in_git_work_tree: bool) -> (r:
    Result<String, String>)
    ensures
        match r {
            Ok(p) => {
                let norm = normalized_path_spec(project_path@);
                norm != "/"@ && in_git_work_tree && p@ == norm && string_views(
                    final(state).config.projects@,
                ) == (if contains_normalized(string_views(old(state).config.projects@), norm) {
                    string_views(old(state).config.projects@)
                } else {
                    sort_keys(string_views(old(state).config.projects@).push(norm))
                })
            },
            Err(m) => *final(state) == *old(state) && (if normalized_path_spec(project_path@)
                == "/"@ {
                m@ == "Project path is required."@
            } else {
                !in_git_work_tree && m@ == "Only git repositories can be added as projects."@
            }),
        },
        final(state).providers == old(state).providers,
        final(state).provider_backups == old(state).provider_backups,
        final(state).kits == old(state).kits,
        final(state).config.scan_roots == old(state).config.scan_roots,
        final(state).config.agents == old(state).config.agents,
        final(state).config.hub_path == old(state).config.hub_path,
{
    let normalized = normalize_path(project_path);
    if str_eq(normalized.as_str(), "/") {
        return Err(String::from_str("Project path is required."));
    }
    if !in_git_work_tree {
        return Err(String::from_str("Only git repositories can be added as projects."));
    }
    match find_normalized(&state.config.projects, &normalized) {
        Some(idx) => {
            proof {
                assert(string_views(state.config.projects@)[idx as int] == state.config.projects@[
                    idx as int]@);
                assert(contains_normalized(
                    string_views(state.config.projects@),
                    normalized@,
                ));
            }
            Ok(normalized)
        },
        None => {
            let result = normalized.clone();
            let mut projects = clone_string_vec(&state.config.projects);
            projects.push(normalized);
            proof {
                assert(string_views(projects@) =~= string_views(
                    old(state).config.projects@,
                ).push(result@));
            }
            state.config.projects = sort_keys_exec(projects);
            Ok(result)
        },
    }
}

/// Removes every project entry that normalizes to the given path;
/// reports whether anything was removed.
pub fn project_remove(state: &mut DesktopState, project_path: &str) -> (r: bool)
    ensures
        string_views(final(state).config.projects@) == string_views(
            old(state).config.projects@,
        ).filter(
            |p: Seq<char>| normalized_path_spec(p) != normalized_path_spec(project_path@),
        ),
        r == contains_normalized(
            string_views(old(state).config.projects@),
            normalized_path_spec(project_path@),
        ),
        final(state).providers == old(state).providers,
        final(state).config.scan_roots == old(state).config.scan_roots,
        final(state).config.agents == old(state).config.agents,
        final(state).config.hub_path == old(state).config.hub_path,
{
    let normalized = normalize_path(project_path);
    let ghost views = string_views(state.config.projects@);
    let ghost pred = |p: Seq<char>| normalized_path_spec(p) != normalized_path_spec(
        project_path@,
    );
    let n = state.config.projects.len();
    let mut kept: Vec<String> = Vec::new();
    let mut removed = false;
    let mut i: usize = 0;
    proof {
        assert(views.take(0) =~= Seq::<Seq<char>>::empty());
        reveal_with_fuel(Seq::filter, 1);
        assert(string_views(kept@) =~= views.take(0).filter(pred));
    }
    while i < n
        invariant
            0 <= i <= n,
            n == state.config.projects@.len(),
            views == string_views(state.config.projects@),
            normalized@ == normalized_path_spec(project_path@),
            pred == (|p: Seq<char>|
                normalized_path_spec(p) != normalized_path_spec(project_path@)),
            string_views(kept@) == views.take(i as int).filter(pred),
            removed == exists|j: int|
                0 <= j < i && normalized_path_spec(#[trigger] views[j]) == normalized_path_spec(
                    project_path@,
                ),
        decreases n - i,
    {
        let ghost vprefix = views.take(i as int);
        let ghost vprefix_next = views.take(i + 1);
        proof {
            assert(vprefix_next.drop_last() =~= vprefix);
            assert(vprefix_next.last() == views[i as int]);
            reveal_with_fuel(Seq::filter, 2);
        }
        let entry_normalized = normalize_path(state.config.projects[i].as_str());
        if !string_eq(&entry_normalized, &normalized) {
            kept.push(state.config.projects[i].clone());
            assert(string_views(kept@) =~= vprefix.filter(pred).push(views[i as int]));
        } else {
            removed = true;
            assert(!pred(views[i as int]));
        }
        i += 1;
    }
    proof {
        assert(views.take(n as int) =~= views);
    }
    state.config.projects = kept;
    removed
}

/// Adds a scan root, like [`project_add`] but without the git
/// requirement.
pub fn scan_root_add(state: &mut DesktopState, root_path: &str) -> (r: Result<String, String>)
    ensures
        match r {
            Ok(p) => {
                let norm = normalized_path_spec(root_path@);
                norm != "/"@ && p@ == norm && string_views(final(state).config.scan_roots@) == (
                if contains_normalized(string_views(old(state).config.scan_roots@), norm) {
                    string_views(old(state).config.scan_roots@)
                } else {
                    sort_keys(string_views(old(state).config.scan_roots@).push(norm))
                })
            },
            Err(m) => *final(state) == *old(state) && normalized_path_spec(root_path@) == "/"@
                && m@ == "Workspace path is required."@,
        },
        final(state).providers == old(state).providers,
        final(state).config.projects == old(state).config.projects,
        final(state).config.agents == old(state).config.agents,
        final(state).config.hub_path == old(state).config.hub_path,
{
    let normalized = normalize_path(root_path);
    if str_eq(normalized.as_str(), "/") {
        return Err(String::from_str("Workspace path is required."));
    }
    match find_normalized(&state.config.scan_roots, &normalized) {
        Some(idx) => {
            proof {
                assert(string_views(state.config.scan_roots@)[idx as int] == state.config.scan_roots@[
                    idx as int]@);
                assert(contains_normalized(
                    string_views(state.config.scan_roots@),
                    normalized@,
                ));
            }
            Ok(normalized)
        },
        None => {
            let result = normalized.clone();
            let mut roots = clone_string_vec(&state.config.scan_roots);
            roots.push(normalized);
            proof {
                assert(string_views(roots@) =~= string_views(
                    old(state).config.scan_roots@,
                ).push(result@));
            }
            state.config.scan_roots = sort_keys_exec(roots);
            Ok(result)
        },
    }
}

/// Removes every scan root that normalizes to the given path.
pub fn scan_root_remove(state: &mut DesktopState, root_path: &str) -> (r: bool)
    ensures
        string_views(final(state).config.scan_roots@) == string_views(
            old(state).config.scan_roots@,
        ).filter(
            |p: Seq<char>| normalized_path_spec(p) != normalized_path_spec(root_path@),
        ),
        r == contains_normalized(
            string_views(old(state).config.scan_roots@),
            normalized_path_spec(root_path@),
        ),
        final(state).providers == old(state).providers,
        final(state).config.projects == old(state).config.projects,
        final(state).config.agents == old(state).config.agents,
        final(state).config.hub_path == old(state).config.hub_path,
{
    let normalized = normalize_path(root_path);
    let ghost views = string_views(state.config.scan_roots@);
    let ghost pred = |p: Seq<char>| normalized_path_spec(p) != normalized_path_spec(root_path@);
    let n = state.config.scan_roots.len();
    let mut kept: Vec<String> = Vec::new();
    let mut removed = false;
    let mut i: usize = 0;
    proof {
        assert(views.take(0) =~= Seq::<Seq<char>>::empty());
        reveal_with_fuel(Seq::filter, 1);
        assert(string_views(kept@) =~= views.take(0).filter(pred));
    }
    while i < n
        invariant
            0 <= i <= n,
            n == state.config.scan_roots@.len(),
            views == string_views(state.config.scan_roots@),
            normalized@ == normalized_path_spec(root_path@),
            pred == (|p: Seq<char>|
                normalized_path_spec(p) != normalized_path_spec(root_path@)),
            string_views(kept@) == views.take(i as int).filter(pred),
            removed == exists|j: int|
                0 <= j < i && normalized_path_spec(#[trigger] views[j]) == normalized_path_spec(
                    root_path@,
                ),
        decreases n - i,
    {
        let ghost vprefix = views.take(i as int);
        let ghost vprefix_next = views.take(i + 1);
        proof {
            assert(vprefix_next.drop_last() =~= vprefix);
            assert(vprefix_next.last() == views[i as int]);
            reveal_with_fuel(Seq::filter, 2);
        }
        let entry_normalized = normalize_path(state.config.scan_roots[i].as_str());
        if !string_eq(&entry_normalized, &normalized) {
            kept.push(state.config.scan_roots[i].clone());
            assert(string_views(kept@) =~= vprefix.filter(pred).push(views[i as int]));
        } else {
            removed = true;
            assert(!pred(views[i as int]));
        }
        i += 1;
    }
    proof {
        assert(views.take(n as int) =~= views);
    }
    state.config.scan_roots = kept;
    removed
}

/// One step of adding scanned candidates: a candidate already present
/// (entry-wise, after normalizing the stored entries) is passed over,
/// a new one is appended.
pub open spec fn scanned_fold(
    projects: Seq<Seq<char>>,
    candidates: Seq<Seq<char>>,
    added: int,
) -> (Seq<Seq<char>>, int)
    decreases candidates.len(),
{
    if candidates.len() == 0 {
        (projects, added)
    } else {
        let c = candidates[0];
        if contains_normalized(projects, normalized_path_spec(c)) {
            scanned_fold(projects, candidates.drop_first(), added)
        } else {
            scanned_fold(projects.push(c), candidates.drop_first(), added + 1)
        }
    }
}

/// Adds the candidate project paths that are not yet tracked and
/// reports how many were added; the list is re-sorted when anything
/// was.  The caller supplies candidates already normalized, sorted
/// and de-duplicated, and filtered to git work trees.
pub fn scanned_projects_add(state: &mut DesktopState, candidates: Vec<String>) -> (r: i64)
    requires
        candidates@.len() <= 0x7fffffffffffffff,
    ensures
        ({
            let outcome = scanned_fold(
                string_views(old(state).config.projects@),
                string_views(candidates@),
                0,
            );
            r == outcome.1 && string_views(final(state).config.projects@) == (if outcome.1 > 0 {
                sort_keys(outcome.0)
            } else {
                outcome.0
            })
        }),
        final(state).providers == old(state).providers,
        final(state).config.scan_roots == old(state).config.scan_roots,
        final(state).config.agents == old(state).config.agents,
        final(state).config.hub_path == old(state).config.hub_path,
{
    let ghost cviews = string_views(candidates@);
    let n = candidates.len();
    let mut added: i64 = 0;
    let mut projects = clone_string_vec(&state.config.projects);
    let mut i: usize = 0;
    proof {
        assert(cviews.skip(0) =~= cviews);
    }
    while i < n
        invariant
            0 <= i <= n,
            n == candidates@.len(),
            candidates@.len() <= 0x7fffffffffffffff,
            cviews == string_views(candidates@),
            0 <= added <= i,
            scanned_fold(string_views(projects@), cviews.skip(i as int), added as int)
                == scanned_fold(
                string_views(old(state).config.projects@),
                cviews,
                0,
            ),
        decreases n - i,
    {
        let ghost rest = cviews.skip(i as int);
        proof {
            assert(rest[0] == candidates@[i as int]@);
            assert(rest.drop_first() =~= cviews.skip(i + 1));
        }
        let candidate = &candidates[i];
        let normalized = normalize_path(candidate.as_str());
        match find_normalized(&projects, &normalized) {
            Some(idx) => {
                proof {
                    assert(string_views(projects@)[idx as int] == projects@[idx as int]@);
                    assert(contains_normalized(
                        string_views(projects@),
                        normalized_path_spec(rest[0]),
                    ));
                }
            },
            None => {
                let ghost before = string_views(projects@);
                proof {
                    assert(!contains_normalized(before, normalized_path_spec(rest[0])));
                }
                projects.push(candidate.clone());
                proof {
                    assert(string_views(projects@) =~= before.push(candidates@[i as int]@));
                }
                added = added + 1;
            },
        }
        i += 1;
    }
    proof {
        assert(cviews.skip(n as int) =~= Seq::<Seq<char>>::empty());
    }
    if added > 0 {
        state.config.projects = sort_keys_exec(projects);
    } else {
        state.config.projects = projects;
    }
    added
}

/// Validates and stores an agent definition: the name and the
/// project-relative path are trimmed and must be non-blank, the
/// global path is normalized and must not be the filesystem root.
/// An agent of the same name is replaced in place; a new one is
/// appended.
pub fn agent_config_update(state: &mut DesktopState, agent: AgentConfig) -> (r: Result<(), String>)
    ensures
        match r {
            Ok(()) => {
                let name = trimmed_spec(agent.name@);
                let normalized = AgentConfigV {
                    name,
                    global_path: normalized_path_spec(agent.global_path@),
                    project_path: trimmed_spec(agent.project_path@),
                    enabled: agent.enabled,
                    is_custom: agent.is_custom,
                };
                name.len() > 0 && normalized.global_path != "/"@ && normalized.project_path.len()
                    > 0 && {
                    let av = agent_views(old(state).config.agents@);
                    if exists|i: int| 0 <= i < av.len() && (#[trigger] av[i]).name == name {
                        exists|i: int|
                            0 <= i < av.len() && (#[trigger] av[i]).name == name && (forall|
                                j: int,
                            | 0 <= j < i ==> (#[trigger] av[j]).name != name) && agent_views(
                                final(state).config.agents@,
                            ) == av.update(i, normalized)
                    } else {
                        agent_views(final(state).config.agents@) == av.push(normalized)
                    }
                }
            },
            Err(m) => *final(state) == *old(state) && (if trimmed_spec(agent.name@).len() == 0 {
                m@ == "Agent name is required."@
            } else if normalized_path_spec(agent.global_path@) == "/"@ {
                m@ == "Agent global path is required."@
            } else {
                trimmed_spec(agent.project_path@).len() == 0 && m@
                    == "Agent project path is required."@
            }),
        },
        final(state).providers == old(state).providers,
        final(state).config.projects == old(state).config.projects,
        final(state).config.scan_roots == old(state).config.scan_roots,
        final(state).config.hub_path == old(state).config.hub_path,
{
    let name = trim_ends(agent.name.as_str()).to_owned();
    if name.as_str().unicode_len() == 0 {
        return Err(String::from_str("Agent name is required."));
    }
    let global_path = normalize_path(agent.global_path.as_str());
    if str_eq(global_path.as_str(), "/") {
        return Err(String::from_str("Agent global path is required."));
    }
    let project_path = trim_ends(agent.project_path.as_str()).to_owned();
    if project_path.as_str().unicode_len() == 0 {
        return Err(String::from_str("Agent project path is required."));
    }
    let normalized_agent = AgentConfig {
        name: name.clone(),
        global_path,
        project_path,
        enabled: agent.enabled,
        is_custom: agent.is_custom,
    };
    let index = find_agent_name(&state.config.agents, name.as_str());
    let ghost av = agent_views(state.config.agents@);
    match index {
        Some(fi) => {
            let ghost before = agent_views(state.config.agents@);
            let ghost recv = normalized_agent@;
            state.config.agents.set(fi, normalized_agent);
            proof {
                assert(agent_views(state.config.agents@) =~= before.update(fi as int, recv));
                assert(av[fi as int].name == name@);
                assert forall|j: int| 0 <= j < fi as int implies (#[trigger] av[j]).name
                    != name@ by {
                    assert(av[j] == old(state).config.agents@[j]@);
                }
                assert(recv == AgentConfigV {
                    name: trimmed_spec(agent.name@),
                    global_path: normalized_path_spec(agent.global_path@),
                    project_path: trimmed_spec(agent.project_path@),
                    enabled: agent.enabled,
                    is_custom: agent.is_custom,
                });
            }
        },
        None => {
            let ghost before = agent_views(state.config.agents@);
            let ghost recv = normalized_agent@;
            state.config.agents.push(normalized_agent);
            proof {
                assert(agent_views(state.config.agents@) =~= before.push(recv));
                assert forall|j: int| 0 <= j < av.len() implies (#[trigger] av[j]).name
                    != name@ by {
                    assert(av[j] == old(state).config.agents@[j]@);
                }
                assert(recv == AgentConfigV {
                    name: trimmed_spec(agent.name@),
                    global_path: normalized_path_spec(agent.global_path@),
                    project_path: trimmed_spec(agent.project_path@),
                    enabled: agent.enabled,
                    is_custom: agent.is_custom,
                });
            }
        },
    }
    Ok(())
}

/// Removes every agent with the given (trimmed) name; a blank name is
/// rejected.
pub fn agent_config_remove(state: &mut DesktopState, agent_name: &str) -> (r: Result<bool, String>)
    ensures
        match r {
            Ok(removed) => trimmed_spec(agent_name@).len() > 0 && agent_views(
                final(state).config.agents@,
            ) == agent_views(old(state).config.agents@).filter(
                |a: AgentConfigV| a.name != trimmed_spec(agent_name@),
            ) && removed == exists|i: int|
                0 <= i < old(state).config.agents@.len() && (#[trigger] old(
                    state,
                ).config.agents@[i]).name@ == trimmed_spec(agent_name@),
            Err(m) => trimmed_spec(agent_name@).len() == 0 && *final(state) == *old(state) && m@
                == "Agent name is required."@,
        },
        final(state).providers == old(state).providers,
        final(state).config.projects == old(state).config.projects,
        final(state).config.scan_roots == old(state).config.scan_roots,
        final(state).config.hub_path == old(state).config.hub_path,
{
    let trimmed = trim_ends(agent_name);
    if trimmed.unicode_len() == 0 {
        return Err(String::from_str("Agent name is required."));
    }
    let ghost views = agent_views(state.config.agents@);
    let ghost pred = |a: AgentConfigV| a.name != trimmed_spec(agent_name@);
    let n = state.config.agents.len();
    let mut kept: Vec<AgentConfig> = Vec::new();
    let mut removed = false;
    let mut i: usize = 0;
    proof {
        assert(views.take(0) =~= Seq::<AgentConfigV>::empty());
        reveal_with_fuel(Seq::filter, 1);
        assert(agent_views(kept@) =~= views.take(0).filter(pred));
    }
    while i < n
        invariant
            0 <= i <= n,
            n == state.config.agents@.len(),
            views == agent_views(state.config.agents@),
            trimmed@ == trimmed_spec(agent_name@),
            pred == (|a: AgentConfigV| a.name != trimmed_spec(agent_name@)),
            agent_views(kept@) == views.take(i as int).filter(pred),
            removed == exists|j: int|
                0 <= j < i && (#[trigger] state.config.agents@[j]).name@ == trimmed_spec(
                    agent_name@,
                ),
        decreases n - i,
    {
        let ghost vprefix = views.take(i as int);
        let ghost vprefix_next = views.take(i + 1);
        proof {
            assert(vprefix_next.drop_last() =~= vprefix);
            assert(vprefix_next.last() == views[i as int]);
            reveal_with_fuel(Seq::filter, 2);
        }
        let a = &state.config.agents[i];
        if !str_eq(a.name.as_str(), trimmed) {
            kept.push(a.clone());
            assert(agent_views(kept@) =~= vprefix.filter(pred).push(views[i as int]));
        } else {
            removed = true;
            assert(!pred(views[i as int]));
        }
        i += 1;
    }
    proof {
        assert(views.take(n as int) =~= views);
    }
    state.config.agents = kept;
    Ok(removed)
}

/// The views of the stored skill documents.
pub open spec fn document_keys(s: Seq<(String, SkillDocument)>) -> Seq<Seq<char>> {
    Seq::new(s.len(), |i: int| s[i].0@)
}

/// Forgets the stored document of a deleted skill path.
pub fn skill_document_remove(state: &mut DesktopState, normalized_path: &str)
    ensures
        document_keys(final(state).skill_documents@) == document_keys(
            old(state).skill_documents@,
        ).filter(|k: Seq<char>| k != normalized_path@),
        final(state).providers == old(state).providers,
        final(state).config == old(state).config,
        final(state).kits == old(state).kits,
{
    let ghost views = document_keys(state.skill_documents@);
    let ghost pred = |k: Seq<char>| k != normalized_path@;
    let n = state.skill_documents.len();
    let mut kept: Vec<(String, SkillDocument)> = Vec::new();
    let mut i: usize = 0;
    proof {
        assert(views.take(0) =~= Seq::<Seq<char>>::empty());
        reveal_with_fuel(Seq::filter, 1);
        assert(document_keys(kept@) =~= views.take(0).filter(pred));
    }
    while i < n
        invariant
            0 <= i <= n,
            n == state.skill_documents@.len(),
            views == document_keys(state.skill_documents@),
            pred == (|k: Seq<char>| k != normalized_path@),
            document_keys(kept@) == views.take(i as int).filter(pred),
        decreases n - i,
    {
        let ghost vprefix = views.take(i as int);
        let ghost vprefix_next = views.take(i + 1);
        proof {
            assert(vprefix_next.drop_last() =~= vprefix);
            assert(vprefix_next.last() == views[i as int]);
            reveal_with_fuel(Seq::filter, 2);
        }
        let entry = &state.skill_documents[i];
        if !str_eq(entry.0.as_str(), normalized_path) {
            kept.push((entry.0.clone(), entry.1.clone()));
            assert(document_keys(kept@) =~= vprefix.filter(pred).push(views[i as int]));
        } else {
            assert(!pred(views[i as int]));
        }
        i += 1;
    }
    proof {
        assert(views.take(n as int) =~= views);
    }
    state.skill_documents = kept;
}

/// The lower-cased form of a string, ASCII letters only.
pub open spec fn lowered(s: Seq<char>) -> Seq<char> {
    Seq::new(s.len(), |i: int| lower_char(s[i]))
}

/// Checks a URL before handing it to the platform's opener: it must
/// be non-blank and start with `http://` or `https://` (case
/// insensitively); the trimmed URL is returned.
pub fn check_external_url(url: &str) -> (r: Result<String, String>)
    ensures
        match r {
            Ok(u) => {
                let t = trimmed_spec(url@);
                let low = lowered(t);
                t.len() > 0 && u@ == t && ((low.len() >= 7 && low.take(7) == "http://"@) || (
                low.len() >= 8 && low.take(8) == "https://"@))
            },
            Err(m) => if trimmed_spec(url@).len() == 0 {
                m@ == "URL is required."@
            } else {
                let low = lowered(trimmed_spec(url@));
                !((low.len() >= 7 && low.take(7) == "http://"@) || (low.len() >= 8 && low.take(8)
                    == "https://"@)) && m@ == "Only http(s) URLs are supported."@
            },
        },
{
    let trimmed = trim_ends(url);
    let tn = trimmed.unicode_len();
    if tn == 0 {
        return Err(String::from_str("URL is required."));
    }
    let mut lower = String::new();
    let mut i: usize = 0;
    while i < tn
        invariant
            0 <= i <= tn,
            tn == trimmed@.len(),
            lower@ =~= lowered(trimmed@).take(i as int),
        decreases tn - i,
    {
        lower.push(lower_char_exec(trimmed.get_char(i)));
        assert(lower@ =~= lowered(trimmed@).take(i + 1));
        i += 1;
    }
    proof {
        assert(lower@ =~= lowered(trimmed@));
    }
    let starts_http = if tn >= 7 {
        let head = lower.as_str().substring_char(0, 7);
        proof {
            assert(head@ =~= lowered(trimmed@).take(7));
        }
        str_eq(head, "http://")
    } else {
        false
    };
    let starts_https = if tn >= 8 {
        let head = lower.as_str().substring_char(0, 8);
        proof {
            assert(head@ =~= lowered(trimmed@).take(8));
        }
        str_eq(head, "https://")
    } else {
        false
    };
    if !(starts_http || starts_https) {
        return Err(String::from_str("Only http(s) URLs are supported."));
    }
    Ok(trimmed.to_owned())
}

} // verus!
