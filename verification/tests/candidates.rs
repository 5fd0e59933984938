use skills_hub::paths::normalize_path;
use skills_hub::records::AgentConfig;
use skills_hub::skills::project_skill_parent_candidates;

fn build_agent(name: &str, project_path: &str) -> AgentConfig {
    AgentConfig {
        name: name.to_string(),
        global_path: String::new(),
        project_path: project_path.to_string(),
        enabled: true,
        is_custom: false,
    }
}

#[test]
fn codex_project_paths_include_agents_alias() {
    let agent = build_agent("Codex", ".codex/skills");
    let paths = project_skill_parent_candidates("/tmp/browseruse_bench", &agent)
        .into_iter()
        .map(|entry| normalize_path(entry.as_str()))
        .collect::<Vec<_>>();

    assert_eq!(
        paths,
        vec![
            "/tmp/browseruse_bench/.codex/skills".to_string(),
            "/tmp/browseruse_bench/.agents/skills".to_string(),
        ]
    );
}

#[test]
fn codex_project_paths_dedupe_agents_alias() {
    let agent = build_agent("codex", ".agents/skills");
    let paths = project_skill_parent_candidates("/tmp/browseruse_bench", &agent)
        .into_iter()
        .map(|entry| normalize_path(entry.as_str()))
        .collect::<Vec<_>>();

    assert_eq!(paths, vec!["/tmp/browseruse_bench/.agents/skills".to_string()]);
}

#[test]
fn non_codex_project_paths_keep_single_target() {
    let agent = build_agent("ToolA Code", ".toola/skills");
    let paths = project_skill_parent_candidates("/tmp/browseruse_bench", &agent)
        .into_iter()
        .map(|entry| normalize_path(entry.as_str()))
        .collect::<Vec<_>>();

    assert_eq!(paths, vec!["/tmp/browseruse_bench/.toola/skills".to_string()]);
}

#[test]
fn normalize_path_maps_separators_and_trailing() {
    assert_eq!(normalize_path("C:\\Users\\dev\\proj\\"), "C:/Users/dev/proj");
    assert_eq!(normalize_path("  /a/b/  "), "/a/b");
    assert_eq!(normalize_path(""), "/");
    assert_eq!(normalize_path("///"), "/");
}

#[test]
fn path_tail_takes_last_segment() {
    assert_eq!(skills_hub::paths::path_tail("/a/b/c"), "c");
    assert_eq!(skills_hub::paths::path_tail("/a//b/"), "b");
    assert_eq!(skills_hub::paths::path_tail("plain"), "plain");
    assert_eq!(skills_hub::paths::path_tail("/"), "/");
}

#[test]
fn sanitize_skill_name_squashes() {
    assert_eq!(skills_hub::paths::sanitize_skill_name("  My Cool Skill!  "), "my-cool-skill");
    assert_eq!(skills_hub::paths::sanitize_skill_name("***"), "imported-skill");
    assert_eq!(skills_hub::paths::sanitize_skill_name("a__b-c"), "a__b-c");
}

#[test]
fn scan_dir_skips() {
    assert!(skills_hub::paths::should_skip_scan_dir(".git"));
    assert!(skills_hub::paths::should_skip_scan_dir("node_modules"));
    assert!(!skills_hub::paths::should_skip_scan_dir("src"));
    assert!(skills_hub::paths::should_skip_skill_scan_dir("__pycache__"));
    assert!(skills_hub::paths::should_skip_skill_scan_dir("target"));
    assert!(!skills_hub::paths::should_skip_skill_scan_dir("skills"));
}

#[test]
fn join_home_path_roots_without_home() {
    assert_eq!(skills_hub::paths::join_home_path(None, ".toola/skills"), "/.toola/skills");
    assert_eq!(
        skills_hub::paths::join_home_path(Some("/home/dev"), ".toola/skills"),
        "/home/dev/.toola/skills"
    );
    assert_eq!(
        skills_hub::paths::home_relative_path(Some("/home/dev"), "/.codex/auth.json"),
        "/home/dev/.codex/auth.json"
    );
}
