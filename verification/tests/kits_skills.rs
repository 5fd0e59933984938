use skills_hub::doc::doc_eq;
use skills_hub::doc::Doc;
use skills_hub::doc::DocObj;
use skills_hub::import::parse_skill_import_url;
use skills_hub::import::select_import_source_path;
use skills_hub::kits::agents_md_exists_error;
use skills_hub::kits::kit_add;
use skills_hub::kits::kit_apply_record;
use skills_hub::kits::kit_apply_resolve;
use skills_hub::kits::kit_item_results;
use skills_hub::kits::kit_loadout_add;
use skills_hub::kits::kit_policy_add;
use skills_hub::kits::kit_policy_delete;
use skills_hub::kits::parse_loadout_items;
use skills_hub::kits::KitLoadoutItemInput;
use skills_hub::records::DesktopState;
use skills_hub::records::KitLoadoutItem;
use skills_hub::skills::infer_description;
use skills_hub::skills::skill_create_content;
use skills_hub::skills::split_frontmatter;
use skills_hub::skills::sync_plan;
use skills_hub::skills::default_agents;
use skills_hub::stateops::agent_config_remove;
use skills_hub::stateops::agent_config_update;
use skills_hub::stateops::check_external_url;
use skills_hub::stateops::project_add;
use skills_hub::stateops::project_remove;
use skills_hub::stateops::scanned_projects_add;
use skills_hub::types::ApplyStatus;
use skills_hub::types::AppType;
use skills_hub::types::KitSyncMode;
use skills_hub::universal::universal_provider_add;
use skills_hub::universal::universal_provider_apply;
use skills_hub::universal::universal_provider_delete;

fn seeded_kit(state: &mut DesktopState) {
    kit_policy_add(
        state,
        "General",
        None,
        "# AGENTS.md\n".to_string(),
        "policy-1".to_string(),
        1,
    )
    .unwrap();
    let items = vec![
        KitLoadoutItem { skill_path: "/hub/s-three".to_string(), mode: KitSyncMode::Copy, sort_order: 2 },
        KitLoadoutItem { skill_path: "/hub/s-one".to_string(), mode: KitSyncMode::Link, sort_order: 0 },
        KitLoadoutItem { skill_path: "/hub/s-two".to_string(), mode: KitSyncMode::Copy, sort_order: 1 },
    ];
    kit_loadout_add(state, "Default", None, items, "loadout-1".to_string(), 1).unwrap();
    kit_add(
        state,
        "Onboarding",
        None,
        "policy-1".to_string(),
        "loadout-1".to_string(),
        "kit-1".to_string(),
        1,
    )
    .unwrap();
}

#[test]
fn kit_apply_resolves_and_sorts_items() {
    let mut state = DesktopState::empty();
    seeded_kit(&mut state);
    agent_config_update(
        &mut state,
        skills_hub::records::AgentConfig {
            name: "Codex".to_string(),
            global_path: "/home/dev/.codex/skills".to_string(),
            project_path: ".codex/skills".to_string(),
            enabled: true,
            is_custom: false,
        },
    )
    .unwrap();
    let plan = kit_apply_resolve(&state, "kit-1", "/work/proj", "Codex", None, Some(true)).unwrap();
    assert_eq!(plan.normalized_project_path, "/work/proj");
    assert_eq!(plan.policy_path, "/work/proj/AGENTS.md");
    assert_eq!(plan.destination_parent, "/work/proj/.codex/skills");
    assert!(plan.overwrite);
    let orders: Vec<i64> = plan.sorted_items.iter().map(|i| i.sort_order).collect();
    assert_eq!(orders, vec![0, 1, 2]);

    // An unknown agent falls back to the generic skill directory.
    let plan = kit_apply_resolve(&state, "kit-1", "/work/proj", "Mystery", None, None).unwrap();
    assert_eq!(plan.destination_parent, "/work/proj/.agent/skills");
    assert!(!plan.overwrite);

    let err = kit_apply_resolve(&state, "missing", "/work/proj", "Codex", None, None).unwrap_err();
    assert_eq!(err, "Kit not found.");
    let err = kit_apply_resolve(&state, "kit-1", "  ", "Codex", None, None).unwrap_err();
    assert_eq!(err, "Project path is required.");
}

#[test]
fn kit_apply_isolates_item_failures() {
    let items = vec![
        KitLoadoutItem { skill_path: "/hub/a".to_string(), mode: KitSyncMode::Copy, sort_order: 0 },
        KitLoadoutItem { skill_path: "/hub/missing".to_string(), mode: KitSyncMode::Copy, sort_order: 1 },
        KitLoadoutItem { skill_path: "/hub/c".to_string(), mode: KitSyncMode::Link, sort_order: 2 },
    ];
    let outcomes = vec![
        Ok("/proj/.codex/skills/a".to_string()),
        Err("Skill path does not exist: /hub/missing".to_string()),
        Ok("/proj/.codex/skills/c".to_string()),
    ];
    let results = kit_item_results(&items, &None, &"/proj/.codex/skills".to_string(), outcomes);
    assert_eq!(results.len(), 3);
    assert!(matches!(results[0].status, ApplyStatus::Success));
    assert!(matches!(results[1].status, ApplyStatus::Failed));
    assert!(matches!(results[2].status, ApplyStatus::Success));
    assert_eq!(
        results[1].error.as_deref(),
        Some("Skill path does not exist: /hub/missing")
    );
    assert_eq!(results[1].destination, "/proj/.codex/skills/missing");
    // A mode override applies to every item.
    let outcomes = vec![Ok("x".to_string()), Err("e".to_string()), Ok("y".to_string())];
    let results =
        kit_item_results(&items, &Some(KitSyncMode::Link), &"/p".to_string(), outcomes);
    assert!(results.iter().all(|r| matches!(r.mode, KitSyncMode::Link)));
}

#[test]
fn kit_apply_record_marks_and_stamps() {
    let mut state = DesktopState::empty();
    seeded_kit(&mut state);
    kit_apply_record(&mut state, "kit-1", &"/work/proj".to_string(), "Codex", 77);
    assert_eq!(state.agents_md_applied.len(), 1);
    assert_eq!(state.agents_md_applied[0].0, "/work/proj::Codex");
    assert!(state.agents_md_applied[0].1);
    let kit = &state.kits[0];
    assert_eq!(kit.last_applied_at, Some(77));
    let target = kit.last_applied_target.as_ref().unwrap();
    assert_eq!(target.project_path, "/work/proj");
    assert_eq!(target.agent_name, "Codex");
    assert_eq!(agents_md_exists_error("/p/AGENTS.md"), "AGENTS_MD_EXISTS::/p/AGENTS.md");
}

#[test]
fn policy_in_use_cannot_be_deleted() {
    let mut state = DesktopState::empty();
    seeded_kit(&mut state);
    assert!(kit_policy_delete(&mut state, "policy-1").is_err());
    assert_eq!(state.kit_policies.len(), 1);
    let items = vec![KitLoadoutItemInput {
        skill_path: "/hub/x\\y/".to_string(),
        mode: Some("link".to_string()),
        sort_order: None,
    }];
    let parsed = parse_loadout_items(items).unwrap();
    assert_eq!(parsed[0].skill_path, "/hub/x/y");
    assert!(matches!(parsed[0].mode, KitSyncMode::Link));
    assert_eq!(parsed[0].sort_order, 0);
    let bad = vec![KitLoadoutItemInput {
        skill_path: "/hub/x".to_string(),
        mode: Some("move".to_string()),
        sort_order: None,
    }];
    assert_eq!(parse_loadout_items(bad).unwrap_err(), "Unsupported sync mode: move");
}

#[test]
fn sync_same_path_is_a_no_op() {
    let plan = sync_plan("/hub/skill-a", "/hub", true, true).unwrap();
    assert!(plan.no_op);
    assert_eq!(plan.destination, "/hub/skill-a");

    let plan = sync_plan("/hub/skill-a", "/proj/.codex/skills", true, true).unwrap();
    assert!(!plan.no_op);
    assert_eq!(plan.destination, "/proj/.codex/skills/skill-a");

    let err = sync_plan("/hub/skill-a", "/proj", false, false).unwrap_err();
    assert_eq!(err, "Skill path does not exist: /hub/skill-a");
    let err = sync_plan("/hub/skill-a", "/proj", true, false).unwrap_err();
    assert_eq!(err, "SKILL.md not found in /hub/skill-a");
}

#[test]
fn frontmatter_splits_and_infers() {
    let (front, body) = split_frontmatter("---\r\nname: x\r\n---\r\nBody here\n").unwrap();
    assert_eq!(front, "name: x");
    assert_eq!(body, "Body here\n");
    assert!(split_frontmatter("no fences at all").is_none());
    assert!(split_frontmatter("---\nunclosed").is_none());
    assert_eq!(infer_description("\n\n# Title line\nrest"), "Title line");
    assert_eq!(infer_description(""), "");
}

#[test]
fn skill_creation_wraps_content() {
    let (safe, content) =
        skill_create_content("My Skill", "does\nthings", "The body".to_string()).unwrap();
    assert_eq!(safe, "my-skill");
    assert_eq!(
        content,
        "---\nname: My Skill\ndescription: does things\n---\n\nThe body\n"
    );
    let (_, untouched) =
        skill_create_content("x", "", "---\nalready fenced\n".to_string()).unwrap();
    assert_eq!(untouched, "---\nalready fenced\n");
    assert_eq!(
        skill_create_content("  ", "d", "c".to_string()).unwrap_err(),
        "Name is required."
    );
    assert_eq!(
        skill_create_content("n", "d", "  ".to_string()).unwrap_err(),
        "Content is required."
    );
}

#[test]
fn import_url_parsing() {
    let parsed =
        parse_skill_import_url("https://github.com/owner/repo.git/tree/main/skills/web scraper")
            .unwrap();
    assert_eq!(parsed.repo_url, "https://github.com/owner/repo.git");
    assert_eq!(parsed.branch.as_deref(), Some("main"));
    assert_eq!(parsed.subdir.as_deref(), Some("skills/web scraper"));
    assert_eq!(parsed.skill_name, "web-scraper");

    let parsed = parse_skill_import_url("https://github.com/owner/repo").unwrap();
    assert_eq!(parsed.repo_url, "https://github.com/owner/repo.git");
    assert!(parsed.branch.is_none());
    assert_eq!(parsed.skill_name, "repo");

    let parsed = parse_skill_import_url("git@example.com:team/bundle.git").unwrap();
    assert_eq!(parsed.repo_url, "git@example.com:team/bundle.git");
    assert_eq!(parsed.skill_name, "bundle");

    assert_eq!(parse_skill_import_url("  ").unwrap_err(), "Missing URL for import.");
    assert_eq!(
        parse_skill_import_url("https://github.com/only-owner").unwrap_err(),
        "Invalid GitHub URL."
    );
}

#[test]
fn import_source_selection() {
    let parsed = parse_skill_import_url("https://github.com/o/r/tree/main/sub").unwrap();
    let path = select_import_source_path("/tmp/clone", &parsed, true, false, &vec![]).unwrap();
    assert_eq!(path, "/tmp/clone/sub");
    assert_eq!(
        select_import_source_path("/tmp/clone", &parsed, false, false, &vec![]).unwrap_err(),
        "Import path does not exist in repository: sub"
    );
    let bare = parse_skill_import_url("https://github.com/o/r").unwrap();
    assert_eq!(
        select_import_source_path("/tmp/clone", &bare, false, true, &vec![]).unwrap(),
        "/tmp/clone"
    );
    let discovered = vec!["/tmp/clone/only".to_string()];
    assert_eq!(
        select_import_source_path("/tmp/clone", &bare, false, false, &discovered).unwrap(),
        "/tmp/clone/only"
    );
    assert!(select_import_source_path("/tmp/clone", &bare, false, false, &vec![]).is_err());
    let many = vec!["/a".to_string(), "/b".to_string()];
    assert!(select_import_source_path("/tmp/clone", &bare, false, false, &many).is_err());
}

#[test]
fn universal_provider_fan_out() {
    let mut state = DesktopState::empty();
    universal_provider_add(
        &mut state,
        "OpenRouter",
        "https://openrouter.example/api",
        "or-key",
        None,
        None,
        None,
        None,
        "uni-1".to_string(),
        1,
    )
    .unwrap();
    let fresh = vec!["f1".to_string(), "f2".to_string(), "f3".to_string()];
    let applied = universal_provider_apply(&mut state, "uni-1", fresh, 2).unwrap();
    assert_eq!(applied.len(), 3);
    assert_eq!(state.providers.len(), 3);
    assert!(applied.iter().all(|p| !p.is_current));
    assert_eq!(applied[0].name, "OpenRouter (toola)");
    let codex = applied.iter().find(|p| p.app_type == AppType::Codex).unwrap();
    let cfg_text = codex.config.get("config").unwrap();
    let expected = Doc::Text(
        "model = \"gpt-5.2\"\\napi_base_url = \"https://openrouter.example/api\"\\n".to_string(),
    );
    assert!(doc_eq(cfg_text, &expected));

    // Re-applying refreshes the tagged records instead of duplicating.
    let fresh = vec!["g1".to_string(), "g2".to_string(), "g3".to_string()];
    let applied = universal_provider_apply(&mut state, "uni-1", fresh, 3).unwrap();
    assert_eq!(applied.len(), 3);
    assert_eq!(state.providers.len(), 3);

    assert!(universal_provider_delete(&mut state, "uni-1"));
    assert!(!universal_provider_delete(&mut state, "uni-1"));
    let fresh = vec!["h1".to_string(), "h2".to_string(), "h3".to_string()];
    assert_eq!(
        universal_provider_apply(&mut state, "uni-1", fresh, 4).unwrap_err(),
        "Universal provider not found."
    );
}

#[test]
fn project_and_agent_bookkeeping() {
    let mut state = DesktopState::empty();
    assert_eq!(
        project_add(&mut state, "/work/app", false).unwrap_err(),
        "Only git repositories can be added as projects."
    );
    assert_eq!(project_add(&mut state, "/work/app/", true).unwrap(), "/work/app");
    assert_eq!(project_add(&mut state, "/work/app", true).unwrap(), "/work/app");
    assert_eq!(state.config.projects.len(), 1);
    let added = scanned_projects_add(
        &mut state,
        vec!["/work/app".to_string(), "/work/zeta".to_string(), "/work/beta".to_string()],
    );
    assert_eq!(added, 2);
    assert_eq!(
        state.config.projects,
        vec!["/work/app".to_string(), "/work/beta".to_string(), "/work/zeta".to_string()]
    );
    assert!(project_remove(&mut state, "/work/zeta/"));
    assert!(!project_remove(&mut state, "/nowhere"));

    let agents = default_agents(Some("/home/dev"));
    assert_eq!(agents.len(), 5);
    assert_eq!(agents[3].name, "Codex");
    assert_eq!(agents[3].global_path, "/home/dev/.codex/skills");
    assert!(!agents[4].enabled);

    assert!(agent_config_update(&mut state, agents[3].clone()).is_ok());
    assert_eq!(state.config.agents.len(), 1);
    assert!(agent_config_remove(&mut state, " Codex ").unwrap());
    assert!(!agent_config_remove(&mut state, "Codex").unwrap());
    assert_eq!(
        agent_config_remove(&mut state, "  ").unwrap_err(),
        "Agent name is required."
    );

    assert_eq!(check_external_url(" HTTPS://x.example ").unwrap(), "HTTPS://x.example");
    assert_eq!(
        check_external_url("ftp://x").unwrap_err(),
        "Only http(s) URLs are supported."
    );
    assert_eq!(check_external_url("  ").unwrap_err(), "URL is required.");
}

#[test]
fn remaining_error_variants() {
    let mut state = DesktopState::empty();
    assert_eq!(
        universal_provider_add(
            &mut state,
            "  ",
            "https://x",
            "key",
            None,
            None,
            None,
            None,
            "u1".to_string(),
            1
        )
        .unwrap_err(),
        "Universal provider name/baseUrl/apiKey are required."
    );
    kit_add(
        &mut state,
        "Dangling",
        None,
        "missing-policy".to_string(),
        "missing-loadout".to_string(),
        "kit-x".to_string(),
        1,
    )
    .unwrap();
    assert_eq!(
        kit_apply_resolve(&state, "kit-x", "/p", "Codex", None, None).unwrap_err(),
        "Kit references missing policy/loadout."
    );
    assert_eq!(
        kit_loadout_add(&mut state, "  ", None, vec![], "l1".to_string(), 1).unwrap_err(),
        "Loadout name is required."
    );
    assert_eq!(
        kit_loadout_add(&mut state, "Empty", None, vec![], "l1".to_string(), 1).unwrap_err(),
        "Loadout requires at least one skill."
    );
    assert_eq!(
        skills_hub::stateops::scan_root_add(&mut state, " / ").unwrap_err(),
        "Workspace path is required."
    );
    assert_eq!(
        skills_hub::stateops::scan_root_add(&mut state, "/ws/roots").unwrap(),
        "/ws/roots"
    );
    assert!(skills_hub::stateops::scan_root_remove(&mut state, "/ws/roots/"));
    let bad_agent = skills_hub::records::AgentConfig {
        name: "A".to_string(),
        global_path: " / ".to_string(),
        project_path: ".a/skills".to_string(),
        enabled: true,
        is_custom: false,
    };
    assert_eq!(
        agent_config_update(&mut state, bad_agent).unwrap_err(),
        "Agent global path is required."
    );
}

#[test]
fn env_obj_survives_provider_round_trip() {
    // A gemini provider patch overlays the env map that later
    // serializes in sorted order.
    let mut env = DocObj::empty();
    env = env.upsert("ZKEY".to_string(), Doc::Text("9".to_string()));
    env = env.upsert("AKEY".to_string(), Doc::Text("1".to_string()));
    let merged = skills_hub::configstore::merge_live_config(
        &AppType::Gemini,
        &Doc::Obj(DocObj::empty()),
        &Doc::Obj(DocObj::empty().upsert("env".to_string(), Doc::Obj(env))),
    );
    let out_env = merged.get("env").unwrap();
    let text = skills_hub::envtext::stringify_env_map(out_env.as_object().unwrap());
    assert_eq!(text, "AKEY=1\nZKEY=9\n");
}
