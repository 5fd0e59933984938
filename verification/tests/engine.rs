use skills_hub::clock::now_millis;
use skills_hub::doc::doc_eq;
use skills_hub::doc::Doc;
use skills_hub::doc::DocObj;
use skills_hub::records::DesktopState;
use skills_hub::registry::provider_add;
use skills_hub::registry::provider_delete;
use skills_hub::registry::provider_get_raw;
use skills_hub::registry::provider_list;
use skills_hub::registry::provider_current;
use skills_hub::registry::provider_update_commit;
use skills_hub::registry::provider_update_prepare;
use skills_hub::switch::provider_capture_live;
use skills_hub::switch::provider_latest_backup;
use skills_hub::switch::provider_restore_latest_backup;
use skills_hub::switch::provider_switch;
use skills_hub::types::AppType;

fn obj(entries: Vec<(&str, Doc)>) -> Doc {
    let mut o = DocObj::empty();
    for (k, v) in entries {
        o = o.upsert(k.to_string(), v);
    }
    Doc::Obj(o)
}

fn text(s: &str) -> Doc {
    Doc::Text(s.to_string())
}

fn toola_config(model: &str) -> Doc {
    obj(vec![("model", text(model))])
}

fn currents_of(state: &DesktopState, t: AppType) -> usize {
    state
        .providers
        .iter()
        .filter(|p| p.app_type == t && p.is_current)
        .count()
}

#[test]
fn first_added_provider_becomes_current() {
    let mut state = DesktopState::empty();
    let p1 = provider_add(&mut state, "toola", "One", toola_config("a"), "p1".to_string(), 1)
        .unwrap();
    assert!(p1.is_current);
    let p2 = provider_add(&mut state, "toola", "Two", toola_config("b"), "p2".to_string(), 2)
        .unwrap();
    assert!(!p2.is_current);
    assert_eq!(currents_of(&state, AppType::ToolA), 1);
    let current = provider_current(&state, "toola").unwrap().unwrap();
    assert_eq!(current.id, "p1");
}

#[test]
fn blank_provider_name_gets_default() {
    let mut state = DesktopState::empty();
    let p = provider_add(&mut state, "toola", "   ", toola_config("a"), "p1".to_string(), 1)
        .unwrap();
    assert_eq!(p.name, "toola provider");
    let err = provider_add(&mut state, "cursor", "x", toola_config("a"), "p2".to_string(), 1)
        .unwrap_err();
    assert_eq!(err, "Unsupported app type: cursor");
}

#[test]
fn at_most_one_current_after_operations() {
    let mut state = DesktopState::empty();
    let live = obj(vec![]);
    for (i, id) in ["p1", "p2", "p3"].iter().enumerate() {
        provider_add(
            &mut state,
            "toola",
            id,
            toola_config(id),
            id.to_string(),
            i as i64,
        )
        .unwrap();
    }
    provider_switch(&mut state, "toola", "p3", &live, 100, 10).unwrap();
    assert_eq!(currents_of(&state, AppType::ToolA), 1);
    provider_delete(&mut state, "p3", 11).unwrap();
    assert_eq!(currents_of(&state, AppType::ToolA), 1);
    provider_delete(&mut state, "p1", 12).unwrap();
    provider_delete(&mut state, "p2", 13).unwrap();
    assert_eq!(currents_of(&state, AppType::ToolA), 0);
    assert_eq!(state.providers.len(), 0);
}

#[test]
fn deleting_current_promotes_a_survivor() {
    let mut state = DesktopState::empty();
    provider_add(&mut state, "toola", "a", toola_config("a"), "p1".to_string(), 1).unwrap();
    provider_add(&mut state, "toola", "b", toola_config("b"), "p2".to_string(), 2).unwrap();
    provider_delete(&mut state, "p1", 3).unwrap();
    let current = provider_current(&state, "toola").unwrap().unwrap();
    assert_eq!(current.id, "p2");
    assert!(current.is_current);
    let err = provider_delete(&mut state, "ghost", 4).unwrap_err();
    assert_eq!(err, "Provider not found.");
}

#[test]
fn switch_backs_up_each_displaced_provider() {
    let mut state = DesktopState::empty();
    let live = obj(vec![("hand_edited", text("yes"))]);
    provider_add(&mut state, "toola", "one", toola_config("a"), "p1".to_string(), 1).unwrap();
    provider_add(&mut state, "toola", "two", toola_config("b"), "p2".to_string(), 2).unwrap();

    // p1 is current: switching to p2 displaces it and records one entry.
    let (result, next) = provider_switch(&mut state, "toola", "p2", &live, 100, 10).unwrap();
    assert_eq!(result.switched_from.as_deref(), Some("p1"));
    assert_eq!(result.switched_to, "p2");
    assert_eq!(result.backup_id, 100);
    assert!(next.is_object());
    assert_eq!(state.provider_backups.toola.len(), 1);
    assert_eq!(state.provider_backups.toola[0].provider.id, "p1");

    // Switching back displaces p2: exactly one more entry, capturing
    // the live state observed at this second switch.
    let live2 = obj(vec![("hand_edited", text("second"))]);
    let (result, _next) = provider_switch(&mut state, "toola", "p1", &live2, 200, 20).unwrap();
    assert_eq!(result.switched_from.as_deref(), Some("p2"));
    assert_eq!(state.provider_backups.toola.len(), 2);
    let entry = &state.provider_backups.toola[1];
    assert_eq!(entry.backup_id, 200);
    assert_eq!(entry.provider.id, "p2");
    assert!(!entry.provider.is_current);
    assert!(doc_eq(&entry.provider.config, &live2));
}

#[test]
fn switch_to_current_is_a_repair_without_backup() {
    let mut state = DesktopState::empty();
    let live = obj(vec![]);
    provider_add(&mut state, "toola", "one", toola_config("a"), "p1".to_string(), 1).unwrap();
    let (result, _next) = provider_switch(&mut state, "toola", "p1", &live, 100, 10).unwrap();
    assert_eq!(result.switched_from.as_deref(), Some("p1"));
    assert_eq!(state.provider_backups.toola.len(), 0);
    let err = provider_switch(&mut state, "toola", "ghost", &live, 101, 11).unwrap_err();
    assert_eq!(err, "Target provider does not exist for this app.");
}

#[test]
fn switch_validation_failure_changes_nothing() {
    let mut state = DesktopState::empty();
    // A codex provider whose config carries neither auth nor config text.
    let bad = obj(vec![("junk", text("x"))]);
    provider_add(&mut state, "codex", "bad", bad, "c1".to_string(), 1).unwrap();
    let live = obj(vec![]);
    let before_len = state.providers.len();
    let err = provider_switch(&mut state, "codex", "c1", &live, 100, 10).unwrap_err();
    assert_eq!(err, "Codex provider config must include auth and/or config.");
    assert_eq!(state.providers.len(), before_len);
    assert_eq!(state.provider_backups.codex.len(), 0);
}

#[test]
fn restore_peeks_and_never_shrinks_backups() {
    let mut state = DesktopState::empty();
    let live = obj(vec![("from_disk", text("v"))]);
    provider_add(&mut state, "toola", "one", toola_config("a"), "p1".to_string(), 1).unwrap();
    provider_add(&mut state, "toola", "two", toola_config("b"), "p2".to_string(), 2).unwrap();
    provider_switch(&mut state, "toola", "p2", &live, 100, 10).unwrap();
    assert_eq!(state.provider_backups.toola.len(), 1);

    let (first, _) =
        provider_restore_latest_backup(&mut state, "toola", &live, "fresh-1".to_string(), 20)
            .unwrap();
    assert_eq!(state.provider_backups.toola.len(), 1);
    let (second, _) =
        provider_restore_latest_backup(&mut state, "toola", &live, "fresh-2".to_string(), 30)
            .unwrap();
    assert_eq!(state.provider_backups.toola.len(), 1);
    assert_eq!(first.current_provider_id, second.current_provider_id);
    assert_eq!(first.current_provider_id, "p1");
    let current = provider_current(&state, "toola").unwrap().unwrap();
    assert_eq!(current.id, "p1");

    let err = provider_restore_latest_backup(&mut state, "codex", &live, "f".to_string(), 40)
        .unwrap_err();
    assert_eq!(err, "No backup found for this app.");
}

#[test]
fn latest_backup_is_peeked_not_popped() {
    let mut state = DesktopState::empty();
    let live = obj(vec![]);
    assert!(provider_latest_backup(&state, "toola").unwrap().is_none());
    provider_add(&mut state, "toola", "one", toola_config("a"), "p1".to_string(), 1).unwrap();
    provider_add(&mut state, "toola", "two", toola_config("b"), "p2".to_string(), 2).unwrap();
    provider_switch(&mut state, "toola", "p2", &live, 100, 10).unwrap();
    let peek1 = provider_latest_backup(&state, "toola").unwrap().unwrap();
    let peek2 = provider_latest_backup(&state, "toola").unwrap().unwrap();
    assert_eq!(peek1.backup_id, peek2.backup_id);
    assert_eq!(state.provider_backups.toola.len(), 1);
}

#[test]
fn capture_live_stores_official_non_current() {
    let mut state = DesktopState::empty();
    let live = obj(vec![(
        "auth",
        obj(vec![("OPENAI_API_KEY", text("sk-live"))]),
    )]);
    let profile = obj(vec![("accountName", text("me")), ("kind", text("spoofed"))]);
    let p = provider_capture_live(
        &mut state,
        "codex",
        "  ",
        Some(profile),
        &live,
        "cap-1".to_string(),
        5,
    )
    .unwrap();
    assert_eq!(p.name, "codex official");
    assert!(!p.is_current);
    let stored_profile = p.config.get("_profile").unwrap();
    let kind = stored_profile.get("kind").unwrap();
    assert!(doc_eq(kind, &text("official")));
    let auth = p.config.get("auth").unwrap();
    let key = auth.get("OPENAI_API_KEY").unwrap();
    assert!(key.is_null());
}

#[test]
fn update_changes_record_and_reports_live_reconciliation() {
    let mut state = DesktopState::empty();
    provider_add(&mut state, "toola", "one", toola_config("a"), "p1".to_string(), 1).unwrap();
    let update = provider_update_prepare(
        &state,
        "p1",
        Some("renamed".to_string()),
        None,
        9,
    )
    .unwrap();
    assert!(!update.apply_live);
    assert_eq!(update.record.name, "renamed");
    let update = provider_update_prepare(
        &state,
        "p1",
        None,
        Some(toola_config("changed")),
        10,
    )
    .unwrap();
    assert!(update.apply_live);
    provider_update_commit(&mut state, update);
    let stored = provider_get_raw(&state, "p1").unwrap();
    assert!(doc_eq(&stored.config, &toola_config("changed")));
    assert_eq!(stored.updated_at, 10);
    let err = provider_update_prepare(&state, "nope", None, None, 1).unwrap_err();
    assert_eq!(err, "Provider not found.");
}

#[test]
fn provider_list_filters_by_type() {
    let mut state = DesktopState::empty();
    provider_add(&mut state, "toola", "c", toola_config("a"), "p1".to_string(), 1).unwrap();
    provider_add(
        &mut state,
        "gemini",
        "g",
        obj(vec![("env", obj(vec![]))]),
        "p2".to_string(),
        2,
    )
    .unwrap();
    let all = provider_list(&state, None).unwrap();
    assert_eq!(all.len(), 2);
    let only_toola = provider_list(&state, Some("toola".to_string())).unwrap();
    assert_eq!(only_toola.len(), 1);
    assert_eq!(only_toola[0].id, "p1");
    let err = provider_list(&state, Some("nope".to_string())).unwrap_err();
    assert_eq!(err, "Unsupported app type: nope");
}

#[test]
fn switch_with_no_prior_current_appends_no_backup() {
    let mut state = DesktopState::empty();
    let live = obj(vec![("auth", obj(vec![("OPENAI_API_KEY", text("sk"))]))]);
    // A captured provider is stored non-current, so its type has no
    // current provider at all.
    let captured = provider_capture_live(
        &mut state,
        "codex",
        "snapshot",
        None,
        &live,
        "cap-1".to_string(),
        1,
    )
    .unwrap();
    assert!(!captured.is_current);
    let (result, _next) = provider_switch(&mut state, "codex", "cap-1", &live, 50, 5).unwrap();
    assert!(result.switched_from.is_none());
    assert_eq!(state.provider_backups.codex.len(), 0);
    assert!(state.providers[0].is_current);
}

#[test]
fn restore_rejects_an_invalid_backup() {
    let mut state = DesktopState::empty();
    // A backup whose stored configuration carries neither auth nor
    // config text cannot be restored for this tool type.
    state.provider_backups.codex.push(skills_hub::records::ProviderBackupEntry {
        backup_id: 7,
        provider: skills_hub::records::ProviderRecord {
            id: "ghost".to_string(),
            app_type: AppType::Codex,
            name: "ghost".to_string(),
            config: obj(vec![("junk", text("x"))]),
            is_current: false,
            created_at: 1,
            updated_at: 1,
        },
    });
    let live = obj(vec![]);
    let err = provider_restore_latest_backup(&mut state, "codex", &live, "f".to_string(), 9)
        .unwrap_err();
    assert_eq!(err, "Codex provider config must include auth and/or config.");
    assert_eq!(state.provider_backups.codex.len(), 1);
}

#[test]
fn clock_reads_non_negative() {
    assert!(now_millis() >= 0);
}
