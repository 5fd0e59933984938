use skills_hub::configstore::merge_live_config;
use skills_hub::configstore::normalize_codex_auth;
use skills_hub::configstore::sanitize_official_capture_config;
use skills_hub::configstore::sanitize_provider_config_for_live;
use skills_hub::configstore::validate_provider_config_for_live;
use skills_hub::doc::deep_merge_json;
use skills_hub::doc::doc_eq;
use skills_hub::doc::Doc;
use skills_hub::doc::DocObj;
use skills_hub::envtext::doc_json_text;
use skills_hub::envtext::parse_env_text;
use skills_hub::envtext::stringify_env_map;
use skills_hub::envtext::stringify_env_value;
use skills_hub::types::AppType;

fn obj(entries: Vec<(&str, Doc)>) -> Doc {
    let mut o = DocObj::empty();
    for (k, v) in entries {
        o = o.upsert(k.to_string(), v);
    }
    Doc::Obj(o)
}

fn text(s: &str) -> Doc {
    Doc::Text(s.to_string())
}

fn literal(s: &str) -> Doc {
    Doc::Literal(s.to_string())
}

#[test]
fn toola_merge_is_idempotent_on_self() {
    let d = obj(vec![
        ("model", text("opus")),
        ("nested", obj(vec![("x", literal("1")), ("y", literal("true"))])),
    ]);
    let merged = merge_live_config(&AppType::ToolA, &d, &d);
    assert!(doc_eq(&merged, &d));
}

#[test]
fn toola_merge_unions_nested_objects() {
    let live = obj(vec![("a", obj(vec![("x", literal("1"))]))]);
    let patch = obj(vec![("a", obj(vec![("y", literal("2"))]))]);
    let expected = obj(vec![("a", obj(vec![("x", literal("1")), ("y", literal("2"))]))]);
    let merged = deep_merge_json(&live, &patch);
    assert!(doc_eq(&merged, &expected));
}

#[test]
fn codex_auth_copies_legacy_key_forward() {
    let auth = obj(vec![("api_key", text("k"))]);
    let normalized = normalize_codex_auth(Some(&auth)).unwrap();
    let expected = obj(vec![("api_key", text("k")), ("OPENAI_API_KEY", text("k"))]);
    assert!(doc_eq(&Doc::Obj(normalized), &expected));
}

#[test]
fn codex_auth_leaves_existing_key_untouched() {
    let auth = obj(vec![("api_key", text("k")), ("OPENAI_API_KEY", text("official"))]);
    let normalized = normalize_codex_auth(Some(&auth)).unwrap();
    assert!(doc_eq(&Doc::Obj(normalized), &auth));
}

#[test]
fn codex_merge_replaces_auth_wholesale() {
    let live = obj(vec![
        ("auth", obj(vec![("OPENAI_API_KEY", text("old")), ("extra", text("keep-me-not"))])),
        ("config", text("model = \"a\"")),
    ]);
    let patch = obj(vec![("auth", obj(vec![("OPENAI_API_KEY", text("new"))]))]);
    let merged = merge_live_config(&AppType::Codex, &live, &patch);
    let expected = obj(vec![
        ("auth", obj(vec![("OPENAI_API_KEY", text("new"))])),
        ("config", text("model = \"a\"")),
    ]);
    assert!(doc_eq(&merged, &expected));
}

#[test]
fn gemini_merge_overlays_env_and_deep_merges_settings() {
    let live = obj(vec![
        ("env", obj(vec![("A", text("1")), ("B", text("2"))])),
        ("settings", obj(vec![("ui", obj(vec![("theme", text("dark"))]))])),
    ]);
    let patch = obj(vec![
        ("env", obj(vec![("B", text("9")), ("C", text("3"))])),
        ("settings", obj(vec![("ui", obj(vec![("lang", text("en"))]))])),
    ]);
    let merged = merge_live_config(&AppType::Gemini, &live, &patch);
    let expected = obj(vec![
        ("env", obj(vec![("A", text("1")), ("B", text("9")), ("C", text("3"))])),
        (
            "settings",
            obj(vec![("ui", obj(vec![("theme", text("dark")), ("lang", text("en"))]))]),
        ),
    ]);
    assert!(doc_eq(&merged, &expected));
}

#[test]
fn profile_sidecar_never_reaches_live() {
    let patch = obj(vec![("_profile", obj(vec![("kind", text("api"))])), ("model", text("m"))]);
    let sanitized = sanitize_provider_config_for_live(&patch);
    assert!(doc_eq(&sanitized, &obj(vec![("model", text("m"))])));
    let live = obj(vec![]);
    let merged = merge_live_config(&AppType::ToolA, &live, &patch);
    assert!(merged.get("_profile").is_none());
}

#[test]
fn validation_demands_auth_or_config() {
    let empty = obj(vec![]);
    let err = validate_provider_config_for_live(&AppType::Codex, &empty).unwrap_err();
    assert_eq!(err, "Codex provider config must include auth and/or config.");
    let with_auth = obj(vec![("auth", obj(vec![]))]);
    assert!(validate_provider_config_for_live(&AppType::Codex, &with_auth).is_ok());
    let err = validate_provider_config_for_live(&AppType::Gemini, &empty).unwrap_err();
    assert_eq!(err, "Gemini provider config must include env and/or settings.");
    let not_object = text("nope");
    let err = validate_provider_config_for_live(&AppType::ToolA, &not_object).unwrap_err();
    assert_eq!(err, "Provider config must be an object.");
    assert!(validate_provider_config_for_live(&AppType::ToolA, &empty).is_ok());
}

#[test]
fn capture_scrubs_codex_secrets() {
    let live = obj(vec![(
        "auth",
        obj(vec![("OPENAI_API_KEY", text("sk-live")), ("api_key", text("legacy"))]),
    )]);
    let captured = sanitize_official_capture_config(&AppType::Codex, &live);
    let expected = obj(vec![(
        "auth",
        obj(vec![("OPENAI_API_KEY", Doc::Null)]),
    )]);
    assert!(doc_eq(&captured, &expected));
    let untouched = sanitize_official_capture_config(&AppType::ToolA, &live);
    assert!(doc_eq(&untouched, &live));
}

#[test]
fn env_round_trip() {
    let parsed = parse_env_text("A=1\n# comment\nB=2\n");
    let expected = obj(vec![("A", text("1")), ("B", text("2"))]);
    assert!(doc_eq(&Doc::Obj(parsed), &expected));

    let mut map = DocObj::empty();
    map = map.upsert("B".to_string(), text("2"));
    map = map.upsert("A".to_string(), text("1"));
    assert_eq!(stringify_env_map(&map), "A=1\nB=2\n");
}

#[test]
fn env_parsing_ignores_malformed_lines() {
    let parsed = parse_env_text("=x\nnoequals\n KEY = \"quoted\" \n");
    let expected = obj(vec![("KEY", text("quoted"))]);
    assert!(doc_eq(&Doc::Obj(parsed), &expected));
    let empty = parse_env_text("");
    assert!(doc_eq(&Doc::Obj(empty), &obj(vec![])));
    assert_eq!(stringify_env_map(&DocObj::empty()), "");
}

#[test]
fn env_round_trip_restores_bindings() {
    let mut m = DocObj::empty();
    m = m.upsert("KEY_B".to_string(), text("x=y"));
    m = m.upsert("KEY_A".to_string(), text("1"));
    let written = stringify_env_map(&m);
    let parsed = parse_env_text(&written);
    assert!(doc_eq(parsed.get("KEY_A").unwrap(), &text("1")));
    assert!(doc_eq(parsed.get("KEY_B").unwrap(), &text("x=y")));
    assert!(parsed.get("KEY_C").is_none());
}

#[test]
fn env_values_serialize_by_kind() {
    assert_eq!(stringify_env_value(&text("v")), "v");
    assert_eq!(stringify_env_value(&Doc::Null), "");
    assert_eq!(stringify_env_value(&literal("42")), "42");
    let nested = obj(vec![("a", literal("1"))]);
    assert_eq!(stringify_env_value(&nested), "{\"a\":1}");
}

#[test]
fn json_text_escapes_strings() {
    let d = obj(vec![("k", text("a\"b\\c\nd"))]);
    assert_eq!(doc_json_text(&d), "{\"k\":\"a\\\"b\\\\c\\nd\"}");
    assert_eq!(doc_json_text(&Doc::Null), "null");
}
