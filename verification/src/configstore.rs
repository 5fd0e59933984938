//! Translation between a provider's stored configuration and a tool's
//! normalized live configuration: per-tool merge algorithms, structural
//! validation, and the sanitization passes around them.

use vstd::prelude::*;
use vstd::string::StringExecFns;
use crate::doc::Doc;
use crate::doc::DocObj;
use crate::doc::DocV;
use crate::doc::ObjV;
use crate::doc::deep_merge_json;
use crate::doc::merge_doc;
use crate::doc::lemma_merge_obj_within;
use crate::doc::lemma_remove_within;
use crate::types::AppType;

verus! {

/// The provider's stored configuration with the `_profile` side-car
/// stripped; that metadata never reaches a live tool file.
pub open spec fn sanitize_doc(d: DocV) -> DocV {
    match d {
        DocV::Obj(o) => DocV::Obj(o.remove("_profile"@)),
        _ => d,
    }
}

/// Strips the `_profile` side-car from an object document.
pub fn sanitize_provider_config_for_live(provider_config: &Doc) -> (r: Doc)
    ensures
        r@ == sanitize_doc(provider_config@),
{
    match provider_config {
        Doc::Obj(o) => Doc::Obj(o.clone().remove("_profile")),
        _ => provider_config.clone(),
    }
}

/// The next document, carrying over the previous document's `_profile`
/// object if it had one.
pub open spec fn preserve_profile(next: DocV, previous: DocV) -> DocV {
    match next {
        DocV::Obj(n) => match previous {
            DocV::Obj(p) => match p.lookup("_profile"@) {
                Some(DocV::Obj(profile)) => DocV::Obj(
                    n.upsert("_profile"@, DocV::Obj(profile)),
                ),
                _ => DocV::Obj(n),
            },
            _ => DocV::Obj(n),
        },
        _ => next,
    }
}

/// Copies the previous configuration's `_profile` object, if any, onto
/// the next configuration.
pub fn preserve_provider_profile(next_config: &Doc, previous_config: &Doc) -> (r: Doc)
    ensures
        r@ == preserve_profile(next_config@, previous_config@),
{
    let next = match next_config {
        Doc::Obj(n) => n,
        _ => {
            return next_config.clone();
        },
    };
    let previous = match previous_config {
        Doc::Obj(p) => p,
        _ => {
            return next_config.clone();
        },
    };
    match previous.get("_profile") {
        Some(profile) => {
            if profile.is_object() {
                Doc::Obj(next.clone().upsert(String::from_str("_profile"), profile.clone()))
            } else {
                next_config.clone()
            }
        },
        None => next_config.clone(),
    }
}

/// Whether the object binds `k` to a string value.
pub open spec fn has_string_key(o: ObjV, k: Seq<char>) -> bool {
    match o.lookup(k) {
        Some(DocV::Text(_)) => true,
        _ => false,
    }
}

/// The normalized auth object: when `OPENAI_API_KEY` is not a string
/// but a legacy `api_key` string is present, the legacy key is copied
/// forward; `api_key` itself is never deleted.  Nothing but an object
/// normalizes.
pub open spec fn normalize_auth(auth: Option<DocV>) -> Option<ObjV> {
    match auth {
        Some(DocV::Obj(o)) => Some(
            if has_string_key(o, "OPENAI_API_KEY"@) {
                o
            } else {
                match o.lookup("api_key"@) {
                    Some(DocV::Text(s)) => o.upsert("OPENAI_API_KEY"@, DocV::Text(s)),
                    _ => o,
                }
            },
        ),
        _ => None,
    }
}

/// Normalizes an auth object read from disk or from a provider record.
pub fn normalize_codex_auth(auth_value: Option<&Doc>) -> (r: Option<DocObj>)
    ensures
        match r {
            Some(o) => normalize_auth(match auth_value {
                Some(d) => Some(d@),
                None => None,
            }) == Some(o@),
            None => normalize_auth(match auth_value {
                Some(d) => Some(d@),
                None => None,
            }) is None,
        },
{
    let auth = match auth_value {
        Some(d) => d,
        None => {
            return None;
        },
    };
    let auth_obj = match auth.as_object() {
        Some(o) => o,
        None => {
            return None;
        },
    };
    let has_openai_key = match auth_obj.get("OPENAI_API_KEY") {
        Some(v) => v.as_text().is_some(),
        None => false,
    };
    if has_openai_key {
        return Some(auth_obj.clone());
    }
    match auth_obj.get("api_key") {
        Some(v) => match v.as_text() {
            Some(s) => {
                let key_text = s.clone();
                Some(auth_obj.clone().upsert(String::from_str("OPENAI_API_KEY"), Doc::Text(key_text)))
            },
            None => Some(auth_obj.clone()),
        },
        None => Some(auth_obj.clone()),
    }
}

/// The text configuration carried by a normalized document: the
/// `config` field if it is a string, else the legacy `configToml`.
pub open spec fn codex_config_text(d: DocV) -> Option<Seq<char>> {
    match d.get("config"@) {
        Some(DocV::Text(s)) => Some(s),
        _ => match d.get("configToml"@) {
            Some(DocV::Text(s)) => Some(s),
            _ => None,
        },
    }
}

/// Extracts the text configuration, preferring `config` over the
/// legacy `configToml` field.
pub fn extract_codex_config_text(config_value: &Doc) -> (r: Option<String>)
    ensures
        match r {
            Some(s) => codex_config_text(config_value@) == Some(s@),
            None => codex_config_text(config_value@) is None,
        },
{
    match config_value.get("config") {
        Some(v) => match v.as_text() {
            Some(s) => {
                return Some(s.clone());
            },
            None => {},
        },
        None => {},
    }
    match config_value.get("configToml") {
        Some(v) => match v.as_text() {
            Some(s) => Some(s.clone()),
            None => None,
        },
        None => None,
    }
}

/// Shallow key-wise overlay: every binding of the patch replaces the
/// base's binding wholesale.
pub open spec fn overlay_obj(base: ObjV, next: ObjV) -> ObjV
    decreases next,
{
    match next {
        ObjV::Nil => base,
        ObjV::Entry(k, v, rest) => overlay_obj(base.upsert(k, *v), *rest),
    }
}

pub fn overlay_obj_exec(base: DocObj, next: &DocObj) -> (r: DocObj)
    ensures
        r@ == overlay_obj(base@, next@),
    decreases *next,
{
    match next {
        DocObj::Nil => base,
        DocObj::Entry(k, v, rest) => {
            let folded = base.upsert(k.clone(), (**v).clone());
            overlay_obj_exec(folded, &**rest)
        },
    }
}

/// The object bound to `k`, or the empty object.
pub open spec fn obj_at_or_empty(d: DocV, k: Seq<char>) -> ObjV {
    match d.get(k) {
        Some(DocV::Obj(o)) => o,
        _ => ObjV::Nil,
    }
}

/// The value bound to `k`, or the empty object document.
pub open spec fn value_at_or_empty_obj(d: DocV, k: Seq<char>) -> DocV {
    match d.get(k) {
        Some(v) => v,
        None => DocV::Obj(ObjV::Nil),
    }
}

/// The merged live document for the two-field auth + text layout.
pub open spec fn codex_merged(auth: Option<ObjV>, config: Option<Seq<char>>) -> DocV {
    let with_auth = match auth {
        Some(a) => ObjV::Nil.upsert("auth"@, DocV::Obj(a)),
        None => ObjV::Nil,
    };
    let with_config = match config {
        Some(s) => with_auth.upsert("config"@, DocV::Text(s)),
        None => with_auth,
    };
    DocV::Obj(with_config)
}

/// The merged live configuration, per tool type:
/// recursive deep merge for `ToolA`; field-wise replacement of `auth`
/// and `config` for `Codex`; shallow `env` overlay plus deep `settings`
/// merge for `Gemini`.  The provider document is sanitized first.
pub open spec fn merge_live(t: AppType, live: DocV, provider: DocV) -> DocV {
    let sanitized = sanitize_doc(provider);
    match t {
        AppType::ToolA => merge_doc(live, sanitized),
        AppType::Codex => {
            let auth = match normalize_auth(sanitized.get("auth"@)) {
                Some(a) => Some(a),
                None => normalize_auth(live.get("auth"@)),
            };
            let config = match codex_config_text(sanitized) {
                Some(s) => Some(s),
                None => codex_config_text(live),
            };
            codex_merged(auth, config)
        },
        AppType::Gemini => {
            let merged_env = overlay_obj(
                obj_at_or_empty(live, "env"@),
                obj_at_or_empty(sanitized, "env"@),
            );
            let merged_settings = merge_doc(
                value_at_or_empty_obj(live, "settings"@),
                value_at_or_empty_obj(sanitized, "settings"@),
            );
            DocV::Obj(
                ObjV::Nil.upsert("env"@, DocV::Obj(merged_env)).upsert(
                    "settings"@,
                    merged_settings,
                ),
            )
        },
    }
}

fn obj_at_or_empty_exec(d: &Doc, key: &str) -> (r: DocObj)
    ensures
        r@ == obj_at_or_empty(d@, key@),
{
    match d.get(key) {
        Some(v) => match v.as_object() {
            Some(o) => o.clone(),
            None => DocObj::Nil,
        },
        None => DocObj::Nil,
    }
}

fn value_at_or_empty_obj_exec(d: &Doc, key: &str) -> (r: Doc)
    ensures
        r@ == value_at_or_empty_obj(d@, key@),
{
    match d.get(key) {
        Some(v) => v.clone(),
        None => Doc::empty_object(),
    }
}

/// Merges a provider's (sanitized) configuration into the live
/// document, per the tool type's merge algorithm.
pub fn merge_live_config(app_type: &AppType, live_config: &Doc, provider_config: &Doc) -> (r: Doc)
    ensures
        r@ == merge_live(*app_type, live_config@, provider_config@),
{
    let sanitized_provider = sanitize_provider_config_for_live(provider_config);
    match app_type {
        AppType::ToolA => deep_merge_json(live_config, &sanitized_provider),
        AppType::Codex => {
            let next_auth = normalize_codex_auth(sanitized_provider.get("auth"));
            let auth = match next_auth {
                Some(a) => Some(a),
                None => normalize_codex_auth(live_config.get("auth")),
            };
            let config_text = match extract_codex_config_text(&sanitized_provider) {
                Some(s) => Some(s),
                None => extract_codex_config_text(live_config),
            };
            let with_auth = match auth {
                Some(a) => DocObj::empty().upsert(String::from_str("auth"), Doc::Obj(a)),
                None => DocObj::empty(),
            };
            let with_config = match config_text {
                Some(s) => with_auth.upsert(String::from_str("config"), Doc::Text(s)),
                None => with_auth,
            };
            Doc::Obj(with_config)
        },
        AppType::Gemini => {
            let live_env = obj_at_or_empty_exec(live_config, "env");
            let next_env = obj_at_or_empty_exec(&sanitized_provider, "env");
            let merged_env = overlay_obj_exec(live_env, &next_env);
            let live_settings = value_at_or_empty_obj_exec(live_config, "settings");
            let next_settings = value_at_or_empty_obj_exec(&sanitized_provider, "settings");
            let merged_settings = deep_merge_json(&live_settings, &next_settings);
            let folded = DocObj::empty().upsert(String::from_str("env"), Doc::Obj(merged_env))
                .upsert(String::from_str("settings"), merged_settings);
            Doc::Obj(folded)
        },
    }
}

/// Whether a normalized document meets the tool type's structural
/// requirement: any object for `ToolA`; at least one of an `auth`
/// object or a `config` string for `Codex`; at least one of an `env`
/// object or a `settings` object for `Gemini`.  Non-objects never
/// validate.
pub open spec fn valid_for_live(t: AppType, d: DocV) -> bool {
    d is Obj && match t {
        AppType::ToolA => true,
        AppType::Codex => (match d.get("auth"@) {
            Some(DocV::Obj(_)) => true,
            _ => false,
        }) || (match d.get("config"@) {
            Some(DocV::Text(_)) => true,
            _ => false,
        }),
        AppType::Gemini => (match d.get("env"@) {
            Some(DocV::Obj(_)) => true,
            _ => false,
        }) || (match d.get("settings"@) {
            Some(DocV::Obj(_)) => true,
            _ => false,
        }),
    }
}

/// The message reported when a document fails validation.
pub open spec fn validate_error_msg(t: AppType, d: DocV) -> Seq<char> {
    if !(d is Obj) {
        "Provider config must be an object."@
    } else {
        match t {
            AppType::ToolA => Seq::<char>::empty(),
            AppType::Codex => "Codex provider config must include auth and/or config."@,
            AppType::Gemini => "Gemini provider config must include env and/or settings."@,
        }
    }
}

/// Validates a normalized document against the tool type's structural
/// requirement; rejection carries the exact reason.
pub fn validate_provider_config_for_live(app_type: &AppType, provider_config: &Doc) -> (r: Result<
    (),
    String,
>)
    ensures
        match r {
            Ok(()) => valid_for_live(*app_type, provider_config@),
            Err(m) => !valid_for_live(*app_type, provider_config@) && m@ == validate_error_msg(
                *app_type,
                provider_config@,
            ),
        },
{
    if !provider_config.is_object() {
        return Err(String::from_str("Provider config must be an object."));
    }
    match app_type {
        AppType::ToolA => Ok(()),
        AppType::Codex => {
            let has_auth = match provider_config.get("auth") {
                Some(v) => v.is_object(),
                None => false,
            };
            let has_config = match provider_config.get("config") {
                Some(v) => v.as_text().is_some(),
                None => false,
            };
            if !has_auth && !has_config {
                return Err(
                    String::from_str("Codex provider config must include auth and/or config."),
                );
            }
            Ok(())
        },
        AppType::Gemini => {
            let has_env = match provider_config.get("env") {
                Some(v) => v.is_object(),
                None => false,
            };
            let has_settings = match provider_config.get("settings") {
                Some(v) => v.is_object(),
                None => false,
            };
            if !has_env && !has_settings {
                return Err(
                    String::from_str("Gemini provider config must include env and/or settings."),
                );
            }
            Ok(())
        },
    }
}

/// The live document as captured for an "official" provider snapshot:
/// for `Codex` the real key is scrubbed by forcing `OPENAI_API_KEY` to
/// a null placeholder and dropping the legacy `api_key`; other tool
/// types are captured as they are.
pub open spec fn capture_sanitized(t: AppType, live: DocV) -> DocV {
    if t != AppType::Codex {
        live
    } else {
        match live {
            DocV::Obj(o) => {
                let auth = obj_at_or_empty(live, "auth"@);
                let scrubbed = auth.upsert("OPENAI_API_KEY"@, DocV::Null).remove("api_key"@);
                DocV::Obj(o.upsert("auth"@, DocV::Obj(scrubbed)))
            },
            _ => live,
        }
    }
}

/// Scrubs tool-specific secrets from a live snapshot before it is
/// stored as a captured provider.
pub fn sanitize_official_capture_config(app_type: &AppType, live_config: &Doc) -> (r: Doc)
    ensures
        r@ == capture_sanitized(*app_type, live_config@),
{
    if !matches!(app_type, AppType::Codex) {
        return live_config.clone();
    }
    let live_obj = match live_config.as_object() {
        Some(o) => o,
        None => {
            return live_config.clone();
        },
    };
    let auth = obj_at_or_empty_exec(live_config, "auth");
    let scrubbed = auth.upsert(String::from_str("OPENAI_API_KEY"), Doc::Null).remove("api_key");
    Doc::Obj(live_obj.clone().upsert(String::from_str("auth"), Doc::Obj(scrubbed)))
}

/// Law: the deep merge of a well-formed document with itself gives it
/// back, so re-applying the current provider's configuration to an
/// unchanged live file is a no-op.
pub proof fn lemma_toola_merge_self(d: DocV)
    requires
        d.wf(),
    ensures
        merge_live(AppType::ToolA, d, d) == d,
{
    match d {
        DocV::Obj(o) => {
            lemma_remove_within(o, "_profile"@);
            lemma_merge_obj_within(o, o.remove("_profile"@));
        },
        _ => {},
    }
}

} // verus!
