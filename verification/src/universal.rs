//! Universal providers: one credential/endpoint shared across tools,
//! fanned out into one synthesized provider record per enabled tool.
//!
//! Re-applying the same universal provider updates the records it
//! synthesized before (found through the `_profile.universalId` tag)
//! instead of duplicating them.

use vstd::prelude::*;
use vstd::string::StringExecFns;
use crate::doc::Doc;
use crate::doc::DocObj;
use crate::doc::DocV;
use crate::records::DesktopState;
use crate::records::ProviderRecord;
use crate::records::ProviderRecordV;
use crate::records::UniversalProviderApps;
use crate::records::UniversalProviderModels;
use crate::records::UniversalProviderRecord;
use crate::records::UniversalProviderRecordV;
use crate::records::provider_views;
use crate::registry::current_count;
use crate::registry::is_current_of;
use crate::registry::lemma_count_pointwise;
use crate::registry::lemma_count_push;
use crate::registry::profile_universal_id;
use crate::registry::single_current;
use crate::registry::universal_id_of;
use crate::strutil::optional_trim;
use crate::strutil::str_eq;
use crate::strutil::string_eq;
use crate::strutil::trimmed_spec;
use crate::types::AppType;
use crate::types::app_type_name;

verus! {

/// The views of a sequence of universal provider records.
pub open spec fn universal_views(s: Seq<UniversalProviderRecord>) -> Seq<
    UniversalProviderRecordV,
> {
    Seq::new(s.len(), |i: int| s[i]@)
}

/// Finds the first universal record with the given id.
fn find_universal(records: &Vec<UniversalProviderRecord>, id: &str) -> (r: Option<usize>)
    ensures
        match r {
            Some(i) => i < records@.len() && records@[i as int].id@ == id@ && (forall|j: int|
                0 <= j < i ==> (#[trigger] records@[j]).id@ != id@),
            None => forall|j: int| 0 <= j < records@.len() ==> (#[trigger] records@[j]).id@ != id@,
        },
{
    let n = records.len();
    let mut i: usize = 0;
    while i < n
        invariant
            0 <= i <= n,
            n == records@.len(),
            forall|j: int| 0 <= j < i ==> (#[trigger] records@[j]).id@ != id@,
        decreases n - i,
    {
        if str_eq(records[i].id.as_str(), id) {
            return Some(i);
        }
        i += 1;
    }
    None
}

/// Lists every universal provider.
pub fn universal_provider_list(state: &DesktopState) -> (r: Vec<UniversalProviderRecord>)
    ensures
        universal_views(r@) == universal_views(state.universal_providers@),
{
    let n = state.universal_providers.len();
    let mut out: Vec<UniversalProviderRecord> = Vec::new();
    let mut i: usize = 0;
    while i < n
        invariant
            0 <= i <= n,
            n == state.universal_providers@.len(),
            out@.len() == i,
            forall|j: int| 0 <= j < i ==> #[trigger] out@[j]@ == state.universal_providers@[j]@,
        decreases n - i,
    {
        out.push(state.universal_providers[i].clone());
        i += 1;
    }
    assert(universal_views(out@) =~= universal_views(state.universal_providers@));
    out
}

/// The universal record with the given id; absence is an error.
pub fn universal_provider_get_raw(state: &DesktopState, id: &str) -> (r: Result<
    UniversalProviderRecord,
    String,
>)
    ensures
        match r {
            Ok(u) => exists|i: int|
                0 <= i < state.universal_providers@.len() && (#[trigger] state.universal_providers@[
                    i]).id@ == id@ && u@ == state.universal_providers@[i]@,
            Err(m) => (forall|i: int|
                0 <= i < state.universal_providers@.len() ==> (#[trigger] state.universal_providers@[
                    i]).id@ != id@) && m@ == "Universal provider not found."@,
        },
{
    match find_universal(&state.universal_providers, id) {
        Some(i) => Ok(state.universal_providers[i].clone()),
        None => Err(String::from_str("Universal provider not found.")),
    }
}

/// Adds a universal provider; name, base URL and API key are all
/// required to be non-blank.
pub fn universal_provider_add(
    state: &mut DesktopState,
    name: &str,
    base_url: &str,
    api_key: &str,
    website_url: Option<String>,
    notes: Option<String>,
    apps: Option<UniversalProviderApps>,
    models: Option<UniversalProviderModels>,
    id: String,
    now: i64,
) -> (r: Result<UniversalProviderRecord, String>)
    ensures
        match r {
            Ok(u) => trimmed_spec(name@).len() > 0 && trimmed_spec(base_url@).len() > 0
                && trimmed_spec(api_key@).len() > 0 && u.id@ == id@ && u.name@ == trimmed_spec(
                name@,
            ) && u.base_url@ == trimmed_spec(base_url@) && u.api_key@ == trimmed_spec(api_key@)
                && u.created_at == now && u.updated_at == now && universal_views(
                final(state).universal_providers@,
            ) == universal_views(old(state).universal_providers@).push(u@),
            Err(m) => (trimmed_spec(name@).len() == 0 || trimmed_spec(base_url@).len() == 0
                || trimmed_spec(api_key@).len() == 0) && *final(state) == *old(state) && m@
                == "Universal provider name/baseUrl/apiKey are required."@,
        },
        final(state).providers == old(state).providers,
        final(state).config == old(state).config,
        final(state).provider_backups == old(state).provider_backups,
        final(state).kits == old(state).kits,
        final(state).kit_policies == old(state).kit_policies,
        final(state).kit_loadouts == old(state).kit_loadouts,
        final(state).skills == old(state).skills,
        final(state).skill_documents == old(state).skill_documents,
        final(state).agents_md_applied == old(state).agents_md_applied,
{
    let trimmed_name = match optional_trim(Some(String::from_str(name))) {
        Some(v) => v,
        None => {
            return Err(
                String::from_str("Universal provider name/baseUrl/apiKey are required."),
            );
        },
    };
    let trimmed_base = match optional_trim(Some(String::from_str(base_url))) {
        Some(v) => v,
        None => {
            return Err(
                String::from_str("Universal provider name/baseUrl/apiKey are required."),
            );
        },
    };
    let trimmed_key = match optional_trim(Some(String::from_str(api_key))) {
        Some(v) => v,
        None => {
            return Err(
                String::from_str("Universal provider name/baseUrl/apiKey are required."),
            );
        },
    };
    let record = UniversalProviderRecord {
        id,
        name: trimmed_name,
        base_url: trimmed_base,
        api_key: trimmed_key,
        website_url: optional_trim(website_url),
        notes: optional_trim(notes),
        apps: UniversalProviderApps::with_defaults(apps),
        models: match models {
            Some(m) => m,
            None => UniversalProviderModels::empty(),
        },
        created_at: now,
        updated_at: now,
    };
    let result = record.clone();
    let ghost old_records = state.universal_providers@;
    state.universal_providers.push(record);
    proof {
        assert(universal_views(state.universal_providers@) =~= universal_views(
            old_records,
        ).push(result@));
    }
    Ok(result)
}

/// Updates a universal provider in place: blank or absent fields keep
/// their stored values; apps and models are replaced wholesale when
/// given.
pub fn universal_provider_update(
    state: &mut DesktopState,
    id: &str,
    name: Option<String>,
    base_url: Option<String>,
    api_key: Option<String>,
    website_url: Option<String>,
    notes: Option<String>,
    apps: Option<UniversalProviderApps>,
    models: Option<UniversalProviderModels>,
    now: i64,
) -> (r: Result<UniversalProviderRecord, String>)
    ensures
        match r {
            Ok(u) => exists|i: int|
                {
                    let existing = (#[trigger] old(state).universal_providers@[i])@;
                    0 <= i < old(state).universal_providers@.len() && existing.id == id@ && (
                    forall|j: int|
                        0 <= j < i ==> (#[trigger] old(state).universal_providers@[j]).id@ != id@)
                        && u.id@ == existing.id && u.name@ == (match name {
                        Some(n) => if trimmed_spec(n@).len() > 0 {
                            trimmed_spec(n@)
                        } else {
                            existing.name
                        },
                        None => existing.name,
                    }) && u.base_url@ == (match base_url {
                        Some(n) => if trimmed_spec(n@).len() > 0 {
                            trimmed_spec(n@)
                        } else {
                            existing.base_url
                        },
                        None => existing.base_url,
                    }) && u.api_key@ == (match api_key {
                        Some(n) => if trimmed_spec(n@).len() > 0 {
                            trimmed_spec(n@)
                        } else {
                            existing.api_key
                        },
                        None => existing.api_key,
                    }) && u@.apps == (match apps {
                        Some(a) => a,
                        None => existing.apps,
                    }) && u@.models == (match models {
                        Some(m) => m@,
                        None => existing.models,
                    }) && u.created_at == existing.created_at && u.updated_at == now
                        && universal_views(final(state).universal_providers@) == universal_views(
                        old(state).universal_providers@,
                    ).update(i, u@)
                },
            Err(m) => (forall|i: int|
                0 <= i < old(state).universal_providers@.len() ==> (#[trigger] old(
                    state,
                ).universal_providers@[i]).id@ != id@) && *final(state) == *old(state) && m@
                == "Universal provider not found."@,
        },
        final(state).providers == old(state).providers,
        final(state).config == old(state).config,
        final(state).provider_backups == old(state).provider_backups,
        final(state).kits == old(state).kits,
        final(state).kit_policies == old(state).kit_policies,
        final(state).kit_loadouts == old(state).kit_loadouts,
        final(state).skills == old(state).skills,
        final(state).skill_documents == old(state).skill_documents,
        final(state).agents_md_applied == old(state).agents_md_applied,
{
    let index = match find_universal(&state.universal_providers, id) {
        Some(i) => i,
        None => {
            return Err(String::from_str("Universal provider not found."));
        },
    };
    let mut record = state.universal_providers[index].clone();
    match optional_trim(name) {
        Some(v) => {
            record.name = v;
        },
        None => {},
    }
    match optional_trim(base_url) {
        Some(v) => {
            record.base_url = v;
        },
        None => {},
    }
    match optional_trim(api_key) {
        Some(v) => {
            record.api_key = v;
        },
        None => {},
    }
    record.website_url = match optional_trim(website_url) {
        Some(v) => Some(v),
        None => record.website_url,
    };
    record.notes = match optional_trim(notes) {
        Some(v) => Some(v),
        None => record.notes,
    };
    match apps {
        Some(a) => {
            record.apps = a;
        },
        None => {},
    }
    match models {
        Some(m) => {
            record.models = m;
        },
        None => {},
    }
    record.updated_at = now;
    let result = record.clone();
    let ghost old_records = state.universal_providers@;
    state.universal_providers.set(index, record);
    proof {
        assert(universal_views(state.universal_providers@) =~= universal_views(
            old_records,
        ).update(index as int, result@));
    }
    Ok(result)
}

/// Deletes every universal record with the given id; reports whether
/// anything was deleted.
pub fn universal_provider_delete(state: &mut DesktopState, id: &str) -> (r: bool)
    ensures
        universal_views(final(state).universal_providers@) == universal_views(
            old(state).universal_providers@,
        ).filter(|u: UniversalProviderRecordV| u.id != id@),
        r == exists|i: int|
            0 <= i < old(state).universal_providers@.len() && (#[trigger] old(
                state,
            ).universal_providers@[i]).id@ == id@,
        final(state).providers == old(state).providers,
        final(state).config == old(state).config,
        final(state).provider_backups == old(state).provider_backups,
        final(state).kits == old(state).kits,
        final(state).kit_policies == old(state).kit_policies,
        final(state).kit_loadouts == old(state).kit_loadouts,
        final(state).skills == old(state).skills,
        final(state).skill_documents == old(state).skill_documents,
        final(state).agents_md_applied == old(state).agents_md_applied,
{
    let ghost uv = universal_views(state.universal_providers@);
    let ghost pred = |u: UniversalProviderRecordV| u.id != id@;
    let n = state.universal_providers.len();
    let mut kept: Vec<UniversalProviderRecord> = Vec::new();
    let mut removed = false;
    let mut i: usize = 0;
    proof {
        assert(uv.take(0) =~= Seq::<UniversalProviderRecordV>::empty());
        reveal_with_fuel(Seq::filter, 1);
        assert(universal_views(kept@) =~= uv.take(0).filter(pred));
    }
    while i < n
        invariant
            0 <= i <= n,
            n == state.universal_providers@.len(),
            uv == universal_views(state.universal_providers@),
            pred == (|u: UniversalProviderRecordV| u.id != id@),
            universal_views(kept@) == uv.take(i as int).filter(pred),
            removed == exists|j: int|
                0 <= j < i && (#[trigger] state.universal_providers@[j]).id@ == id@,
        decreases n - i,
    {
        let ghost vprefix = uv.take(i as int);
        let ghost vprefix_next = uv.take(i + 1);
        proof {
            assert(vprefix_next.drop_last() =~= vprefix);
            assert(vprefix_next.last() == uv[i as int]);
            reveal_with_fuel(Seq::filter, 2);
        }
        let u = &state.universal_providers[i];
        if !str_eq(u.id.as_str(), id) {
            kept.push(u.clone());
            assert(universal_views(kept@) =~= vprefix.filter(pred).push(uv[i as int]));
        } else {
            removed = true;
            assert(!pred(uv[i as int]));
        }
        i += 1;
    }
    proof {
        assert(uv.take(n as int) =~= uv);
    }
    state.universal_providers = kept;
    removed
}

/// Whether a universal provider fans out to the given tool type.
pub open spec fn app_enabled(apps: UniversalProviderApps, t: AppType) -> bool {
    match t {
        AppType::ToolA => apps.toola,
        AppType::Codex => apps.codex,
        AppType::Gemini => apps.gemini,
    }
}

/// The model chosen for the given tool type, if any.
pub open spec fn model_for(u: UniversalProviderRecordV, t: AppType) -> Option<Seq<char>> {
    let mc = match t {
        AppType::ToolA => u.models.toola,
        AppType::Codex => u.models.codex,
        AppType::Gemini => u.models.gemini,
    };
    match mc {
        Some(m) => m.model,
        None => None,
    }
}

/// The `_profile` side-car a synthesized provider carries.
pub open spec fn universal_profile(u: UniversalProviderRecordV, t: AppType) -> crate::doc::ObjV {
    let seeded = crate::doc::ObjV::Nil.upsert("kind"@, DocV::Text("api"@)).upsert(
        "vendorKey"@,
        DocV::Text("universal"@),
    ).upsert("universalId"@, DocV::Text(u.id));
    let with_website = match u.website_url {
        Some(w) => seeded.upsert("website"@, DocV::Text(w)),
        None => seeded,
    };
    let with_note = match u.notes {
        Some(n) => with_website.upsert("note"@, DocV::Text(n)),
        None => with_website,
    };
    let with_model = match model_for(u, t) {
        Some(m) => with_note.upsert("model"@, DocV::Text(m)),
        None => with_note,
    };
    with_model.upsert("endpoint"@, DocV::Text(u.base_url))
}

/// The text configuration written for the auth-and-text tool.
pub open spec fn universal_codex_config_text(model: Seq<char>, base_url: Seq<char>) -> Seq<char> {
    "model = \""@ + model + "\"\\napi_base_url = \""@ + base_url + "\"\\n"@
}

/// The configuration a universal provider synthesizes for one tool.
pub open spec fn universal_config(t: AppType, u: UniversalProviderRecordV) -> DocV {
    let profile = universal_profile(u, t);
    if t == AppType::Codex {
        let model = match model_for(u, t) {
            Some(m) => m,
            None => "gpt-5.2"@,
        };
        DocV::Obj(
            crate::doc::ObjV::Nil.upsert("_profile"@, DocV::Obj(profile)).upsert(
                "auth"@,
                DocV::Obj(
                    crate::doc::ObjV::Nil.upsert("OPENAI_API_KEY"@, DocV::Text(u.api_key)),
                ),
            ).upsert("config"@, DocV::Text(universal_codex_config_text(model, u.base_url))),
        )
    } else {
        let seeded = crate::doc::ObjV::Nil.upsert("_profile"@, DocV::Obj(profile)).upsert(
            "apiKey"@,
            DocV::Text(u.api_key),
        ).upsert("endpoint"@, DocV::Text(u.base_url));
        let with_model = match model_for(u, t) {
            Some(m) => seeded.upsert("model"@, DocV::Text(m)),
            None => seeded,
        };
        DocV::Obj(with_model)
    }
}

fn model_for_exec(u: &UniversalProviderRecord, t: &AppType) -> (r: Option<String>)
    ensures
        match r {
            Some(m) => model_for(u@, *t) == Some(m@),
            None => model_for(u@, *t) is None,
        },
{
    let mc = match t {
        AppType::ToolA => &u.models.toola,
        AppType::Codex => &u.models.codex,
        AppType::Gemini => &u.models.gemini,
    };
    match mc {
        Some(m) => match &m.model {
            Some(s) => Some(s.clone()),
            None => None,
        },
        None => None,
    }
}

/// Builds the configuration a universal provider synthesizes for one
/// tool type.
pub fn build_provider_config_for_universal(app_type: &AppType, universal: &UniversalProviderRecord) -> (r:
    Doc)
    ensures
        r@ == universal_config(*app_type, universal@),
{
    let seeded = DocObj::empty().upsert(
        String::from_str("kind"),
        Doc::Text(String::from_str("api")),
    ).upsert(String::from_str("vendorKey"), Doc::Text(String::from_str("universal"))).upsert(
        String::from_str("universalId"),
        Doc::Text(universal.id.clone()),
    );
    let with_website = match &universal.website_url {
        Some(w) => seeded.upsert(String::from_str("website"), Doc::Text(w.clone())),
        None => seeded,
    };
    let with_note = match &universal.notes {
        Some(n) => with_website.upsert(String::from_str("note"), Doc::Text(n.clone())),
        None => with_website,
    };
    let model = model_for_exec(universal, app_type);
    let with_model = match &model {
        Some(m) => with_note.upsert(String::from_str("model"), Doc::Text(m.clone())),
        None => with_note,
    };
    let profile = with_model.upsert(
        String::from_str("endpoint"),
        Doc::Text(universal.base_url.clone()),
    );
    if matches!(app_type, AppType::Codex) {
        let model_value = match model {
            Some(m) => m,
            None => String::from_str("gpt-5.2"),
        };
        let config_text = String::from_str("model = \"").concat(model_value.as_str()).concat(
            "\"\\napi_base_url = \"",
        ).concat(universal.base_url.as_str()).concat("\"\\n");
        Doc::Obj(
            DocObj::empty().upsert(String::from_str("_profile"), Doc::Obj(profile)).upsert(
                String::from_str("auth"),
                Doc::Obj(
                    DocObj::empty().upsert(
                        String::from_str("OPENAI_API_KEY"),
                        Doc::Text(universal.api_key.clone()),
                    ),
                ),
            ).upsert(String::from_str("config"), Doc::Text(config_text)),
        )
    } else {
        let seeded_config = DocObj::empty().upsert(
            String::from_str("_profile"),
            Doc::Obj(profile),
        ).upsert(String::from_str("apiKey"), Doc::Text(universal.api_key.clone())).upsert(
            String::from_str("endpoint"),
            Doc::Text(universal.base_url.clone()),
        );
        let with_model_config = match model_for_exec(universal, app_type) {
            Some(m) => seeded_config.upsert(String::from_str("model"), Doc::Text(m)),
            None => seeded_config,
        };
        Doc::Obj(with_model_config)
    }
}

/// The display name of a synthesized provider.
pub open spec fn universal_name(u: UniversalProviderRecordV, t: AppType) -> Seq<char> {
    u.name + " ("@ + app_type_name(t) + ")"@
}

/// The first record of the given type tagged with the universal id.
pub open spec fn find_universal_provider_index(
    s: Seq<ProviderRecordV>,
    t: AppType,
    uid: Seq<char>,
) -> Option<int>
    decreases s.len(),
{
    if s.len() == 0 {
        None
    } else if s[0].app_type == t && universal_id_of(s[0].config) == Some(uid) {
        Some(0)
    } else {
        match find_universal_provider_index(s.drop_first(), t, uid) {
            Some(i) => Some(i + 1),
            None => None,
        }
    }
}

proof fn lemma_find_universal_provider_index(s: Seq<ProviderRecordV>, t: AppType, uid: Seq<char>)
    ensures
        match find_universal_provider_index(s, t, uid) {
            Some(i) => 0 <= i < s.len() && s[i].app_type == t && universal_id_of(s[i].config)
                == Some(uid) && forall|j: int|
                0 <= j < i ==> !((#[trigger] s[j]).app_type == t && universal_id_of(s[j].config)
                    == Some(uid)),
            None => forall|j: int|
                0 <= j < s.len() ==> !((#[trigger] s[j]).app_type == t && universal_id_of(
                    s[j].config,
                ) == Some(uid)),
        },
    decreases s.len(),
{
    if s.len() > 0 && !(s[0].app_type == t && universal_id_of(s[0].config) == Some(uid)) {
        let rest = s.drop_first();
        lemma_find_universal_provider_index(rest, t, uid);
        match find_universal_provider_index(rest, t, uid) {
            Some(i) => {
                assert(s[i + 1] == rest[i]);
                assert forall|j: int| 0 <= j < i + 1 implies !((#[trigger] s[j]).app_type == t
                    && universal_id_of(s[j].config) == Some(uid)) by {
                    if j > 0 {
                        assert(rest[j - 1] == s[j]);
                    }
                }
            },
            None => {
                assert forall|j: int| 0 <= j < s.len() implies !((#[trigger] s[j]).app_type == t
                    && universal_id_of(s[j].config) == Some(uid)) by {
                    if j > 0 {
                        assert(rest[j - 1] == s[j]);
                    }
                }
            },
        }
    }
}

/// The record one fan-out step leaves for the tool: the refreshed
/// existing record, or a freshly created non-current one.
pub open spec fn applied_record(
    s: Seq<ProviderRecordV>,
    t: AppType,
    u: UniversalProviderRecordV,
    fresh_id: Seq<char>,
    now: int,
) -> ProviderRecordV {
    match find_universal_provider_index(s, t, u.id) {
        Some(i) => ProviderRecordV {
            id: s[i].id,
            app_type: s[i].app_type,
            name: universal_name(u, t),
            config: universal_config(t, u),
            is_current: s[i].is_current,
            created_at: s[i].created_at,
            updated_at: now,
        },
        None => ProviderRecordV {
            id: fresh_id,
            app_type: t,
            name: universal_name(u, t),
            config: universal_config(t, u),
            is_current: false,
            created_at: now,
            updated_at: now,
        },
    }
}

/// The provider records after one fan-out step.
pub open spec fn apply_universal_one(
    s: Seq<ProviderRecordV>,
    t: AppType,
    u: UniversalProviderRecordV,
    fresh_id: Seq<char>,
    now: int,
) -> Seq<ProviderRecordV> {
    match find_universal_provider_index(s, t, u.id) {
        Some(i) => s.update(i, applied_record(s, t, u, fresh_id, now)),
        None => s.push(applied_record(s, t, u, fresh_id, now)),
    }
}

fn find_tagged(providers: &Vec<ProviderRecord>, t: &AppType, uid: &String) -> (r: Option<usize>)
    ensures
        match r {
            Some(i) => i < providers@.len() && providers@[i as int].app_type == *t
                && universal_id_of(providers@[i as int].config@) == Some(uid@) && forall|j: int|
                0 <= j < i ==> !((#[trigger] providers@[j]).app_type == *t && universal_id_of(
                    providers@[j].config@,
                ) == Some(uid@)),
            None => forall|j: int|
                0 <= j < providers@.len() ==> !((#[trigger] providers@[j]).app_type == *t
                    && universal_id_of(providers@[j].config@) == Some(uid@)),
        },
{
    let n = providers.len();
    let mut i: usize = 0;
    while i < n
        invariant
            0 <= i <= n,
            n == providers@.len(),
            forall|j: int|
                0 <= j < i ==> !((#[trigger] providers@[j]).app_type == *t && universal_id_of(
                    providers@[j].config@,
                ) == Some(uid@)),
        decreases n - i,
    {
        let p = &providers[i];
        let tagged = if p.app_type == *t {
            match profile_universal_id(p) {
                Some(found_uid) => string_eq(&found_uid, uid),
                None => false,
            }
        } else {
            false
        };
        if tagged {
            return Some(i);
        }
        i += 1;
    }
    None
}

fn apply_universal_tool(
    providers: &mut Vec<ProviderRecord>,
    applied: &mut Vec<ProviderRecord>,
    t: AppType,
    universal: &UniversalProviderRecord,
    fresh_id: String,
    now: i64,
)
    ensures
        provider_views(final(providers)@) == apply_universal_one(
            provider_views(old(providers)@),
            t,
            universal@,
            fresh_id@,
            now as int,
        ),
        provider_views(final(applied)@) == provider_views(old(applied)@).push(
            applied_record(provider_views(old(providers)@), t, universal@, fresh_id@, now as int),
        ),
        single_current(old(providers)@) ==> single_current(final(providers)@),
{
    let ghost pv = provider_views(providers@);
    proof {
        lemma_find_universal_provider_index(pv, t, universal@.id);
    }
    let found = find_tagged(providers, &t, &universal.id);
    let name = universal.name.clone().concat(" (").concat(t.as_str()).concat(")");
    let config = build_provider_config_for_universal(&t, universal);
    match found {
        Some(fi) => {
            proof {
                match find_universal_provider_index(pv, t, universal@.id) {
                    Some(si) => {
                        if si < fi as int {
                            assert(!(pv[si].app_type == t && universal_id_of(pv[si].config)
                                == Some(universal@.id)));
                        }
                        if si > fi as int {
                            assert(!(pv[fi as int].app_type == t && universal_id_of(
                                pv[fi as int].config,
                            ) == Some(universal@.id)));
                        }
                    },
                    None => {
                        assert(!(pv[fi as int].app_type == t && universal_id_of(
                            pv[fi as int].config,
                        ) == Some(universal@.id)));
                    },
                }
            }
            let mut rec = providers[fi].clone();
            rec.name = name;
            rec.config = config;
            rec.updated_at = now;
            let result = rec.clone();
            let ghost before = providers@;
            providers.set(fi, rec);
            applied.push(result);
            proof {
                assert(provider_views(providers@) =~= apply_universal_one(
                    pv,
                    t,
                    universal@,
                    fresh_id@,
                    now as int,
                ));
                assert(provider_views(applied@) =~= provider_views(old(applied)@).push(
                    applied_record(pv, t, universal@, fresh_id@, now as int),
                ));
                if single_current(before) {
                    assert forall|t2: AppType| #[trigger] current_count(providers@, t2)
                        <= 1 by {
                        assert forall|j: int|
                            0 <= j < providers@.len() implies is_current_of(
                            #[trigger] providers@[j],
                            t2,
                        ) == is_current_of(before[j], t2) by {}
                        lemma_count_pointwise(providers@, before, t2);
                    }
                }
            }
        },
        None => {
            let record = ProviderRecord {
                id: fresh_id,
                app_type: t,
                name,
                config,
                is_current: false,
                created_at: now,
                updated_at: now,
            };
            let result = record.clone();
            let ghost before = providers@;
            providers.push(record);
            applied.push(result);
            proof {
                assert(provider_views(providers@) =~= apply_universal_one(
                    pv,
                    t,
                    universal@,
                    fresh_id@,
                    now as int,
                ));
                assert(provider_views(applied@) =~= provider_views(old(applied)@).push(
                    applied_record(pv, t, universal@, fresh_id@, now as int),
                ));
                if single_current(before) {
                    assert forall|t2: AppType| #[trigger] current_count(providers@, t2)
                        <= 1 by {
                        lemma_count_push(before, providers@.last(), t2);
                        assert(!is_current_of(providers@.last(), t2));
                    }
                }
            }
        },
    }
}

/// The provider records and the fan-out output after applying a
/// universal provider to every enabled tool, in tool order.
pub open spec fn apply_universal(
    s: Seq<ProviderRecordV>,
    u: UniversalProviderRecordV,
    fresh: Seq<Seq<char>>,
    now: int,
) -> (Seq<ProviderRecordV>, Seq<ProviderRecordV>) {
    let step0 = (s, Seq::<ProviderRecordV>::empty());
    let step1 = if app_enabled(u.apps, AppType::ToolA) {
        (
            apply_universal_one(step0.0, AppType::ToolA, u, fresh[0], now),
            step0.1.push(applied_record(step0.0, AppType::ToolA, u, fresh[0], now)),
        )
    } else {
        step0
    };
    let step2 = if app_enabled(u.apps, AppType::Codex) {
        (
            apply_universal_one(step1.0, AppType::Codex, u, fresh[1], now),
            step1.1.push(applied_record(step1.0, AppType::Codex, u, fresh[1], now)),
        )
    } else {
        step1
    };
    if app_enabled(u.apps, AppType::Gemini) {
        (
            apply_universal_one(step2.0, AppType::Gemini, u, fresh[2], now),
            step2.1.push(applied_record(step2.0, AppType::Gemini, u, fresh[2], now)),
        )
    } else {
        step2
    }
}

/// Applies a universal provider: for each enabled tool, the provider
/// record previously synthesized from it is refreshed, or a new
/// non-current record is created under the corresponding fresh id.
/// The single-current invariant is preserved.
pub fn universal_provider_apply(
    state: &mut DesktopState,
    id: &str,
    fresh_ids: Vec<String>,
    now: i64,
) -> (r: Result<Vec<ProviderRecord>, String>)
    requires
        fresh_ids@.len() == 3,
    ensures
        match r {
            Ok(applied) => exists|i: int|
                {
                    let u = (#[trigger] old(state).universal_providers@[i])@;
                    let outcome = apply_universal(
                        provider_views(old(state).providers@),
                        u,
                        Seq::new(3, |k: int| fresh_ids@[k]@),
                        now as int,
                    );
                    0 <= i < old(state).universal_providers@.len() && u.id == id@ && (forall|
                        j: int,
                    | 0 <= j < i ==> (#[trigger] old(state).universal_providers@[j]).id@ != id@)
                        && provider_views(final(state).providers@) == outcome.0 && provider_views(
                        applied@,
                    ) == outcome.1 && (single_current(old(state).providers@) ==> single_current(
                        final(state).providers@,
                    ))
                },
            Err(m) => (forall|i: int|
                0 <= i < old(state).universal_providers@.len() ==> (#[trigger] old(
                    state,
                ).universal_providers@[i]).id@ != id@) && *final(state) == *old(state) && m@
                == "Universal provider not found."@,
        },
        final(state).universal_providers == old(state).universal_providers,
        final(state).config == old(state).config,
        final(state).provider_backups == old(state).provider_backups,
        final(state).kits == old(state).kits,
        final(state).kit_policies == old(state).kit_policies,
        final(state).kit_loadouts == old(state).kit_loadouts,
        final(state).skills == old(state).skills,
        final(state).skill_documents == old(state).skill_documents,
        final(state).agents_md_applied == old(state).agents_md_applied,
{
    let uindex = match find_universal(&state.universal_providers, id) {
        Some(i) => i,
        None => {
            return Err(String::from_str("Universal provider not found."));
        },
    };
    let universal = state.universal_providers[uindex].clone();
    let ghost fresh_views = Seq::new(3, |k: int| fresh_ids@[k]@);
    let mut fresh_ids = fresh_ids;
    let fresh_gemini = match fresh_ids.pop() {
        Some(v) => v,
        None => String::new(),
    };
    let fresh_codex = match fresh_ids.pop() {
        Some(v) => v,
        None => String::new(),
    };
    let fresh_toola = match fresh_ids.pop() {
        Some(v) => v,
        None => String::new(),
    };
    let mut applied: Vec<ProviderRecord> = Vec::new();
    if universal.apps.toola {
        apply_universal_tool(&mut state.providers, &mut applied, AppType::ToolA, &universal, fresh_toola, now);
    }
    if universal.apps.codex {
        apply_universal_tool(&mut state.providers, &mut applied, AppType::Codex, &universal, fresh_codex, now);
    }
    if universal.apps.gemini {
        apply_universal_tool(&mut state.providers, &mut applied, AppType::Gemini, &universal, fresh_gemini, now);
    }
    proof {
        assert(provider_views(applied@) == apply_universal(
            provider_views(old(state).providers@),
            universal@,
            fresh_views,
            now as int,
        ).1);
    }
    Ok(applied)
}

} // verus!
