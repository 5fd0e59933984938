//! The switch engine: moving a tool's live configuration between
//! providers, backing the displaced provider up, restoring the latest
//! backup, and capturing the live state as a new provider.
//!
//! Every operation is a pure state transition: the caller reads the
//! live document beforehand and writes the returned document
//! afterwards.  The providers' final contents are pinned down by spec
//! functions over the record views.

use vstd::prelude::*;
use vstd::string::StrSliceExecFns;
use vstd::string::StringExecFns;
use crate::configstore::capture_sanitized;
use crate::configstore::merge_live;
use crate::configstore::merge_live_config;
use crate::configstore::overlay_obj;
use crate::configstore::preserve_profile;
use crate::configstore::preserve_provider_profile;
use crate::configstore::sanitize_official_capture_config;
use crate::configstore::valid_for_live;
use crate::configstore::validate_error_msg;
use crate::configstore::validate_provider_config_for_live;
use crate::doc::Doc;
use crate::doc::DocObj;
use crate::doc::DocV;
use crate::doc::ObjV;
use crate::records::DesktopState;
use crate::records::ProviderBackupEntry;
use crate::records::ProviderBackupEntryV;
use crate::records::ProviderRecord;
use crate::records::ProviderRecordV;
use crate::records::backup_views;
use crate::records::provider_views;
use crate::registry::current_count;
use crate::registry::find_by_id;
use crate::registry::find_current;
use crate::registry::find_id_index;
use crate::registry::is_current_of;
use crate::registry::lemma_count_at_most_one_index;
use crate::registry::lemma_count_pointwise;
use crate::registry::lemma_count_push;
use crate::registry::lemma_count_zero;
use crate::registry::lemma_find_id_index;
use crate::registry::single_current;
use crate::registry::unique_ids;
use crate::strutil::str_eq;
use crate::strutil::trimmed_spec;
use crate::types::AppType;
use crate::types::app_type_of;

verus! {

/// The terminal outcome of a switch or restore.
#[derive(Debug)]
pub struct SwitchResult {
    pub app_type: AppType,
    pub current_provider_id: String,
    pub backup_id: i64,
    pub switched_from: Option<String>,
    pub switched_to: String,
}

/// The first current record of type `t`, over views.
pub open spec fn find_current_index(s: Seq<ProviderRecordV>, t: AppType) -> Option<int>
    decreases s.len(),
{
    if s.len() == 0 {
        None
    } else if s[0].app_type == t && s[0].is_current {
        Some(0)
    } else {
        match find_current_index(s.drop_first(), t) {
            Some(i) => Some(i + 1),
            None => None,
        }
    }
}

/// What `find_current_index` finds is the first current record.
pub proof fn lemma_find_current_index(s: Seq<ProviderRecordV>, t: AppType)
    ensures
        match find_current_index(s, t) {
            Some(i) => 0 <= i < s.len() && s[i].app_type == t && s[i].is_current && forall|
                j: int,
            | 0 <= j < i ==> !((#[trigger] s[j]).app_type == t && s[j].is_current),
            None => forall|j: int|
                0 <= j < s.len() ==> !((#[trigger] s[j]).app_type == t && s[j].is_current),
        },
    decreases s.len(),
{
    if s.len() > 0 && !(s[0].app_type == t && s[0].is_current) {
        let rest = s.drop_first();
        lemma_find_current_index(rest, t);
        match find_current_index(rest, t) {
            Some(i) => {
                assert(s[i + 1] == rest[i]);
                assert forall|j: int| 0 <= j < i + 1 implies !((#[trigger] s[j]).app_type == t
                    && s[j].is_current) by {
                    if j > 0 {
                        assert(rest[j - 1] == s[j]);
                    }
                }
            },
            None => {
                assert forall|j: int| 0 <= j < s.len() implies !((#[trigger] s[j]).app_type == t
                    && s[j].is_current) by {
                    if j > 0 {
                        assert(rest[j - 1] == s[j]);
                    }
                }
            },
        }
    }
}

/// A record with its configuration replaced and the time stamped.
pub open spec fn with_config(p: ProviderRecordV, config: DocV, now: int) -> ProviderRecordV {
    ProviderRecordV {
        id: p.id,
        app_type: p.app_type,
        name: p.name,
        config,
        is_current: p.is_current,
        created_at: p.created_at,
        updated_at: now,
    }
}

/// The snapshot a displaced current provider leaves behind: the
/// live-observed document with the provider's stored `_profile`
/// carried over, marked non-current.
pub open spec fn snapshot_of(p: ProviderRecordV, live: DocV, now: int) -> ProviderRecordV {
    ProviderRecordV {
        id: p.id,
        app_type: p.app_type,
        name: p.name,
        config: preserve_profile(live, p.config),
        is_current: false,
        created_at: p.created_at,
        updated_at: now,
    }
}

/// The index of the record refreshed in place when a switch
/// displaces a different current provider: the first record bearing
/// the displaced provider's id.
pub open spec fn outgoing_index(s: Seq<ProviderRecordV>, t: AppType, pid: Seq<char>) -> Option<
    int,
> {
    match find_current_index(s, t) {
        Some(ci) => if s[ci].id != pid {
            find_id_index(s, s[ci].id)
        } else {
            None
        },
        None => None,
    }
}

/// One record after the current flags of type `t` are re-pointed at
/// the target id.
pub open spec fn flip_one(p: ProviderRecordV, t: AppType, pid: Seq<char>, now: int) -> ProviderRecordV {
    if p.app_type == t {
        ProviderRecordV {
            id: p.id,
            app_type: p.app_type,
            name: p.name,
            config: p.config,
            is_current: p.id == pid,
            created_at: p.created_at,
            updated_at: now,
        }
    } else {
        p
    }
}

/// The provider records after a switch: the displaced provider's
/// record (if any) takes the live-observed snapshot configuration,
/// and every record of the tool type is current exactly when it
/// bears the target id.
pub open spec fn switch_providers(
    s: Seq<ProviderRecordV>,
    t: AppType,
    pid: Seq<char>,
    live: DocV,
    now: int,
) -> Seq<ProviderRecordV> {
    let staged = match find_current_index(s, t) {
        Some(ci) => match outgoing_index(s, t, pid) {
            Some(oi) => s.update(
                oi,
                with_config(s[oi], preserve_profile(live, s[ci].config), now),
            ),
            None => s,
        },
        None => s,
    };
    Seq::new(staged.len(), |i: int| flip_one(staged[i], t, pid, now))
}

/// The backup entry a switch appends: present exactly when a
/// different current provider is displaced.
pub open spec fn switch_backup(
    s: Seq<ProviderRecordV>,
    t: AppType,
    pid: Seq<char>,
    live: DocV,
    now: int,
    backup_id: int,
) -> Option<ProviderBackupEntryV> {
    match find_current_index(s, t) {
        Some(ci) => if s[ci].id != pid {
            Some(ProviderBackupEntryV { backup_id, provider: snapshot_of(s[ci], live, now) })
        } else {
            None
        },
        None => None,
    }
}

/// Finds the first record of the given type bearing the given id.
fn find_target(providers: &Vec<ProviderRecord>, t: &AppType, pid: &str) -> (r: Option<usize>)
    ensures
        match r {
            Some(i) => i < providers@.len() && providers@[i as int].app_type == *t
                && providers@[i as int].id@ == pid@ && forall|j: int|
                0 <= j < i ==> !((#[trigger] providers@[j]).app_type == *t && providers@[j].id@
                    == pid@),
            None => forall|j: int|
                0 <= j < providers@.len() ==> !((#[trigger] providers@[j]).app_type == *t
                    && providers@[j].id@ == pid@),
        },
{
    let n = providers.len();
    let mut i: usize = 0;
    while i < n
        invariant
            0 <= i <= n,
            n == providers@.len(),
            forall|j: int|
                0 <= j < i ==> !((#[trigger] providers@[j]).app_type == *t && providers@[j].id@
                    == pid@),
        decreases n - i,
    {
        let p = &providers[i];
        if p.app_type == *t && str_eq(p.id.as_str(), pid) {
            return Some(i);
        }
        i += 1;
    }
    None
}

/// Switches a tool to the target provider.  The returned document is
/// the validated merge of the live document and the target's
/// configuration, for the caller to write to the live files; the
/// registry is re-pointed and, when a different current provider is
/// displaced, its live-observed snapshot is appended to the backup
/// history and stored back into its record.  Nothing is changed on
/// any failure.
#[verifier::spinoff_prover]
#[verifier::rlimit(100)]
pub fn provider_switch(
    state: &mut DesktopState,
    app_type: &str,
    provider_id: &str,
    live: &Doc,
    backup_id: i64,
    now: i64,
) -> (r: Result<(SwitchResult, Doc), String>)
    ensures
        match r {
            Ok((result, next)) => {
                let t = app_type_of(app_type@)->Some_0;
                let pv = provider_views(old(state).providers@);
                app_type_of(app_type@) is Some && exists|ti: int|
                    0 <= ti < pv.len() && (#[trigger] pv[ti]).app_type == t && pv[ti].id
                        == provider_id@ && next@ == merge_live(t, live@, pv[ti].config)
                        && valid_for_live(t, next@) && provider_views(final(state).providers@)
                        == switch_providers(pv, t, provider_id@, live@, now as int) && (match switch_backup(
                        pv,
                        t,
                        provider_id@,
                        live@,
                        now as int,
                        backup_id as int,
                    ) {
                        Some(e) => backup_views(final(state).provider_backups.for_type(t))
                            == backup_views(old(state).provider_backups.for_type(t)).push(e) && (
                        forall|u: AppType|
                            u != t ==> #[trigger] final(state).provider_backups.for_type(u) == old(
                                state,
                            ).provider_backups.for_type(u)),
                        None => forall|u: AppType| #[trigger]
                            final(state).provider_backups.for_type(u) == old(
                                state,
                            ).provider_backups.for_type(u),
                    }) && result.app_type == t && result.current_provider_id@ == provider_id@
                        && result.backup_id == backup_id && result.switched_to@ == provider_id@
                        && (match find_current_index(pv, t) {
                        Some(ci) => result.switched_from matches Some(f) && f@ == pv[ci].id,
                        None => result.switched_from is None,
                    }) && ((single_current(old(state).providers@) && unique_ids(
                        old(state).providers@,
                    )) ==> single_current(final(state).providers@))
            },
            Err(m) => *final(state) == *old(state) && (if app_type_of(app_type@) is None {
                m@ == "Unsupported app type: "@ + app_type@
            } else {
                let t = app_type_of(app_type@)->Some_0;
                let pv = provider_views(old(state).providers@);
                if forall|j: int|
                    0 <= j < pv.len() ==> !((#[trigger] pv[j]).app_type == t && pv[j].id
                        == provider_id@) {
                    m@ == "Target provider does not exist for this app."@
                } else {
                    exists|ti: int|
                        0 <= ti < pv.len() && (#[trigger] pv[ti]).app_type == t && pv[ti].id
                            == provider_id@ && !valid_for_live(
                            t,
                            merge_live(t, live@, pv[ti].config),
                        ) && m@ == validate_error_msg(t, merge_live(t, live@, pv[ti].config))
                }
            }),
        },
        final(state).config == old(state).config,
        final(state).skills == old(state).skills,
        final(state).universal_providers == old(state).universal_providers,
        final(state).kit_policies == old(state).kit_policies,
        final(state).kit_loadouts == old(state).kit_loadouts,
        final(state).kits == old(state).kits,
        final(state).skill_documents == old(state).skill_documents,
        final(state).agents_md_applied == old(state).agents_md_applied,
{
    let t = match AppType::parse(app_type) {
        Ok(t) => t,
        Err(m) => {
            return Err(m);
        },
    };
    let ghost pv = provider_views(state.providers@);
    let target_index = match find_target(&state.providers, &t, provider_id) {
        Some(i) => i,
        None => {
            return Err(String::from_str("Target provider does not exist for this app."));
        },
    };
    let current_index = find_current(&state.providers, &t);
    proof {
        lemma_find_current_index(pv, t);
        match find_current_index(pv, t) {
            Some(ci) => {
                match current_index {
                    Some(ei) => {
                        if ci < ei as int {
                            assert(!is_current_of(state.providers@[ci], t));
                        }
                        if ci > ei as int {
                            assert(!(pv[ei as int].app_type == t && pv[ei as int].is_current));
                        }
                    },
                    None => {
                        assert(!is_current_of(state.providers@[ci], t));
                    },
                }
            },
            None => {
                match current_index {
                    Some(ei) => {
                        assert(!(pv[ei as int].app_type == t && pv[ei as int].is_current));
                    },
                    None => {},
                }
            },
        }
    }
    let switched_from: Option<String> = match current_index {
        Some(ci) => Some(state.providers[ci].id.clone()),
        None => None,
    };
    let mut outgoing: Option<(usize, usize, Doc)> = None;
    match current_index {
        Some(ci) => {
            if !str_eq(state.providers[ci].id.as_str(), provider_id) {
                let updated_config = preserve_provider_profile(live, &state.providers[ci].config);
                proof {
                    lemma_find_id_index(pv, pv[ci as int].id);
                }
                let oi = match find_by_id(&state.providers, state.providers[ci].id.as_str()) {
                    Some(oi) => oi,
                    None => {
                        proof {
                            assert(state.providers@[ci as int].id@ != state.providers@[
                                ci as int].id@);
                        }
                        ci
                    },
                };
                proof {
                    match find_id_index(pv, pv[ci as int].id) {
                        Some(fi) => {
                            if fi < oi as int {
                                assert(state.providers@[fi].id@ != pv[ci as int].id);
                            }
                            if fi > oi as int {
                                assert(pv[oi as int].id != pv[ci as int].id);
                            }
                        },
                        None => {
                            assert(pv[ci as int].id != pv[ci as int].id);
                        },
                    }
                }
                outgoing = Some((ci, oi, updated_config));
            }
        },
        None => {},
    }
    let next_config = merge_live_config(&t, live, &state.providers[target_index].config);
    match validate_provider_config_for_live(&t, &next_config) {
        Err(m) => {
            return Err(m);
        },
        Ok(()) => {},
    }
    let ghost staged_spec = match find_current_index(pv, t) {
        Some(ci) => match outgoing_index(pv, t, provider_id@) {
            Some(oi) => pv.update(
                oi,
                with_config(pv[oi], preserve_profile(live@, pv[ci].config), now as int),
            ),
            None => pv,
        },
        None => pv,
    };
    match outgoing {
        Some((ci, oi, updated_config)) => {
            let mut backup_provider = state.providers[ci].clone();
            backup_provider.config = updated_config.clone();
            backup_provider.is_current = false;
            backup_provider.updated_at = now;
            let mut out_rec = state.providers[oi].clone();
            out_rec.config = updated_config;
            out_rec.updated_at = now;
            state.providers.set(oi, out_rec);
            state.provider_backups.push_entry(
                &t,
                ProviderBackupEntry { backup_id, provider: backup_provider },
            );
            proof {
                assert(outgoing_index(pv, t, provider_id@) == Some(oi as int));
                assert(provider_views(state.providers@) =~= staged_spec);
                assert(backup_views(state.provider_backups.for_type(t)) =~= backup_views(
                    old(state).provider_backups.for_type(t),
                ).push(
                    ProviderBackupEntryV {
                        backup_id: backup_id as int,
                        provider: snapshot_of(pv[ci as int], live@, now as int),
                    },
                ));
            }
        },
        None => {
            proof {
                assert(outgoing_index(pv, t, provider_id@) is None);
                assert(provider_views(state.providers@) =~= staged_spec);
            }
        },
    }
    let ghost staged = provider_views(state.providers@);
    let ghost pre_flip = state.providers@;
    let n = state.providers.len();
    let mut i: usize = 0;
    let ghost pre_backups = state.provider_backups;
    while i < n
        invariant
            0 <= i <= n,
            n == state.providers@.len(),
            state.providers@.len() == pre_flip.len(),
            staged == provider_views(pre_flip),
            state.config == old(state).config,
            state.skills == old(state).skills,
            state.universal_providers == old(state).universal_providers,
            state.kit_policies == old(state).kit_policies,
            state.kit_loadouts == old(state).kit_loadouts,
            state.kits == old(state).kits,
            state.skill_documents == old(state).skill_documents,
            state.agents_md_applied == old(state).agents_md_applied,
            state.provider_backups == pre_backups,
            forall|j: int|
                i <= j < n ==> #[trigger] state.providers@[j] == pre_flip[j],
            forall|j: int|
                0 <= j < i ==> #[trigger] state.providers@[j]@ == flip_one(
                    staged[j],
                    t,
                    provider_id@,
                    now as int,
                ),
        decreases n - i,
    {
        let p_type_matches = state.providers[i].app_type == t;
        if p_type_matches {
            let mut rec = state.providers[i].clone();
            rec.is_current = str_eq(rec.id.as_str(), provider_id);
            rec.updated_at = now;
            state.providers.set(i, rec);
        }
        i += 1;
    }
    proof {
        assert(provider_views(state.providers@) =~= Seq::new(
            staged.len(),
            |j: int| flip_one(staged[j], t, provider_id@, now as int),
        ));
        if single_current(old(state).providers@) && unique_ids(old(state).providers@) {
            assert forall|t2: AppType| #[trigger] current_count(state.providers@, t2) <= 1 by {
                if t2 == t {
                    assert forall|j: int|
                        0 <= j < state.providers@.len() && j != target_index as int implies !is_current_of(
                        #[trigger] state.providers@[j],
                        t2,
                    ) by {
                        assert(state.providers@[j]@ == flip_one(
                            staged[j],
                            t,
                            provider_id@,
                            now as int,
                        ));
                        assert(staged[j].id == pv[j].id);
                        if staged[j].app_type == t {
                            assert(pv[target_index as int].id == provider_id@);
                        }
                    }
                    lemma_count_at_most_one_index(state.providers@, t2, target_index as int);
                } else {
                    assert forall|j: int|
                        0 <= j < state.providers@.len() implies is_current_of(
                        #[trigger] state.providers@[j],
                        t2,
                    ) == is_current_of(old(state).providers@[j], t2) by {
                        assert(state.providers@[j]@ == flip_one(
                            staged[j],
                            t,
                            provider_id@,
                            now as int,
                        ));
                    }
                    lemma_count_pointwise(state.providers@, old(state).providers@, t2);
                }
            }
        }
    }
    Ok(
        (
            SwitchResult {
                app_type: t,
                current_provider_id: String::from_str(provider_id),
                backup_id,
                switched_from,
                switched_to: String::from_str(provider_id),
            },
            next_config,
        ),
    )
}

/// The most recent backup entry of a tool type, without removing it.
pub fn provider_latest_backup(state: &DesktopState, app_type: &str) -> (r: Result<
    Option<ProviderBackupEntry>,
    String,
>)
    ensures
        match r {
            Ok(found) => app_type_of(app_type@) is Some && {
                let bs = state.provider_backups.for_type(app_type_of(app_type@)->Some_0);
                match found {
                    Some(e) => bs.len() > 0 && e@ == bs.last()@,
                    None => bs.len() == 0,
                }
            },
            Err(m) => app_type_of(app_type@) is None && m@ == "Unsupported app type: "@
                + app_type@,
        },
{
    let t = match AppType::parse(app_type) {
        Ok(t) => t,
        Err(m) => {
            return Err(m);
        },
    };
    let entries = state.provider_backups.entries(&t);
    let n = entries.len();
    if n == 0 {
        Ok(None)
    } else {
        Ok(Some(entries[n - 1].clone()))
    }
}

/// The provider records after every record of type `t` is marked
/// non-current and stamped.
pub open spec fn restore_cleared(s: Seq<ProviderRecordV>, t: AppType, now: int) -> Seq<
    ProviderRecordV,
> {
    Seq::new(
        s.len(),
        |i: int|
            if s[i].app_type == t {
                ProviderRecordV {
                    id: s[i].id,
                    app_type: s[i].app_type,
                    name: s[i].name,
                    config: s[i].config,
                    is_current: false,
                    created_at: s[i].created_at,
                    updated_at: now,
                }
            } else {
                s[i]
            },
    )
}

/// The provider records after a restore: all records of the type are
/// made non-current; then the first record bearing the backup's id is
/// refreshed with the backup's name and configuration and made
/// current, or, if none bears it, a new current record carrying a
/// fresh id is appended.
pub open spec fn restore_providers(
    s: Seq<ProviderRecordV>,
    t: AppType,
    b: ProviderRecordV,
    fresh_id: Seq<char>,
    now: int,
) -> Seq<ProviderRecordV> {
    let cleared = restore_cleared(s, t, now);
    match find_id_index(s, b.id) {
        Some(ri) => cleared.update(
            ri,
            ProviderRecordV {
                id: cleared[ri].id,
                app_type: cleared[ri].app_type,
                name: b.name,
                config: b.config,
                is_current: true,
                created_at: cleared[ri].created_at,
                updated_at: now,
            },
        ),
        None => cleared.push(
            ProviderRecordV {
                id: fresh_id,
                app_type: t,
                name: b.name,
                config: b.config,
                is_current: true,
                created_at: now,
                updated_at: now,
            },
        ),
    }
}

/// The id of the provider a restore leaves current.
pub open spec fn restore_current_id(
    s: Seq<ProviderRecordV>,
    b: ProviderRecordV,
    fresh_id: Seq<char>,
) -> Seq<char> {
    match find_id_index(s, b.id) {
        Some(_) => b.id,
        None => fresh_id,
    }
}

/// Whether the record a restore refreshes belongs to the restored
/// tool type; a registry whose backup id now names a record of
/// another type escapes the single-current guarantee.
pub open spec fn restore_type_ok(s: Seq<ProviderRecordV>, b: ProviderRecordV, t: AppType) -> bool {
    match find_id_index(s, b.id) {
        Some(ri) => s[ri].app_type == t,
        None => true,
    }
}

/// Restores the most recent backup of a tool type.  The backup is
/// only read, never removed: the backup histories are unchanged.
/// The returned document is the validated merge of the live document
/// and the backup's configuration, for the caller to write.  Nothing
/// is changed on any failure.
#[verifier::spinoff_prover]
#[verifier::rlimit(100)]
pub fn provider_restore_latest_backup(
    state: &mut DesktopState,
    app_type: &str,
    live: &Doc,
    fresh_id: String,
    now: i64,
) -> (r: Result<(SwitchResult, Doc), String>)
    ensures
        match r {
            Ok((result, next)) => {
                let t = app_type_of(app_type@)->Some_0;
                let pv = provider_views(old(state).providers@);
                let bs = old(state).provider_backups.for_type(t);
                app_type_of(app_type@) is Some && bs.len() > 0 && {
                    let b = bs.last()@.provider;
                    next@ == merge_live(t, live@, b.config) && valid_for_live(t, next@)
                        && provider_views(final(state).providers@) == restore_providers(
                        pv,
                        t,
                        b,
                        fresh_id@,
                        now as int,
                    ) && (forall|u: AppType| #[trigger]
                        final(state).provider_backups.for_type(u) == old(
                            state,
                        ).provider_backups.for_type(u)) && result.app_type == t
                        && result.current_provider_id@ == restore_current_id(pv, b, fresh_id@)
                        && result.switched_to@ == restore_current_id(pv, b, fresh_id@)
                        && result.backup_id == now && (match find_current_index(pv, t) {
                        Some(ci) => result.switched_from matches Some(f) && f@ == pv[ci].id,
                        None => result.switched_from is None,
                    }) && ((single_current(old(state).providers@) && restore_type_ok(pv, b, t))
                        ==> single_current(final(state).providers@))
                }
            },
            Err(m) => *final(state) == *old(state) && (if app_type_of(app_type@) is None {
                m@ == "Unsupported app type: "@ + app_type@
            } else {
                let t = app_type_of(app_type@)->Some_0;
                let bs = old(state).provider_backups.for_type(t);
                if bs.len() == 0 {
                    m@ == "No backup found for this app."@
                } else {
                    let b = bs.last()@.provider;
                    !valid_for_live(t, merge_live(t, live@, b.config)) && m@
                        == validate_error_msg(t, merge_live(t, live@, b.config))
                }
            }),
        },
        final(state).config == old(state).config,
        final(state).skills == old(state).skills,
        final(state).universal_providers == old(state).universal_providers,
        final(state).kit_policies == old(state).kit_policies,
        final(state).kit_loadouts == old(state).kit_loadouts,
        final(state).kits == old(state).kits,
        final(state).skill_documents == old(state).skill_documents,
        final(state).agents_md_applied == old(state).agents_md_applied,
{
    let t = match AppType::parse(app_type) {
        Ok(t) => t,
        Err(m) => {
            return Err(m);
        },
    };
    let ghost pv = provider_views(state.providers@);
    let latest = {
        let entries = state.provider_backups.entries(&t);
        let n = entries.len();
        if n == 0 {
            return Err(String::from_str("No backup found for this app."));
        }
        entries[n - 1].clone()
    };
    let next_config = merge_live_config(&t, live, &latest.provider.config);
    match validate_provider_config_for_live(&t, &next_config) {
        Err(m) => {
            return Err(m);
        },
        Ok(()) => {},
    }
    let current_index = find_current(&state.providers, &t);
    proof {
        lemma_find_current_index(pv, t);
        match find_current_index(pv, t) {
            Some(ci) => {
                match current_index {
                    Some(ei) => {
                        if ci < ei as int {
                            assert(!is_current_of(state.providers@[ci], t));
                        }
                        if ci > ei as int {
                            assert(!(pv[ei as int].app_type == t && pv[ei as int].is_current));
                        }
                    },
                    None => {
                        assert(!is_current_of(state.providers@[ci], t));
                    },
                }
            },
            None => {
                match current_index {
                    Some(ei) => {
                        assert(!(pv[ei as int].app_type == t && pv[ei as int].is_current));
                    },
                    None => {},
                }
            },
        }
    }
    let switched_from: Option<String> = match current_index {
        Some(ci) => Some(state.providers[ci].id.clone()),
        None => None,
    };
    let ghost pre_backups = state.provider_backups;
    let n = state.providers.len();
    let mut i: usize = 0;
    while i < n
        invariant
            0 <= i <= n,
            n == state.providers@.len(),
            state.providers@.len() == pv.len(),
            pv == provider_views(old(state).providers@),
            state.config == old(state).config,
            state.skills == old(state).skills,
            state.universal_providers == old(state).universal_providers,
            state.kit_policies == old(state).kit_policies,
            state.kit_loadouts == old(state).kit_loadouts,
            state.kits == old(state).kits,
            state.skill_documents == old(state).skill_documents,
            state.agents_md_applied == old(state).agents_md_applied,
            state.provider_backups == pre_backups,
            pre_backups == old(state).provider_backups,
            forall|j: int| i <= j < n ==> #[trigger] state.providers@[j] == old(state).providers@[j],
            forall|j: int|
                0 <= j < i ==> #[trigger] state.providers@[j]@ == restore_cleared(
                    pv,
                    t,
                    now as int,
                )[j],
        decreases n - i,
    {
        if state.providers[i].app_type == t {
            let mut rec = state.providers[i].clone();
            rec.is_current = false;
            rec.updated_at = now;
            state.providers.set(i, rec);
        }
        i += 1;
    }
    proof {
        assert(provider_views(state.providers@) =~= restore_cleared(pv, t, now as int));
        lemma_find_id_index(pv, latest.provider@.id);
    }
    let ghost cleared = provider_views(state.providers@);
    let restored_id: String;
    match find_by_id(&state.providers, latest.provider.id.as_str()) {
        Some(ri) => {
            proof {
                match find_id_index(pv, latest.provider@.id) {
                    Some(fi) => {
                        if fi < ri as int {
                            assert(state.providers@[fi].id@ != latest.provider@.id);
                            assert(cleared[fi].id == pv[fi].id);
                        }
                        if fi > ri as int {
                            assert(pv[ri as int].id != latest.provider@.id);
                            assert(cleared[ri as int].id == pv[ri as int].id);
                        }
                    },
                    None => {
                        assert(pv[ri as int].id != latest.provider@.id);
                        assert(cleared[ri as int].id == pv[ri as int].id);
                    },
                }
            }
            let mut rec = state.providers[ri].clone();
            rec.name = latest.provider.name.clone();
            rec.config = latest.provider.config.clone();
            rec.is_current = true;
            rec.updated_at = now;
            restored_id = rec.id.clone();
            state.providers.set(ri, rec);
            proof {
                assert(provider_views(state.providers@) =~= restore_providers(
                    pv,
                    t,
                    latest.provider@,
                    fresh_id@,
                    now as int,
                ));
                if single_current(old(state).providers@) && restore_type_ok(
                    pv,
                    latest.provider@,
                    t,
                ) {
                    assert forall|t2: AppType| #[trigger] current_count(state.providers@, t2)
                        <= 1 by {
                        assert forall|j: int|
                            0 <= j < state.providers@.len() && j != ri as int implies !is_current_of(
                            #[trigger] state.providers@[j],
                            t2,
                        ) || is_current_of(old(state).providers@[j], t2) by {
                            assert(state.providers@[j]@ == cleared[j]);
                        }
                        if t2 == t {
                            assert forall|j: int|
                                0 <= j < state.providers@.len() && j != ri as int implies !is_current_of(
                                #[trigger] state.providers@[j],
                                t2,
                            ) by {
                                assert(state.providers@[j]@ == cleared[j]);
                                assert(cleared[j] == restore_cleared(pv, t, now as int)[j]);
                            }
                            lemma_count_at_most_one_index(state.providers@, t2, ri as int);
                        } else {
                            assert(pv[ri as int].app_type == t);
                            assert forall|j: int|
                                0 <= j < state.providers@.len() implies is_current_of(
                                #[trigger] state.providers@[j],
                                t2,
                            ) == is_current_of(old(state).providers@[j], t2) by {
                                if j != ri as int {
                                    assert(state.providers@[j]@ == cleared[j]);
                                } else {
                                    assert(state.providers@[j].app_type == t);
                                }
                            }
                            lemma_count_pointwise(state.providers@, old(state).providers@, t2);
                        }
                    }
                }
            }
        },
        None => {
            proof {
                match find_id_index(pv, latest.provider@.id) {
                    Some(fi) => {
                        assert(state.providers@[fi].id@ != latest.provider@.id);
                        assert(cleared[fi].id == pv[fi].id);
                        assert(false);
                    },
                    None => {},
                }
            }
            restored_id = fresh_id.clone();
            let record = ProviderRecord {
                id: fresh_id,
                app_type: t,
                name: latest.provider.name.clone(),
                config: latest.provider.config.clone(),
                is_current: true,
                created_at: now,
                updated_at: now,
            };
            let ghost pre_push = state.providers@;
            state.providers.push(record);
            proof {
                assert(provider_views(state.providers@) =~= restore_providers(
                    pv,
                    t,
                    latest.provider@,
                    fresh_id@,
                    now as int,
                ));
                if single_current(old(state).providers@) {
                    assert forall|t2: AppType| #[trigger] current_count(state.providers@, t2)
                        <= 1 by {
                        lemma_count_push(pre_push, state.providers@.last(), t2);
                        if t2 == t {
                            assert forall|j: int|
                                0 <= j < pre_push.len() implies !is_current_of(
                                #[trigger] pre_push[j],
                                t2,
                            ) by {
                                assert(pre_push[j]@ == restore_cleared(pv, t, now as int)[j]);
                            }
                            lemma_count_zero(pre_push, t2);
                        } else {
                            assert forall|j: int|
                                0 <= j < pre_push.len() implies is_current_of(
                                #[trigger] pre_push[j],
                                t2,
                            ) == is_current_of(old(state).providers@[j], t2) by {
                                assert(pre_push[j]@ == restore_cleared(pv, t, now as int)[j]);
                            }
                            lemma_count_pointwise(pre_push, old(state).providers@, t2);
                            assert(!is_current_of(state.providers@.last(), t2));
                        }
                    }
                }
            }
        },
    }
    Ok(
        (
            SwitchResult {
                app_type: t,
                current_provider_id: restored_id.clone(),
                backup_id: now,
                switched_from,
                switched_to: restored_id,
            },
            next_config,
        ),
    )
}

/// The configuration stored by a live capture: the sanitized live
/// document with a `_profile` object whose caller-supplied fields are
/// overlaid onto, and whose `kind` is forced back to, `official`.
pub open spec fn capture_config(t: AppType, live: DocV, profile: Option<DocV>) -> DocV {
    let base = match capture_sanitized(t, live) {
        DocV::Obj(o) => o,
        _ => ObjV::Nil,
    };
    let seeded = ObjV::Nil.upsert("kind"@, DocV::Text("official"@));
    let overlaid = match profile {
        Some(DocV::Obj(p)) => overlay_obj(seeded, p),
        _ => seeded,
    };
    let forced = overlaid.upsert("kind"@, DocV::Text("official"@));
    DocV::Obj(base.upsert("_profile"@, DocV::Obj(forced)))
}

/// The name stored for a captured provider: the trimmed requested
/// name, or `<raw type> official` when the request is all whitespace.
pub open spec fn capture_name(raw_type: Seq<char>, name: Seq<char>) -> Seq<char> {
    if trimmed_spec(name).len() == 0 {
        raw_type + " official"@
    } else {
        trimmed_spec(name)
    }
}

/// Captures the live configuration as a new, non-current provider
/// record, scrubbing tool-specific secrets first.  The live files are
/// not touched.  The single-current invariant is preserved.
pub fn provider_capture_live(
    state: &mut DesktopState,
    app_type: &str,
    name: &str,
    profile: Option<Doc>,
    live: &Doc,
    id: String,
    now: i64,
) -> (r: Result<ProviderRecord, String>)
    ensures
        match r {
            Ok(p) => {
                let t = app_type_of(app_type@)->Some_0;
                app_type_of(app_type@) is Some && p.id@ == id@ && p.app_type == t && p.name@
                    == capture_name(app_type@, name@) && p.config@ == capture_config(
                    t,
                    live@,
                    match profile {
                        Some(d) => Some(d@),
                        None => None,
                    },
                ) && !p.is_current && p.created_at == now && p.updated_at == now
                    && provider_views(final(state).providers@) == provider_views(
                    old(state).providers@,
                ).push(p@) && (single_current(old(state).providers@) ==> single_current(
                    final(state).providers@,
                ))
            },
            Err(m) => app_type_of(app_type@) is None && *final(state) == *old(state) && m@
                == "Unsupported app type: "@ + app_type@,
        },
        final(state).config == old(state).config,
        final(state).skills == old(state).skills,
        final(state).universal_providers == old(state).universal_providers,
        final(state).kit_policies == old(state).kit_policies,
        final(state).kit_loadouts == old(state).kit_loadouts,
        final(state).kits == old(state).kits,
        final(state).provider_backups == old(state).provider_backups,
        final(state).skill_documents == old(state).skill_documents,
        final(state).agents_md_applied == old(state).agents_md_applied,
{
    let t = match AppType::parse(app_type) {
        Ok(t) => t,
        Err(m) => {
            return Err(m);
        },
    };
    let sanitized = sanitize_official_capture_config(&t, live);
    let base = match sanitized.as_object() {
        Some(o) => o.clone(),
        None => DocObj::empty(),
    };
    let seeded = DocObj::empty().upsert(
        String::from_str("kind"),
        Doc::Text(String::from_str("official")),
    );
    let overlaid = match &profile {
        Some(d) => match d.as_object() {
            Some(p) => crate::configstore::overlay_obj_exec(seeded, p),
            None => seeded,
        },
        None => seeded,
    };
    let forced = overlaid.upsert(
        String::from_str("kind"),
        Doc::Text(String::from_str("official")),
    );
    let config = Doc::Obj(base.upsert(String::from_str("_profile"), Doc::Obj(forced)));
    let trimmed = crate::strutil::optional_trim(Some(String::from_str(name)));
    let provider_name = match trimmed {
        Some(n) => n,
        None => String::from_str(app_type).concat(" official"),
    };
    let record = ProviderRecord {
        id,
        app_type: t,
        name: provider_name,
        config,
        is_current: false,
        created_at: now,
        updated_at: now,
    };
    let result = record.clone();
    let ghost old_providers = state.providers@;
    state.providers.push(record);
    proof {
        assert(provider_views(state.providers@) =~= provider_views(old_providers).push(
            result@,
        ));
        if single_current(old_providers) {
            assert forall|t2: AppType| #[trigger] current_count(state.providers@, t2)
                <= 1 by {
                lemma_count_push(old_providers, state.providers@.last(), t2);
                assert(!is_current_of(state.providers@.last(), t2));
            }
        }
    }
    Ok(result)
}

/// Two sequences with the same ids at every index agree on where an
/// id is first found.
pub proof fn lemma_find_id_pointwise(a: Seq<ProviderRecordV>, b: Seq<ProviderRecordV>, id: Seq<char>)
    requires
        a.len() == b.len(),
        forall|i: int| 0 <= i < a.len() ==> (#[trigger] a[i]).id == b[i].id,
    ensures
        find_id_index(a, id) == find_id_index(b, id),
    decreases a.len(),
{
    if a.len() > 0 {
        assert(a[0].id == b[0].id);
        if a[0].id != id {
            assert forall|i: int| 0 <= i < a.len() - 1 implies (#[trigger] a.drop_first()[
                i]).id == b.drop_first()[i].id by {
                assert(a.drop_first()[i] == a[i + 1]);
                assert(b.drop_first()[i] == b[i + 1]);
            }
            lemma_find_id_pointwise(a.drop_first(), b.drop_first(), id);
        }
    }
}

/// Law: restoring the latest backup twice in a row restores the same
/// provider both times — when the backup's record still exists, both
/// restores leave the record with the backup's own id current.  (The
/// backup histories themselves are never changed by a restore, so the
/// sequence cannot shrink.)
pub proof fn lemma_restore_twice_same_provider(
    s: Seq<ProviderRecordV>,
    t: AppType,
    b: ProviderRecordV,
    fresh_one: Seq<char>,
    fresh_two: Seq<char>,
    now_one: int,
    now_two: int,
)
    requires
        find_id_index(s, b.id) is Some,
    ensures
        restore_current_id(s, b, fresh_one) == b.id,
        restore_current_id(restore_providers(s, t, b, fresh_one, now_one), b, fresh_two) == b.id,
{
    let cleared = restore_cleared(s, t, now_one);
    let s2 = restore_providers(s, t, b, fresh_one, now_one);
    let ri = find_id_index(s, b.id)->Some_0;
    lemma_find_id_index(s, b.id);
    assert(s2 == cleared.update(ri, s2[ri]));
    assert forall|i: int| 0 <= i < s.len() implies (#[trigger] s2[i]).id == s[i].id by {
        if i != ri {
            assert(s2[i] == cleared[i]);
        }
    }
    lemma_find_id_pointwise(s2, s, b.id);
}

/// Law: a switch leaves the target provider current, so a later
/// switch away from it displaces exactly the target and captures the
/// target's live-observed state; and a switch with no displaced
/// provider (no prior current, or the target already current)
/// appends no backup entry at all.
pub proof fn lemma_switch_makes_target_current(
    s: Seq<ProviderRecordV>,
    t: AppType,
    pid: Seq<char>,
    live: DocV,
    now: int,
)
    requires
        exists|i: int|
            0 <= i < s.len() && (#[trigger] s[i]).app_type == t && s[i].id == pid,
    ensures
        ({
            let s2 = switch_providers(s, t, pid, live, now);
            match find_current_index(s2, t) {
                Some(ci) => s2[ci].id == pid && s2[ci].app_type == t,
                None => false,
            }
        }),
{
    let s2 = switch_providers(s, t, pid, live, now);
    let wi = choose|i: int|
        0 <= i < s.len() && (#[trigger] s[i]).app_type == t && s[i].id == pid;
    match find_current_index(s, t) {
        Some(ci) => {
            lemma_find_current_index(s, t);
            match outgoing_index(s, t, pid) {
                Some(oi) => {
                    lemma_find_id_index(s, s[ci].id);
                    let staged = s.update(
                        oi,
                        with_config(s[oi], preserve_profile(live, s[ci].config), now),
                    );
                    assert(staged[wi].id == s[wi].id && staged[wi].app_type == s[wi].app_type);
                    assert(s2[wi] == flip_one(staged[wi], t, pid, now));
                },
                None => {
                    assert(s2[wi] == flip_one(s[wi], t, pid, now));
                },
            }
        },
        None => {
            assert(s2[wi] == flip_one(s[wi], t, pid, now));
        },
    }
    assert(s2[wi].app_type == t && s2[wi].is_current);
    lemma_find_current_index(s2, t);
    match find_current_index(s2, t) {
        Some(ci) => {
            assert(s2[ci].is_current && s2[ci].app_type == t);
        },
        None => {
            assert(!(s2[wi].app_type == t && s2[wi].is_current));
        },
    }
}

/// No two records share an id, over views.
pub open spec fn unique_record_ids(s: Seq<ProviderRecordV>) -> bool {
    forall|i: int, j: int| 0 <= i < j < s.len() ==> (#[trigger] s[i]).id != (#[trigger] s[j]).id
}

/// Law: switching from the current provider to another and then back
/// appends exactly one backup entry per displaced provider.  The
/// first switch displaces the current record and backs up its
/// live-observed state; the second — the first target now being
/// current — backs up precisely that target: one new entry whose
/// provider bears the target's id, is non-current, and carries the
/// live document read at the second switch merged over the target's
/// stored `_profile`.  A switch that displaces nobody (no current
/// record, or the target already current) appends no entry, by the
/// backup clause of [`provider_switch`].
pub proof fn lemma_switch_back_backs_up_target(
    s: Seq<ProviderRecordV>,
    t: AppType,
    id_first: Seq<char>,
    id_second: Seq<char>,
    ti: int,
    live_one: DocV,
    live_two: DocV,
    now_one: int,
    now_two: int,
    bid_one: int,
    bid_two: int,
)
    requires
        unique_record_ids(s),
        0 <= ti < s.len(),
        s[ti].app_type == t,
        s[ti].id == id_second,
        find_current_index(s, t) is Some,
        s[find_current_index(s, t)->Some_0].id == id_first,
        id_first != id_second,
    ensures
        ({
            let entry = switch_backup(s, t, id_second, live_one, now_one, bid_one);
            entry matches Some(e) && e.backup_id == bid_one && e.provider.id == id_first
                && !e.provider.is_current && e.provider.config == preserve_profile(
                live_one,
                s[find_current_index(s, t)->Some_0].config,
            )
        }),
        ({
            let s2 = switch_providers(s, t, id_second, live_one, now_one);
            let entry = switch_backup(s2, t, id_first, live_two, now_two, bid_two);
            entry matches Some(e) && e.backup_id == bid_two && e.provider.id == id_second
                && !e.provider.is_current && e.provider.config == preserve_profile(
                live_two,
                s[ti].config,
            )
        }),
{
    let ci = find_current_index(s, t)->Some_0;
    lemma_find_current_index(s, t);
    assert(exists|i: int|
        0 <= i < s.len() && (#[trigger] s[i]).app_type == t && s[i].id == id_second);
    lemma_switch_makes_target_current(s, t, id_second, live_one, now_one);
    let s2 = switch_providers(s, t, id_second, live_one, now_one);
    let ci2 = find_current_index(s2, t)->Some_0;
    lemma_find_current_index(s2, t);
    // The staged sequence keeps every id and, away from the displaced
    // record, every configuration.
    match outgoing_index(s, t, id_second) {
        Some(oi) => {
            lemma_find_id_index(s, s[ci].id);
            let staged = s.update(
                oi,
                with_config(s[oi], preserve_profile(live_one, s[ci].config), now_one),
            );
            assert(s[oi].id == s[ci].id);
            assert(oi != ti);
            assert(staged[ti] == s[ti]);
            assert forall|i: int| 0 <= i < s.len() implies (#[trigger] s2[i]).id == s[i].id by {
                assert(s2[i] == flip_one(staged[i], t, id_second, now_one));
                assert(staged[i].id == s[i].id);
            }
            assert(s2[ti].config == s[ti].config);
        },
        None => {
            assert forall|i: int| 0 <= i < s.len() implies (#[trigger] s2[i]).id == s[i].id by {
                assert(s2[i] == flip_one(s[i], t, id_second, now_one));
            }
            assert(s2[ti] == flip_one(s[ti], t, id_second, now_one));
            assert(s2[ti].config == s[ti].config);
        },
    }
    // The record the second switch finds current is the first target.
    assert(s2[ci2].id == id_second);
    assert(s[ci2].id == id_second);
    if ci2 != ti {
        if ci2 < ti {
            assert(s[ci2].id != s[ti].id);
        } else {
            assert(s[ti].id != s[ci2].id);
        }
    }
    assert(ci2 == ti);
    assert(s2[ci2].id != id_first);
}

} // verus!
