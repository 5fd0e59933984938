//! The provider registry: lookup, add, update and delete of provider
//! records, under the single-current invariant.
//!
//! The invariant — per tool type at most one record is current — is
//! stated as a count and every mutating operation proves it preserved.

use vstd::prelude::*;
use vstd::string::StringExecFns;
use crate::doc::Doc;
use crate::doc::DocV;
use crate::records::DesktopState;
use crate::records::ProviderRecord;
use crate::records::ProviderRecordV;
use crate::records::provider_views;
use crate::strutil::optional_trim;
use crate::strutil::str_eq;
use crate::strutil::trimmed_spec;
use crate::types::AppType;
use crate::types::app_type_of;

verus! {

/// Whether a record is the current provider of tool type `t`.
pub open spec fn is_current_of(p: ProviderRecord, t: AppType) -> bool {
    p.app_type == t && p.is_current
}

/// How many records are current for tool type `t`.
pub open spec fn current_count(s: Seq<ProviderRecord>, t: AppType) -> nat
    decreases s.len(),
{
    if s.len() == 0 {
        0nat
    } else {
        current_count(s.drop_last(), t) + (if is_current_of(s.last(), t) {
            1nat
        } else {
            0nat
        })
    }
}

/// The single-current invariant: for every tool type, at most one
/// provider record is current.
pub open spec fn single_current(s: Seq<ProviderRecord>) -> bool {
    forall|t: AppType| #[trigger] current_count(s, t) <= 1
}

/// No two records share an id.
pub open spec fn unique_ids(s: Seq<ProviderRecord>) -> bool {
    forall|i: int, j: int|
        0 <= i < j < s.len() ==> (#[trigger] s[i]).id@ != (#[trigger] s[j]).id@
}

/// Law: under the single-current invariant no two distinct records of
/// one tool type are both current — after any sequence of add, switch
/// and delete operations, at most one provider record per tool type
/// has its current flag set.
pub proof fn lemma_single_current_pairwise(s: Seq<ProviderRecord>, t: AppType)
    requires
        single_current(s),
    ensures
        forall|i: int, j: int|
            0 <= i < j < s.len() && is_current_of(#[trigger] s[i], t) && is_current_of(
                #[trigger] s[j],
                t,
            ) ==> false,
{
    assert forall|i: int, j: int|
        0 <= i < j < s.len() && is_current_of(#[trigger] s[i], t) && is_current_of(
            #[trigger] s[j],
            t,
        ) implies false by {
        lemma_count_two_below(s, t, i, j);
    }
}

/// Two distinct current indices force the count past one.
proof fn lemma_count_two_below(s: Seq<ProviderRecord>, t: AppType, i: int, j: int)
    requires
        0 <= i < j < s.len(),
        is_current_of(s[i], t),
        is_current_of(s[j], t),
    ensures
        current_count(s, t) >= 2,
    decreases s.len(),
{
    assert(s.last() == s[s.len() - 1]);
    if j == s.len() - 1 {
        lemma_count_one_below(s.drop_last(), t, i);
        assert(s.drop_last()[i] == s[i]);
    } else {
        assert(s.drop_last()[i] == s[i]);
        assert(s.drop_last()[j] == s[j]);
        lemma_count_two_below(s.drop_last(), t, i, j);
    }
}

/// One current index forces the count past zero.
proof fn lemma_count_one_below(s: Seq<ProviderRecord>, t: AppType, i: int)
    requires
        0 <= i < s.len(),
        is_current_of(s[i], t),
    ensures
        current_count(s, t) >= 1,
    decreases s.len(),
{
    assert(s.last() == s[s.len() - 1]);
    if i < s.len() - 1 {
        assert(s.drop_last()[i] == s[i]);
        lemma_count_one_below(s.drop_last(), t, i);
    }
}

/// Appending a record adds its own contribution to the count.
pub proof fn lemma_count_push(s: Seq<ProviderRecord>, e: ProviderRecord, t: AppType)
    ensures
        current_count(s.push(e), t) == current_count(s, t) + (if is_current_of(e, t) {
            1nat
        } else {
            0nat
        }),
{
    assert(s.push(e).drop_last() =~= s);
    assert(s.push(e).last() == e);
}

/// The count is zero exactly when no record is current for `t`.
pub proof fn lemma_count_zero(s: Seq<ProviderRecord>, t: AppType)
    ensures
        (current_count(s, t) == 0) <==> (forall|i: int|
            0 <= i < s.len() ==> !is_current_of(#[trigger] s[i], t)),
    decreases s.len(),
{
    if s.len() > 0 {
        lemma_count_zero(s.drop_last(), t);
        assert(s.last() == s[s.len() - 1]);
        if current_count(s, t) == 0 {
            assert forall|i: int| 0 <= i < s.len() implies !is_current_of(
                #[trigger] s[i],
                t,
            ) by {
                if i < s.len() - 1 {
                    assert(s.drop_last()[i] == s[i]);
                    assert(!is_current_of(s.drop_last()[i], t));
                }
            }
        }
        if forall|i: int| 0 <= i < s.len() ==> !is_current_of(#[trigger] s[i], t) {
            assert forall|i: int| 0 <= i < s.len() - 1 implies !is_current_of(
                #[trigger] s.drop_last()[i],
                t,
            ) by {
                assert(s.drop_last()[i] == s[i]);
            }
            assert(current_count(s.drop_last(), t) == 0);
        }
    }
}

/// Replacing one record changes the count by the difference of the
/// two records' contributions.
pub proof fn lemma_count_update(s: Seq<ProviderRecord>, j: int, e: ProviderRecord, t: AppType)
    requires
        0 <= j < s.len(),
    ensures
        current_count(s.update(j, e), t) + (if is_current_of(s[j], t) {
            1nat
        } else {
            0nat
        }) == current_count(s, t) + (if is_current_of(e, t) {
            1nat
        } else {
            0nat
        }),
    decreases s.len(),
{
    if j == s.len() - 1 {
        assert(s.update(j, e).drop_last() =~= s.drop_last());
        assert(s.update(j, e).last() == e);
        assert(s.last() == s[j]);
    } else {
        assert(s.update(j, e).drop_last() =~= s.drop_last().update(j, e));
        assert(s.update(j, e).last() == s.last());
        assert(s.drop_last()[j] == s[j]);
        lemma_count_update(s.drop_last(), j, e, t);
    }
}

/// Counts agree wherever the current flags agree pointwise.
pub proof fn lemma_count_pointwise(a: Seq<ProviderRecord>, b: Seq<ProviderRecord>, t: AppType)
    requires
        a.len() == b.len(),
        forall|i: int|
            0 <= i < a.len() ==> is_current_of(#[trigger] a[i], t) == is_current_of(b[i], t),
    ensures
        current_count(a, t) == current_count(b, t),
    decreases a.len(),
{
    if a.len() > 0 {
        assert(a.last() == a[a.len() - 1]);
        assert(b.last() == b[b.len() - 1]);
        assert forall|i: int|
            0 <= i < a.len() - 1 ==> is_current_of(#[trigger] a.drop_last()[i], t)
                == is_current_of(b.drop_last()[i], t) by {
            assert(forall|i: int|
                0 <= i < a.len() - 1 ==> #[trigger] a.drop_last()[i] == a[i] && b.drop_last()[i]
                    == b[i]);
        }
        lemma_count_pointwise(a.drop_last(), b.drop_last(), t);
    }
}

/// When only one index can be current, the count is at most one.
pub proof fn lemma_count_at_most_one_index(s: Seq<ProviderRecord>, t: AppType, w: int)
    requires
        forall|i: int| 0 <= i < s.len() && i != w ==> !is_current_of(#[trigger] s[i], t),
    ensures
        current_count(s, t) <= 1,
    decreases s.len(),
{
    if s.len() > 0 {
        assert(s.last() == s[s.len() - 1]);
        assert(forall|i: int| 0 <= i < s.len() - 1 ==> #[trigger] s.drop_last()[i] == s[i]);
        if w == s.len() - 1 {
            lemma_count_zero(s.drop_last(), t);
        } else {
            lemma_count_at_most_one_index(s.drop_last(), t, w);
            assert(!is_current_of(s.last(), t));
        }
    }
}

/// The universal-provider id recorded in a configuration's `_profile`
/// side-car, if any.
pub open spec fn universal_id_of(config: DocV) -> Option<Seq<char>> {
    match config.get("_profile"@) {
        Some(profile) => match profile.get("universalId"@) {
            Some(DocV::Text(s)) => Some(s),
            _ => None,
        },
        _ => None,
    }
}

/// Reads the linked universal-provider id from a record's `_profile`.
pub fn profile_universal_id(provider: &ProviderRecord) -> (r: Option<String>)
    ensures
        match r {
            Some(s) => universal_id_of(provider.config@) == Some(s@),
            None => universal_id_of(provider.config@) is None,
        },
{
    match provider.config.get("_profile") {
        Some(profile) => match profile.get("universalId") {
            Some(v) => match v.as_text() {
                Some(s) => Some(s.clone()),
                None => None,
            },
            None => None,
        },
        None => None,
    }
}

/// Finds the first record with the given id.
pub fn find_by_id(providers: &Vec<ProviderRecord>, id: &str) -> (r: Option<usize>)
    ensures
        match r {
            Some(i) => i < providers@.len() && providers@[i as int].id@ == id@ && (forall|j: int|
                0 <= j < i ==> (#[trigger] providers@[j]).id@ != id@),
            None => forall|j: int| 0 <= j < providers@.len() ==> (#[trigger] providers@[j]).id@ != id@,
        },
{
    let n = providers.len();
    let mut i: usize = 0;
    while i < n
        invariant
            0 <= i <= n,
            n == providers@.len(),
            forall|j: int| 0 <= j < i ==> (#[trigger] providers@[j]).id@ != id@,
        decreases n - i,
    {
        if str_eq(providers[i].id.as_str(), id) {
            return Some(i);
        }
        i += 1;
    }
    None
}

/// Finds the first current record of the given tool type.
pub fn find_current(providers: &Vec<ProviderRecord>, t: &AppType) -> (r: Option<usize>)
    ensures
        match r {
            Some(i) => i < providers@.len() && is_current_of(providers@[i as int], *t) && (
            forall|j: int| 0 <= j < i ==> !is_current_of(#[trigger] providers@[j], *t)),
            None => forall|j: int|
                0 <= j < providers@.len() ==> !is_current_of(#[trigger] providers@[j], *t),
        },
{
    let n = providers.len();
    let mut i: usize = 0;
    while i < n
        invariant
            0 <= i <= n,
            n == providers@.len(),
            forall|j: int| 0 <= j < i ==> !is_current_of(#[trigger] providers@[j], *t),
        decreases n - i,
    {
        let p = &providers[i];
        if p.is_current && p.app_type == *t {
            return Some(i);
        }
        i += 1;
    }
    None
}

/// The records of one tool type, in order.
pub open spec fn providers_of_type(s: Seq<ProviderRecordV>, t: AppType) -> Seq<ProviderRecordV> {
    s.filter(|p: ProviderRecordV| p.app_type == t)
}

/// Lists all providers, or those of one tool type; an unknown type
/// identifier is rejected.
pub fn provider_list(state: &DesktopState, app_type: Option<String>) -> (r: Result<
    Vec<ProviderRecord>,
    String,
>)
    ensures
        match r {
            Ok(list) => match app_type {
                None => provider_views(list@) == provider_views(state.providers@),
                Some(raw) => app_type_of(raw@) is Some && provider_views(list@)
                    == providers_of_type(
                    provider_views(state.providers@),
                    app_type_of(raw@)->Some_0,
                ),
            },
            Err(m) => app_type is Some && app_type_of(app_type->Some_0@) is None && m@
                == "Unsupported app type: "@ + app_type->Some_0@,
        },
{
    let n = state.providers.len();
    match app_type {
        None => {
            let mut out: Vec<ProviderRecord> = Vec::new();
            let mut i: usize = 0;
            while i < n
                invariant
                    0 <= i <= n,
                    n == state.providers@.len(),
                    out@.len() == i,
                    forall|j: int| 0 <= j < i ==> #[trigger] out@[j]@ == state.providers@[j]@,
                decreases n - i,
            {
                out.push(state.providers[i].clone());
                i += 1;
            }
            assert(provider_views(out@) =~= provider_views(state.providers@));
            Ok(out)
        },
        Some(raw) => {
            let t = match AppType::parse(raw.as_str()) {
                Ok(t) => t,
                Err(m) => {
                    return Err(m);
                },
            };
            let ghost pv = provider_views(state.providers@);
            let ghost pred = |p: ProviderRecordV| p.app_type == t;
            let mut out: Vec<ProviderRecord> = Vec::new();
            let mut i: usize = 0;
            proof {
                assert(pv.take(0) =~= Seq::<ProviderRecordV>::empty());
                reveal_with_fuel(Seq::filter, 1);
                assert(provider_views(out@) =~= pv.take(0).filter(pred));
            }
            while i < n
                invariant
                    0 <= i <= n,
                    n == state.providers@.len(),
                    pv == provider_views(state.providers@),
                    pred == (|p: ProviderRecordV| p.app_type == t),
                    provider_views(out@) == pv.take(i as int).filter(pred),
                decreases n - i,
            {
                let ghost prefix = pv.take(i as int);
                let ghost prefix_next = pv.take(i + 1);
                proof {
                    assert(prefix_next.drop_last() =~= prefix);
                    assert(prefix_next.last() == pv[i as int]);
                    reveal_with_fuel(Seq::filter, 2);
                }
                let p = &state.providers[i];
                if p.app_type == t {
                    out.push(p.clone());
                    assert(provider_views(out@) =~= prefix.filter(pred).push(p@));
                } else {
                    assert(!pred(pv[i as int]));
                }
                i += 1;
            }
            proof {
                assert(pv.take(n as int) =~= pv);
            }
            Ok(out)
        },
    }
}

/// The current provider of a tool type, if any; an unknown type
/// identifier is rejected.
pub fn provider_current(state: &DesktopState, app_type: &str) -> (r: Result<
    Option<ProviderRecord>,
    String,
>)
    ensures
        match r {
            Ok(found) => app_type_of(app_type@) is Some && match found {
                Some(p) => exists|i: int|
                    0 <= i < state.providers@.len() && is_current_of(
                        #[trigger] state.providers@[i],
                        app_type_of(app_type@)->Some_0,
                    ) && p@ == state.providers@[i]@,
                None => forall|i: int|
                    0 <= i < state.providers@.len() ==> !is_current_of(
                        #[trigger] state.providers@[i],
                        app_type_of(app_type@)->Some_0,
                    ),
            },
            Err(m) => app_type_of(app_type@) is None && m@ == "Unsupported app type: "@
                + app_type@,
        },
{
    let t = match AppType::parse(app_type) {
        Ok(t) => t,
        Err(m) => {
            return Err(m);
        },
    };
    match find_current(&state.providers, &t) {
        Some(i) => Ok(Some(state.providers[i].clone())),
        None => Ok(None),
    }
}

/// The record with the given id; absence is an error.
pub fn provider_get_raw(state: &DesktopState, id: &str) -> (r: Result<ProviderRecord, String>)
    ensures
        match r {
            Ok(p) => exists|i: int|
                0 <= i < state.providers@.len() && (#[trigger] state.providers@[i]).id@ == id@
                    && (forall|j: int|
                    0 <= j < i ==> (#[trigger] state.providers@[j]).id@ != id@) && p@
                    == state.providers@[i]@,
            Err(m) => (forall|i: int|
                0 <= i < state.providers@.len() ==> (#[trigger] state.providers@[i]).id@ != id@)
                && m@ == "Provider not found."@,
        },
{
    match find_by_id(&state.providers, id) {
        Some(i) => Ok(state.providers[i].clone()),
        None => Err(String::from_str("Provider not found.")),
    }
}

/// The name stored for a new provider: the trimmed requested name, or
/// `<raw type> provider` when the request is all whitespace.
pub open spec fn provider_default_name(raw_type: Seq<char>, name: Seq<char>) -> Seq<char> {
    if trimmed_spec(name).len() == 0 {
        raw_type + " provider"@
    } else {
        trimmed_spec(name)
    }
}

/// Adds a provider.  The new record becomes current exactly when its
/// tool type has no current provider yet.  The single-current
/// invariant is preserved.
pub fn provider_add(
    state: &mut DesktopState,
    app_type: &str,
    name: &str,
    config: Doc,
    id: String,
    now: i64,
) -> (r: Result<ProviderRecord, String>)
    ensures
        match r {
            Ok(p) => {
                let t = app_type_of(app_type@)->Some_0;
                app_type_of(app_type@) is Some && p.app_type == t && p.id@ == id@ && p.name@
                    == provider_default_name(app_type@, name@) && p.config@ == config@
                    && p.created_at == now && p.updated_at == now && p.is_current == (
                current_count(old(state).providers@, t) == 0) && provider_views(
                    final(state).providers@,
                ) == provider_views(old(state).providers@).push(p@) && (single_current(
                    old(state).providers@,
                ) ==> single_current(final(state).providers@))
            },
            Err(m) => app_type_of(app_type@) is None && *final(state) == *old(state) && m@
                == "Unsupported app type: "@ + app_type@,
        },
        final(state).config == old(state).config,
        final(state).skills == old(state).skills,
        final(state).universal_providers == old(state).universal_providers,
        final(state).kit_policies == old(state).kit_policies,
        final(state).kit_loadouts == old(state).kit_loadouts,
        final(state).kits == old(state).kits,
        final(state).provider_backups == old(state).provider_backups,
        final(state).skill_documents == old(state).skill_documents,
        final(state).agents_md_applied == old(state).agents_md_applied,
{
    let t = match AppType::parse(app_type) {
        Ok(t) => t,
        Err(m) => {
            return Err(m);
        },
    };
    let has_current = find_current(&state.providers, &t).is_some();
    proof {
        lemma_count_zero(state.providers@, t);
    }
    let trimmed = optional_trim(Some(String::from_str(name)));
    let provider_name = match trimmed {
        Some(n) => n,
        None => String::from_str(app_type).concat(" provider"),
    };
    let record = ProviderRecord {
        id,
        app_type: t,
        name: provider_name,
        config,
        is_current: !has_current,
        created_at: now,
        updated_at: now,
    };
    let result = record.clone();
    let ghost old_providers = state.providers@;
    state.providers.push(record);
    proof {
        assert(provider_views(state.providers@) =~= provider_views(old_providers).push(
            result@,
        ));
        if single_current(old_providers) {
            assert forall|t2: AppType| #[trigger] current_count(state.providers@, t2)
                <= 1 by {
                lemma_count_push(old_providers, state.providers@.last(), t2);
                if t2 == t && !has_current {
                    lemma_count_zero(old_providers, t);
                }
            }
        }
    }
    Ok(result)
}

/// A prepared update of one provider record.
#[derive(Debug)]
pub struct ProviderUpdate {
    pub index: usize,
    pub record: ProviderRecord,
    pub apply_live: bool,
}

/// Prepares an update: resolves the record, applies the optional new
/// name and configuration, stamps the time, and reports whether the
/// live configuration must be reconciled (the record is current and
/// its configuration changed).
pub fn provider_update_prepare(
    state: &DesktopState,
    id: &str,
    name: Option<String>,
    config: Option<Doc>,
    now: i64,
) -> (r: Result<ProviderUpdate, String>)
    ensures
        match r {
            Ok(u) => {
                let i = u.index as int;
                let existing = state.providers@[i];
                0 <= i < state.providers@.len() && existing.id@ == id@ && u.record.id@
                    == existing.id@ && u.record.app_type == existing.app_type
                    && u.record.is_current == existing.is_current && u.record.created_at
                    == existing.created_at && u.record.updated_at == now && u.record.name@ == (
                match name {
                    Some(n) => if trimmed_spec(n@).len() > 0 {
                        trimmed_spec(n@)
                    } else {
                        existing.name@
                    },
                    None => existing.name@,
                }) && u.record.config@ == (match config {
                    Some(c) => c@,
                    None => existing.config@,
                }) && u.apply_live == (config is Some && existing.is_current)
            },
            Err(m) => (forall|i: int|
                0 <= i < state.providers@.len() ==> (#[trigger] state.providers@[i]).id@ != id@)
                && m@ == "Provider not found."@,
        },
{
    let index = match find_by_id(&state.providers, id) {
        Some(i) => i,
        None => {
            return Err(String::from_str("Provider not found."));
        },
    };
    let existing = &state.providers[index];
    let mut record = existing.clone();
    match optional_trim(name) {
        Some(n) => {
            record.name = n;
        },
        None => {},
    }
    let mut apply_live = false;
    match config {
        Some(c) => {
            apply_live = existing.is_current;
            record.config = c;
        },
        None => {},
    }
    record.updated_at = now;
    Ok(ProviderUpdate { index, record, apply_live })
}

/// Commits a prepared update.  The stored record is replaced in
/// place; the single-current invariant is preserved because neither
/// the tool type nor the current flag changes.
pub fn provider_update_commit(state: &mut DesktopState, update: ProviderUpdate)
    requires
        update.index < old(state).providers@.len(),
        update.record.app_type == old(state).providers@[update.index as int].app_type,
        update.record.is_current == old(state).providers@[update.index as int].is_current,
    ensures
        provider_views(final(state).providers@) == provider_views(old(state).providers@).update(
            update.index as int,
            update.record@,
        ),
        single_current(old(state).providers@) ==> single_current(final(state).providers@),
        final(state).config == old(state).config,
        final(state).skills == old(state).skills,
        final(state).universal_providers == old(state).universal_providers,
        final(state).kit_policies == old(state).kit_policies,
        final(state).kit_loadouts == old(state).kit_loadouts,
        final(state).kits == old(state).kits,
        final(state).provider_backups == old(state).provider_backups,
        final(state).skill_documents == old(state).skill_documents,
        final(state).agents_md_applied == old(state).agents_md_applied,
{
    let ghost old_providers = state.providers@;
    let ghost j = update.index as int;
    let ghost rec = update.record;
    state.providers.set(update.index, update.record);
    proof {
        assert(provider_views(state.providers@) =~= provider_views(old_providers).update(
            j,
            state.providers@[j]@,
        ));
        if single_current(old_providers) {
            assert forall|t2: AppType| #[trigger] current_count(state.providers@, t2)
                <= 1 by {
                lemma_count_update(old_providers, j, state.providers@[j], t2);
                assert(is_current_of(state.providers@[j], t2) == is_current_of(
                    old_providers[j],
                    t2,
                ));
            }
        }
    }
}

/// Finds the first record of the given tool type.
pub fn find_of_type(providers: &Vec<ProviderRecord>, t: &AppType) -> (r: Option<usize>)
    ensures
        match r {
            Some(i) => i < providers@.len() && providers@[i as int].app_type == *t && (forall|
                j: int,
            | 0 <= j < i ==> (#[trigger] providers@[j]).app_type != *t),
            None => forall|j: int|
                0 <= j < providers@.len() ==> (#[trigger] providers@[j]).app_type != *t,
        },
{
    let n = providers.len();
    let mut i: usize = 0;
    while i < n
        invariant
            0 <= i <= n,
            n == providers@.len(),
            forall|j: int| 0 <= j < i ==> (#[trigger] providers@[j]).app_type != *t,
        decreases n - i,
    {
        if providers[i].app_type == *t {
            return Some(i);
        }
        i += 1;
    }
    None
}

/// A record with only the current flag raised and the time stamped.
pub open spec fn promoted(p: ProviderRecordV, now: int) -> ProviderRecordV {
    ProviderRecordV {
        id: p.id,
        app_type: p.app_type,
        name: p.name,
        config: p.config,
        is_current: true,
        created_at: p.created_at,
        updated_at: now,
    }
}

fn remove_with_id(providers: &Vec<ProviderRecord>, id: &str) -> (kept: Vec<ProviderRecord>)
    ensures
        provider_views(kept@) == provider_views(providers@).filter(
            |p: ProviderRecordV| p.id != id@,
        ),
        forall|t2: AppType| #[trigger] current_count(kept@, t2) <= current_count(providers@, t2),
{
    let ghost pv = provider_views(providers@);
    let ghost pred = |p: ProviderRecordV| p.id != id@;
    let n = providers.len();
    let mut kept: Vec<ProviderRecord> = Vec::new();
    let mut i: usize = 0;
    proof {
        assert(providers@.take(0) =~= Seq::<ProviderRecord>::empty());
        assert(pv.take(0) =~= Seq::<ProviderRecordV>::empty());
        reveal_with_fuel(Seq::filter, 1);
        assert(provider_views(kept@) =~= pv.take(0).filter(pred));
    }
    while i < n
        invariant
            0 <= i <= n,
            n == providers@.len(),
            pv == provider_views(providers@),
            pred == (|p: ProviderRecordV| p.id != id@),
            provider_views(kept@) == pv.take(i as int).filter(pred),
            forall|t2: AppType| #[trigger] current_count(kept@, t2) <= current_count(
                providers@.take(i as int),
                t2,
            ),
        decreases n - i,
    {
        let ghost prefix = providers@.take(i as int);
        let ghost vprefix = pv.take(i as int);
        let ghost prefix_next = providers@.take(i + 1);
        let ghost vprefix_next = pv.take(i + 1);
        proof {
            assert(prefix_next.drop_last() =~= prefix);
            assert(prefix_next.last() == providers@[i as int]);
            assert(vprefix_next.drop_last() =~= vprefix);
            assert(vprefix_next.last() == pv[i as int]);
            reveal_with_fuel(Seq::filter, 2);
        }
        let p = &providers[i];
        if !str_eq(p.id.as_str(), id) {
            let ghost old_kept = kept@;
            kept.push(p.clone());
            proof {
                assert(provider_views(kept@) =~= vprefix.filter(pred).push(pv[i as int]));
                assert forall|t2: AppType| #[trigger] current_count(kept@, t2)
                    <= current_count(prefix_next, t2) by {
                    lemma_count_push(old_kept, kept@.last(), t2);
                    assert(is_current_of(kept@.last(), t2) == is_current_of(
                        providers@[i as int],
                        t2,
                    ));
                }
            }
        } else {
            proof {
                assert(!pred(pv[i as int]));
                assert forall|t2: AppType| #[trigger] current_count(kept@, t2)
                    <= current_count(prefix_next, t2) by {}
            }
        }
        i += 1;
    }
    proof {
        assert(providers@.take(n as int) =~= providers@);
        assert(pv.take(n as int) =~= pv);
    }
    kept
}

/// The first index bearing the given id, if any.
pub open spec fn find_id_index(s: Seq<ProviderRecordV>, id: Seq<char>) -> Option<int>
    decreases s.len(),
{
    if s.len() == 0 {
        None
    } else if s[0].id == id {
        Some(0)
    } else {
        match find_id_index(s.drop_first(), id) {
            Some(i) => Some(i + 1),
            None => None,
        }
    }
}

/// What `find_id_index` finds is the first index with the id.
pub proof fn lemma_find_id_index(s: Seq<ProviderRecordV>, id: Seq<char>)
    ensures
        match find_id_index(s, id) {
            Some(i) => 0 <= i < s.len() && s[i].id == id && forall|j: int|
                0 <= j < i ==> (#[trigger] s[j]).id != id,
            None => forall|j: int| 0 <= j < s.len() ==> (#[trigger] s[j]).id != id,
        },
    decreases s.len(),
{
    if s.len() > 0 && s[0].id != id {
        let rest = s.drop_first();
        lemma_find_id_index(rest, id);
        match find_id_index(rest, id) {
            Some(i) => {
                assert(s[i + 1] == rest[i]);
                assert forall|j: int| 0 <= j < i + 1 implies (#[trigger] s[j]).id != id by {
                    if j > 0 {
                        assert(rest[j - 1].id != id);
                    }
                }
            },
            None => {
                assert forall|j: int| 0 <= j < s.len() implies (#[trigger] s[j]).id != id by {
                    if j > 0 {
                        assert(rest[j - 1].id != id);
                    }
                }
            },
        }
    }
}

/// The first index of the given tool type, if any.
pub open spec fn find_type_index(s: Seq<ProviderRecordV>, t: AppType) -> Option<int>
    decreases s.len(),
{
    if s.len() == 0 {
        None
    } else if s[0].app_type == t {
        Some(0)
    } else {
        match find_type_index(s.drop_first(), t) {
            Some(i) => Some(i + 1),
            None => None,
        }
    }
}

/// What `find_type_index` finds is the first index of the type.
pub proof fn lemma_find_type_index(s: Seq<ProviderRecordV>, t: AppType)
    ensures
        match find_type_index(s, t) {
            Some(i) => 0 <= i < s.len() && s[i].app_type == t && forall|j: int|
                0 <= j < i ==> (#[trigger] s[j]).app_type != t,
            None => forall|j: int| 0 <= j < s.len() ==> (#[trigger] s[j]).app_type != t,
        },
    decreases s.len(),
{
    if s.len() > 0 && s[0].app_type != t {
        let rest = s.drop_first();
        lemma_find_type_index(rest, t);
        match find_type_index(rest, t) {
            Some(i) => {
                assert(s[i + 1] == rest[i]);
                assert forall|j: int| 0 <= j < i + 1 implies (#[trigger] s[j]).app_type != t by {
                    if j > 0 {
                        assert(rest[j - 1].app_type != t);
                    }
                }
            },
            None => {
                assert forall|j: int| 0 <= j < s.len() implies (#[trigger] s[j]).app_type
                    != t by {
                    if j > 0 {
                        assert(rest[j - 1].app_type != t);
                    }
                }
            },
        }
    }
}

/// Whether some record of type `t` is current, over views.
pub open spec fn some_current(s: Seq<ProviderRecordV>, t: AppType) -> bool {
    exists|i: int| 0 <= i < s.len() && (#[trigger] s[i]).app_type == t && s[i].is_current
}

/// The registry contents after deleting an id: every record with the
/// id is dropped; then, if the deleted record's type is left without
/// a current record, the first remaining record of that type (if
/// any) is promoted.
pub open spec fn delete_result(
    s: Seq<ProviderRecordV>,
    id: Seq<char>,
    t: AppType,
    now: int,
) -> Seq<ProviderRecordV> {
    let kept = s.filter(|p: ProviderRecordV| p.id != id);
    if some_current(kept, t) {
        kept
    } else {
        match find_type_index(kept, t) {
            Some(j) => kept.update(j, promoted(kept[j], now)),
            None => kept,
        }
    }
}

/// Deletes the record with the given id (every record carrying it).
/// When no current provider of the deleted record's type remains and
/// records of that type do, the first of them is promoted to current.
/// The single-current invariant is preserved.
#[verifier::spinoff_prover]
#[verifier::rlimit(100)]
pub fn provider_delete(state: &mut DesktopState, id: &str, now: i64) -> (r: Result<bool, String>)
    ensures
        match r {
            Ok(ok) => {
                let pv = provider_views(old(state).providers@);
                ok && find_id_index(pv, id@) is Some && provider_views(final(state).providers@)
                    == delete_result(
                    pv,
                    id@,
                    pv[find_id_index(pv, id@)->Some_0].app_type,
                    now as int,
                )
            },
            Err(m) => find_id_index(provider_views(old(state).providers@), id@) is None
                && *final(state) == *old(state) && m@ == "Provider not found."@,
        },
        single_current(old(state).providers@) ==> single_current(final(state).providers@),
        final(state).config == old(state).config,
        final(state).skills == old(state).skills,
        final(state).universal_providers == old(state).universal_providers,
        final(state).kit_policies == old(state).kit_policies,
        final(state).kit_loadouts == old(state).kit_loadouts,
        final(state).kits == old(state).kits,
        final(state).provider_backups == old(state).provider_backups,
        final(state).skill_documents == old(state).skill_documents,
        final(state).agents_md_applied == old(state).agents_md_applied,
{
    let ghost pv = provider_views(state.providers@);
    proof {
        lemma_find_id_index(pv, id@);
    }
    let target_index = match find_by_id(&state.providers, id) {
        Some(i) => i,
        None => {
            proof {
                if find_id_index(pv, id@) is Some {
                    let fi = find_id_index(pv, id@)->Some_0;
                    assert(state.providers@[fi].id@ != id@);
                }
            }
            return Err(String::from_str("Provider not found."));
        },
    };
    proof {
        match find_id_index(pv, id@) {
            Some(fi) => {
                if fi < target_index as int {
                    assert(state.providers@[fi].id@ != id@);
                }
                if fi > target_index as int {
                    assert(pv[target_index as int].id != id@);
                }
            },
            None => {
                assert(pv[target_index as int].id != id@);
            },
        }
    }
    let target_type = state.providers[target_index].app_type;
    let ghost kv = pv.filter(|p: ProviderRecordV| p.id != id@);
    let mut kept = remove_with_id(&state.providers, id);
    let ghost kept_base = kept@;
    proof {
        lemma_find_type_index(kv, target_type);
    }
    let has_current = find_current(&kept, &target_type).is_some();
    proof {
        if has_current {
            let i = choose|i: int|
                0 <= i < kept_base.len() && is_current_of(#[trigger] kept_base[i], target_type);
            assert(kv[i].app_type == target_type && kv[i].is_current);
            assert(some_current(kv, target_type));
        } else {
            assert forall|i: int| 0 <= i < kv.len() implies !((#[trigger] kv[i]).app_type
                == target_type && kv[i].is_current) by {
                assert(!is_current_of(kept_base[i], target_type));
            }
            assert(!some_current(kv, target_type));
        }
    }
    if !has_current {
        match find_of_type(&kept, &target_type) {
            Some(j) => {
                proof {
                    match find_type_index(kv, target_type) {
                        Some(fj) => {
                            if fj < j as int {
                                assert(kept_base[fj].app_type != target_type);
                            }
                            if fj > j as int {
                                assert(kv[j as int].app_type != target_type);
                            }
                        },
                        None => {
                            assert(kv[j as int].app_type != target_type);
                        },
                    }
                }
                let mut rec = kept[j].clone();
                rec.is_current = true;
                rec.updated_at = now;
                kept.set(j, rec);
                proof {
                    assert(provider_views(kept@) =~= kv.update(
                        j as int,
                        promoted(kv[j as int], now as int),
                    ));
                    assert forall|t2: AppType|
                        current_count(old(state).providers@, t2) <= 1 implies current_count(
                        kept@,
                        t2,
                    ) <= 1 by {
                        lemma_count_update(kept_base, j as int, kept@[j as int], t2);
                        if t2 == target_type {
                            lemma_count_zero(kept_base, t2);
                            assert(current_count(kept_base, t2) == 0);
                        } else {
                            assert(!is_current_of(kept@[j as int], t2));
                        }
                    }
                }
            },
            None => {
                proof {
                    if find_type_index(kv, target_type) is Some {
                        let fj = find_type_index(kv, target_type)->Some_0;
                        assert(kept_base[fj].app_type != target_type);
                    }
                }
            },
        }
    }
    proof {
        if single_current(old(state).providers@) {
            assert forall|t2: AppType| #[trigger] current_count(kept@, t2) <= 1 by {
                if kept@ == kept_base {
                    assert(current_count(kept@, t2) <= current_count(old(state).providers@, t2));
                }
            }
        }
    }
    state.providers = kept;
    Ok(true)
}

} // verus!
