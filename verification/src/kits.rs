//! Kits: policy documents, ordered skill loadouts, the kits that bind
//! them, and the pure half of the apply operation.
//!
//! Applying a kit resolves its policy and loadout, sorts the loadout
//! items, and — in the surrounding process — writes the policy file
//! and materialises each item.  Per-item failures never abort the
//! batch: [`kit_item_results`] yields one outcome per item whatever
//! the others did.

use vstd::prelude::*;
use vstd::string::StringExecFns;
use crate::records::DesktopState;
use crate::records::KitApplySkillResult;
use crate::records::KitApplyTarget;
use crate::records::KitApplyTargetV;
use crate::records::KitLoadoutItem;
use crate::records::KitLoadoutItemV;
use crate::records::KitLoadoutRecord;
use crate::records::KitLoadoutRecordV;
use crate::records::KitPolicyRecord;
use crate::records::KitPolicyRecordV;
use crate::records::KitRecord;
use crate::records::KitRecordV;
use crate::records::item_views;
use crate::paths::join_path;
use crate::paths::joined_path_spec;
use crate::paths::normalize_path;
use crate::paths::normalized_path_spec;
use crate::paths::path_tail;
use crate::paths::path_tail_spec;
use crate::strutil::optional_trim;
use crate::strutil::str_eq;
use crate::strutil::trimmed_spec;
use crate::types::ApplyStatus;
use crate::types::KitSyncMode;
use crate::types::sync_mode_of;

verus! {

/// The views of a sequence of policy records.
pub open spec fn policy_views(s: Seq<KitPolicyRecord>) -> Seq<KitPolicyRecordV> {
    Seq::new(s.len(), |i: int| s[i]@)
}

/// The views of a sequence of loadout records.
pub open spec fn loadout_views(s: Seq<KitLoadoutRecord>) -> Seq<KitLoadoutRecordV> {
    Seq::new(s.len(), |i: int| s[i]@)
}

/// The views of a sequence of kit records.
pub open spec fn kit_views(s: Seq<KitRecord>) -> Seq<KitRecordV> {
    Seq::new(s.len(), |i: int| s[i]@)
}

fn find_policy(records: &Vec<KitPolicyRecord>, id: &str) -> (r: Option<usize>)
    ensures
        match r {
            Some(i) => i < records@.len() && records@[i as int].id@ == id@ && (forall|j: int|
                0 <= j < i ==> (#[trigger] records@[j]).id@ != id@),
            None => forall|j: int| 0 <= j < records@.len() ==> (#[trigger] records@[j]).id@ != id@,
        },
{
    let n = records.len();
    let mut i: usize = 0;
    while i < n
        invariant
            0 <= i <= n,
            n == records@.len(),
            forall|j: int| 0 <= j < i ==> (#[trigger] records@[j]).id@ != id@,
        decreases n - i,
    {
        if str_eq(records[i].id.as_str(), id) {
            return Some(i);
        }
        i += 1;
    }
    None
}

fn find_loadout(records: &Vec<KitLoadoutRecord>, id: &str) -> (r: Option<usize>)
    ensures
        match r {
            Some(i) => i < records@.len() && records@[i as int].id@ == id@ && (forall|j: int|
                0 <= j < i ==> (#[trigger] records@[j]).id@ != id@),
            None => forall|j: int| 0 <= j < records@.len() ==> (#[trigger] records@[j]).id@ != id@,
        },
{
    let n = records.len();
    let mut i: usize = 0;
    while i < n
        invariant
            0 <= i <= n,
            n == records@.len(),
            forall|j: int| 0 <= j < i ==> (#[trigger] records@[j]).id@ != id@,
        decreases n - i,
    {
        if str_eq(records[i].id.as_str(), id) {
            return Some(i);
        }
        i += 1;
    }
    None
}

fn find_agent(agents: &Vec<crate::records::AgentConfig>, name: &str) -> (r: Option<usize>)
    ensures
        match r {
            Some(i) => i < agents@.len() && agents@[i as int].name@ == name@ && (forall|j: int|
                0 <= j < i ==> (#[trigger] agents@[j]).name@ != name@),
            None => forall|j: int| 0 <= j < agents@.len() ==> (#[trigger] agents@[j]).name@ != name@,
        },
{
    let n = agents.len();
    let mut i: usize = 0;
    while i < n
        invariant
            0 <= i <= n,
            n == agents@.len(),
            forall|j: int| 0 <= j < i ==> (#[trigger] agents@[j]).name@ != name@,
        decreases n - i,
    {
        if str_eq(agents[i].name.as_str(), name) {
            return Some(i);
        }
        i += 1;
    }
    None
}

fn find_flag(flags: &Vec<(String, bool)>, key: &str) -> (r: Option<usize>)
    ensures
        match r {
            Some(i) => i < flags@.len() && flags@[i as int].0@ == key@ && (forall|j: int|
                0 <= j < i ==> (#[trigger] flags@[j]).0@ != key@),
            None => forall|j: int| 0 <= j < flags@.len() ==> (#[trigger] flags@[j]).0@ != key@,
        },
{
    let n = flags.len();
    let mut i: usize = 0;
    while i < n
        invariant
            0 <= i <= n,
            n == flags@.len(),
            forall|j: int| 0 <= j < i ==> (#[trigger] flags@[j]).0@ != key@,
        decreases n - i,
    {
        if str_eq(flags[i].0.as_str(), key) {
            return Some(i);
        }
        i += 1;
    }
    None
}

fn find_kit(records: &Vec<KitRecord>, id: &str) -> (r: Option<usize>)
    ensures
        match r {
            Some(i) => i < records@.len() && records@[i as int].id@ == id@ && (forall|j: int|
                0 <= j < i ==> (#[trigger] records@[j]).id@ != id@),
            None => forall|j: int| 0 <= j < records@.len() ==> (#[trigger] records@[j]).id@ != id@,
        },
{
    let n = records.len();
    let mut i: usize = 0;
    while i < n
        invariant
            0 <= i <= n,
            n == records@.len(),
            forall|j: int| 0 <= j < i ==> (#[trigger] records@[j]).id@ != id@,
        decreases n - i,
    {
        if str_eq(records[i].id.as_str(), id) {
            return Some(i);
        }
        i += 1;
    }
    None
}

/// Lists every policy.
pub fn kit_policy_list(state: &DesktopState) -> (r: Vec<KitPolicyRecord>)
    ensures
        policy_views(r@) == policy_views(state.kit_policies@),
{
    let n = state.kit_policies.len();
    let mut out: Vec<KitPolicyRecord> = Vec::new();
    let mut i: usize = 0;
    while i < n
        invariant
            0 <= i <= n,
            n == state.kit_policies@.len(),
            out@.len() == i,
            forall|j: int| 0 <= j < i ==> #[trigger] out@[j]@ == state.kit_policies@[j]@,
        decreases n - i,
    {
        out.push(state.kit_policies[i].clone());
        i += 1;
    }
    assert(policy_views(out@) =~= policy_views(state.kit_policies@));
    out
}

/// Adds a policy; its name and content must be non-blank.
pub fn kit_policy_add(
    state: &mut DesktopState,
    name: &str,
    description: Option<String>,
    content: String,
    id: String,
    now: i64,
) -> (r: Result<KitPolicyRecord, String>)
    ensures
        match r {
            Ok(p) => trimmed_spec(name@).len() > 0 && trimmed_spec(content@).len() > 0 && p.id@
                == id@ && p.name@ == trimmed_spec(name@) && p.content@ == content@
                && p.created_at == now && p.updated_at == now && policy_views(
                final(state).kit_policies@,
            ) == policy_views(old(state).kit_policies@).push(p@),
            Err(m) => (trimmed_spec(name@).len() == 0 || trimmed_spec(content@).len() == 0)
                && *final(state) == *old(state) && m@ == "Policy name/content are required."@,
        },
        final(state).providers == old(state).providers,
        final(state).kits == old(state).kits,
        final(state).kit_loadouts == old(state).kit_loadouts,
{
    let trimmed_name = match optional_trim(Some(String::from_str(name))) {
        Some(v) => v,
        None => {
            return Err(String::from_str("Policy name/content are required."));
        },
    };
    let content_blank = {
        let t = crate::strutil::trim_ends(content.as_str());
        t.unicode_len() == 0
    };
    if content_blank {
        return Err(String::from_str("Policy name/content are required."));
    }
    let record = KitPolicyRecord {
        id,
        name: trimmed_name,
        description: optional_trim(description),
        content,
        created_at: now,
        updated_at: now,
    };
    let result = record.clone();
    let ghost old_records = state.kit_policies@;
    state.kit_policies.push(record);
    proof {
        assert(policy_views(state.kit_policies@) =~= policy_views(old_records).push(result@));
    }
    Ok(result)
}

/// Updates a policy in place; a blank or absent field keeps its
/// stored value, but a given content replaces the stored content even
/// when blank.
pub fn kit_policy_update(
    state: &mut DesktopState,
    id: &str,
    name: Option<String>,
    description: Option<String>,
    content: Option<String>,
    now: i64,
) -> (r: Result<KitPolicyRecord, String>)
    ensures
        match r {
            Ok(p) => exists|i: int|
                {
                    let existing = (#[trigger] old(state).kit_policies@[i])@;
                    0 <= i < old(state).kit_policies@.len() && existing.id == id@ && (forall|
                        j: int,
                    | 0 <= j < i ==> (#[trigger] old(state).kit_policies@[j]).id@ != id@)
                        && p.id@ == existing.id && p.name@ == (match name {
                        Some(n) => if trimmed_spec(n@).len() > 0 {
                            trimmed_spec(n@)
                        } else {
                            existing.name
                        },
                        None => existing.name,
                    }) && p.content@ == (match content {
                        Some(c) => c@,
                        None => existing.content,
                    }) && p.updated_at == now && p.created_at == existing.created_at
                        && policy_views(final(state).kit_policies@) == policy_views(
                        old(state).kit_policies@,
                    ).update(i, p@)
                },
            Err(m) => (forall|i: int|
                0 <= i < old(state).kit_policies@.len() ==> (#[trigger] old(
                    state,
                ).kit_policies@[i]).id@ != id@) && *final(state) == *old(state) && m@
                == "Policy not found."@,
        },
        final(state).providers == old(state).providers,
        final(state).kits == old(state).kits,
        final(state).kit_loadouts == old(state).kit_loadouts,
{
    let index = match find_policy(&state.kit_policies, id) {
        Some(i) => i,
        None => {
            return Err(String::from_str("Policy not found."));
        },
    };
    let mut record = state.kit_policies[index].clone();
    match optional_trim(name) {
        Some(v) => {
            record.name = v;
        },
        None => {},
    }
    match optional_trim(description) {
        Some(v) => {
            record.description = Some(v);
        },
        None => {},
    }
    match content {
        Some(c) => {
            record.content = c;
        },
        None => {},
    }
    record.updated_at = now;
    let result = record.clone();
    let ghost old_records = state.kit_policies@;
    state.kit_policies.set(index, record);
    proof {
        assert(policy_views(state.kit_policies@) =~= policy_views(old_records).update(
            index as int,
            result@,
        ));
    }
    Ok(result)
}

/// Deletes a policy, unless some kit still references it.
pub fn kit_policy_delete(state: &mut DesktopState, id: &str) -> (r: Result<bool, String>)
    ensures
        match r {
            Ok(deleted) => (forall|k: int|
                0 <= k < old(state).kits@.len() ==> (#[trigger] old(
                    state,
                ).kits@[k]).policy_id@ != id@) && policy_views(final(state).kit_policies@)
                == policy_views(old(state).kit_policies@).filter(
                |p: KitPolicyRecordV| p.id != id@,
            ) && deleted == exists|i: int|
                0 <= i < old(state).kit_policies@.len() && (#[trigger] old(
                    state,
                ).kit_policies@[i]).id@ == id@,
            Err(m) => (exists|k: int|
                0 <= k < old(state).kits@.len() && (#[trigger] old(state).kits@[k]).policy_id@
                    == id@) && *final(state) == *old(state) && m@
                == "该 AGENTS.md 正在被 Kit 使用，无法删除。"@,
        },
        final(state).providers == old(state).providers,
        final(state).kits == old(state).kits,
        final(state).kit_loadouts == old(state).kit_loadouts,
{
    let kn = state.kits.len();
    let mut k: usize = 0;
    while k < kn
        invariant
            0 <= k <= kn,
            kn == state.kits@.len(),
            forall|j: int| 0 <= j < k ==> (#[trigger] state.kits@[j]).policy_id@ != id@,
        decreases kn - k,
    {
        if str_eq(state.kits[k].policy_id.as_str(), id) {
            return Err(String::from_str("该 AGENTS.md 正在被 Kit 使用，无法删除。"));
        }
        k += 1;
    }
    let ghost views = policy_views(state.kit_policies@);
    let ghost pred = |p: KitPolicyRecordV| p.id != id@;
    let n = state.kit_policies.len();
    let mut kept: Vec<KitPolicyRecord> = Vec::new();
    let mut removed = false;
    let mut i: usize = 0;
    proof {
        assert(views.take(0) =~= Seq::<KitPolicyRecordV>::empty());
        reveal_with_fuel(Seq::filter, 1);
        assert(policy_views(kept@) =~= views.take(0).filter(pred));
    }
    while i < n
        invariant
            0 <= i <= n,
            n == state.kit_policies@.len(),
            views == policy_views(state.kit_policies@),
            pred == (|p: KitPolicyRecordV| p.id != id@),
            policy_views(kept@) == views.take(i as int).filter(pred),
            removed == exists|j: int|
                0 <= j < i && (#[trigger] state.kit_policies@[j]).id@ == id@,
        decreases n - i,
    {
        let ghost vprefix = views.take(i as int);
        let ghost vprefix_next = views.take(i + 1);
        proof {
            assert(vprefix_next.drop_last() =~= vprefix);
            assert(vprefix_next.last() == views[i as int]);
            reveal_with_fuel(Seq::filter, 2);
        }
        let p = &state.kit_policies[i];
        if !str_eq(p.id.as_str(), id) {
            kept.push(p.clone());
            assert(policy_views(kept@) =~= vprefix.filter(pred).push(views[i as int]));
        } else {
            removed = true;
            assert(!pred(views[i as int]));
        }
        i += 1;
    }
    proof {
        assert(views.take(n as int) =~= views);
    }
    state.kit_policies = kept;
    Ok(removed)
}

/// A loadout item as supplied by a caller, before parsing.
#[derive(Debug)]
pub struct KitLoadoutItemInput {
    pub skill_path: String,
    pub mode: Option<String>,
    pub sort_order: Option<i64>,
}

/// The parsed form of one input item: the path normalized, the mode
/// parsed (defaulting to copy), the sort order defaulting to the
/// item's position.
pub open spec fn parsed_item(
    skill_path: Seq<char>,
    mode: Option<Seq<char>>,
    sort_order: Option<int>,
    index: int,
) -> KitLoadoutItemV {
    KitLoadoutItemV {
        skill_path: normalized_path_spec(skill_path),
        mode: match mode {
            Some(m) => match sync_mode_of(m) {
                Some(parsed) => parsed,
                None => KitSyncMode::Copy,
            },
            None => KitSyncMode::Copy,
        },
        sort_order: match sort_order {
            Some(v) => v,
            None => index,
        },
    }
}

/// Parses a list of input items; an unknown mode identifier rejects
/// the whole list.
pub fn parse_loadout_items(items: Vec<KitLoadoutItemInput>) -> (r: Result<
    Vec<KitLoadoutItem>,
    String,
>)
    requires
        items@.len() <= 0x7fffffffffffffff,
    ensures
        match r {
            Ok(parsed) => parsed@.len() == items@.len() && forall|i: int|
                0 <= i < items@.len() ==> (#[trigger] parsed@[i])@ == parsed_item(
                    items@[i].skill_path@,
                    match items@[i].mode {
                        Some(m) => Some(m@),
                        None => None,
                    },
                    match items@[i].sort_order {
                        Some(v) => Some(v as int),
                        None => None,
                    },
                    i,
                ) && (match items@[i].mode {
                    Some(m) => sync_mode_of(m@) is Some,
                    None => true,
                }),
            Err(m) => exists|i: int|
                0 <= i < items@.len() && (#[trigger] items@[i]).mode is Some && sync_mode_of(
                    items@[i].mode->Some_0@,
                ) is None && m@ == "Unsupported sync mode: "@ + items@[i].mode->Some_0@,
        },
{
    let n = items.len();
    let mut out: Vec<KitLoadoutItem> = Vec::new();
    let mut i: usize = 0;
    while i < n
        invariant
            0 <= i <= n,
            n == items@.len(),
            items@.len() <= 0x7fffffffffffffff,
            out@.len() == i,
            forall|j: int|
                0 <= j < i ==> (#[trigger] out@[j])@ == parsed_item(
                    items@[j].skill_path@,
                    match items@[j].mode {
                        Some(m) => Some(m@),
                        None => None,
                    },
                    match items@[j].sort_order {
                        Some(v) => Some(v as int),
                        None => None,
                    },
                    j,
                ),
            forall|j: int|
                0 <= j < i ==> (match (#[trigger] items@[j]).mode {
                    Some(m) => sync_mode_of(m@) is Some,
                    None => true,
                }),
        decreases n - i,
    {
        let item = &items[i];
        let mode = match &item.mode {
            Some(raw) => match KitSyncMode::parse(raw.as_str()) {
                Ok(m) => m,
                Err(e) => {
                    return Err(e);
                },
            },
            None => KitSyncMode::Copy,
        };
        let sort_order: i64 = match item.sort_order {
            Some(v) => v,
            None => i as i64,
        };
        let parsed = KitLoadoutItem {
            skill_path: normalize_path(item.skill_path.as_str()),
            mode,
            sort_order,
        };
        proof {
            assert(parsed@.skill_path == normalized_path_spec(items@[i as int].skill_path@));
            assert(parsed@.sort_order == (match items@[i as int].sort_order {
                Some(v) => v as int,
                None => i as int,
            }));
            assert(parsed@.mode == (match items@[i as int].mode {
                Some(m) => match sync_mode_of(m@) {
                    Some(p) => p,
                    None => KitSyncMode::Copy,
                },
                None => KitSyncMode::Copy,
            }));
            assert(parsed@ == parsed_item(
                items@[i as int].skill_path@,
                match items@[i as int].mode {
                    Some(m) => Some(m@),
                    None => None,
                },
                match items@[i as int].sort_order {
                    Some(v) => Some(v as int),
                    None => None,
                },
                i as int,
            ));
        }
        out.push(parsed);
        i += 1;
    }
    Ok(out)
}

/// Lists every loadout.
pub fn kit_loadout_list(state: &DesktopState) -> (r: Vec<KitLoadoutRecord>)
    ensures
        loadout_views(r@) == loadout_views(state.kit_loadouts@),
{
    let n = state.kit_loadouts.len();
    let mut out: Vec<KitLoadoutRecord> = Vec::new();
    let mut i: usize = 0;
    while i < n
        invariant
            0 <= i <= n,
            n == state.kit_loadouts@.len(),
            out@.len() == i,
            forall|j: int| 0 <= j < i ==> #[trigger] out@[j]@ == state.kit_loadouts@[j]@,
        decreases n - i,
    {
        out.push(state.kit_loadouts[i].clone());
        i += 1;
    }
    assert(loadout_views(out@) =~= loadout_views(state.kit_loadouts@));
    out
}

/// Adds a loadout; the name must be non-blank and at least one item
/// is required.
pub fn kit_loadout_add(
    state: &mut DesktopState,
    name: &str,
    description: Option<String>,
    items: Vec<KitLoadoutItem>,
    id: String,
    now: i64,
) -> (r: Result<KitLoadoutRecord, String>)
    ensures
        match r {
            Ok(l) => trimmed_spec(name@).len() > 0 && items@.len() > 0 && l.id@ == id@ && l.name@
                == trimmed_spec(name@) && item_views(l.items@) == item_views(items@)
                && l.created_at == now && l.updated_at == now && loadout_views(
                final(state).kit_loadouts@,
            ) == loadout_views(old(state).kit_loadouts@).push(l@),
            Err(m) => *final(state) == *old(state) && (if trimmed_spec(name@).len() == 0 {
                m@ == "Loadout name is required."@
            } else {
                items@.len() == 0 && m@ == "Loadout requires at least one skill."@
            }),
        },
        final(state).providers == old(state).providers,
        final(state).kits == old(state).kits,
        final(state).kit_policies == old(state).kit_policies,
{
    let trimmed_name = match optional_trim(Some(String::from_str(name))) {
        Some(v) => v,
        None => {
            return Err(String::from_str("Loadout name is required."));
        },
    };
    if items.len() == 0 {
        return Err(String::from_str("Loadout requires at least one skill."));
    }
    let record = KitLoadoutRecord {
        id,
        name: trimmed_name,
        description: optional_trim(description),
        items,
        created_at: now,
        updated_at: now,
    };
    let result = record.clone();
    let ghost old_records = state.kit_loadouts@;
    state.kit_loadouts.push(record);
    proof {
        assert(loadout_views(state.kit_loadouts@) =~= loadout_views(old_records).push(
            result@,
        ));
    }
    Ok(result)
}

/// Updates a loadout in place; replacing the items with an empty list
/// is rejected.
pub fn kit_loadout_update(
    state: &mut DesktopState,
    id: &str,
    name: Option<String>,
    description: Option<String>,
    items: Option<Vec<KitLoadoutItem>>,
    now: i64,
) -> (r: Result<KitLoadoutRecord, String>)
    ensures
        match r {
            Ok(l) => exists|i: int|
                {
                    let existing = (#[trigger] old(state).kit_loadouts@[i])@;
                    0 <= i < old(state).kit_loadouts@.len() && existing.id == id@ && (forall|
                        j: int,
                    | 0 <= j < i ==> (#[trigger] old(state).kit_loadouts@[j]).id@ != id@)
                        && l.id@ == existing.id && l.name@ == (match name {
                        Some(n) => if trimmed_spec(n@).len() > 0 {
                            trimmed_spec(n@)
                        } else {
                            existing.name
                        },
                        None => existing.name,
                    }) && item_views(l.items@) == (match items {
                        Some(next) => item_views(next@),
                        None => existing.items,
                    }) && l.updated_at == now && l.created_at == existing.created_at
                        && loadout_views(final(state).kit_loadouts@) == loadout_views(
                        old(state).kit_loadouts@,
                    ).update(i, l@)
                },
            Err(m) => *final(state) == *old(state) && (if (forall|i: int|
                0 <= i < old(state).kit_loadouts@.len() ==> (#[trigger] old(
                    state,
                ).kit_loadouts@[i]).id@ != id@) {
                m@ == "Loadout not found."@
            } else {
                items matches Some(next) && next@.len() == 0 && m@
                    == "Loadout requires at least one skill."@
            }),
        },
        final(state).providers == old(state).providers,
        final(state).kits == old(state).kits,
        final(state).kit_policies == old(state).kit_policies,
{
    let index = match find_loadout(&state.kit_loadouts, id) {
        Some(i) => i,
        None => {
            return Err(String::from_str("Loadout not found."));
        },
    };
    let mut record = state.kit_loadouts[index].clone();
    match optional_trim(name) {
        Some(v) => {
            record.name = v;
        },
        None => {},
    }
    match optional_trim(description) {
        Some(v) => {
            record.description = Some(v);
        },
        None => {},
    }
    match items {
        Some(next) => {
            if next.len() == 0 {
                return Err(String::from_str("Loadout requires at least one skill."));
            }
            record.items = next;
        },
        None => {},
    }
    record.updated_at = now;
    let result = record.clone();
    let ghost old_records = state.kit_loadouts@;
    state.kit_loadouts.set(index, record);
    proof {
        assert(loadout_views(state.kit_loadouts@) =~= loadout_views(old_records).update(
            index as int,
            result@,
        ));
    }
    Ok(result)
}

/// Deletes a loadout, unless some kit still references it.
pub fn kit_loadout_delete(state: &mut DesktopState, id: &str) -> (r: Result<bool, String>)
    ensures
        match r {
            Ok(deleted) => (forall|k: int|
                0 <= k < old(state).kits@.len() ==> (#[trigger] old(
                    state,
                ).kits@[k]).loadout_id@ != id@) && loadout_views(final(state).kit_loadouts@)
                == loadout_views(old(state).kit_loadouts@).filter(
                |l: KitLoadoutRecordV| l.id != id@,
            ) && deleted == exists|i: int|
                0 <= i < old(state).kit_loadouts@.len() && (#[trigger] old(
                    state,
                ).kit_loadouts@[i]).id@ == id@,
            Err(m) => (exists|k: int|
                0 <= k < old(state).kits@.len() && (#[trigger] old(state).kits@[k]).loadout_id@
                    == id@) && *final(state) == *old(state) && m@
                == "该 Skills package 正在被 Kit 使用，无法删除。"@,
        },
        final(state).providers == old(state).providers,
        final(state).kits == old(state).kits,
        final(state).kit_policies == old(state).kit_policies,
{
    let kn = state.kits.len();
    let mut k: usize = 0;
    while k < kn
        invariant
            0 <= k <= kn,
            kn == state.kits@.len(),
            forall|j: int| 0 <= j < k ==> (#[trigger] state.kits@[j]).loadout_id@ != id@,
        decreases kn - k,
    {
        if str_eq(state.kits[k].loadout_id.as_str(), id) {
            return Err(String::from_str("该 Skills package 正在被 Kit 使用，无法删除。"));
        }
        k += 1;
    }
    let ghost views = loadout_views(state.kit_loadouts@);
    let ghost pred = |l: KitLoadoutRecordV| l.id != id@;
    let n = state.kit_loadouts.len();
    let mut kept: Vec<KitLoadoutRecord> = Vec::new();
    let mut removed = false;
    let mut i: usize = 0;
    proof {
        assert(views.take(0) =~= Seq::<KitLoadoutRecordV>::empty());
        reveal_with_fuel(Seq::filter, 1);
        assert(loadout_views(kept@) =~= views.take(0).filter(pred));
    }
    while i < n
        invariant
            0 <= i <= n,
            n == state.kit_loadouts@.len(),
            views == loadout_views(state.kit_loadouts@),
            pred == (|l: KitLoadoutRecordV| l.id != id@),
            loadout_views(kept@) == views.take(i as int).filter(pred),
            removed == exists|j: int|
                0 <= j < i && (#[trigger] state.kit_loadouts@[j]).id@ == id@,
        decreases n - i,
    {
        let ghost vprefix = views.take(i as int);
        let ghost vprefix_next = views.take(i + 1);
        proof {
            assert(vprefix_next.drop_last() =~= vprefix);
            assert(vprefix_next.last() == views[i as int]);
            reveal_with_fuel(Seq::filter, 2);
        }
        let l = &state.kit_loadouts[i];
        if !str_eq(l.id.as_str(), id) {
            kept.push(l.clone());
            assert(loadout_views(kept@) =~= vprefix.filter(pred).push(views[i as int]));
        } else {
            removed = true;
            assert(!pred(views[i as int]));
        }
        i += 1;
    }
    proof {
        assert(views.take(n as int) =~= views);
    }
    state.kit_loadouts = kept;
    Ok(removed)
}

/// Lists every kit.
pub fn kit_list(state: &DesktopState) -> (r: Vec<KitRecord>)
    ensures
        kit_views(r@) == kit_views(state.kits@),
{
    let n = state.kits.len();
    let mut out: Vec<KitRecord> = Vec::new();
    let mut i: usize = 0;
    while i < n
        invariant
            0 <= i <= n,
            n == state.kits@.len(),
            out@.len() == i,
            forall|j: int| 0 <= j < i ==> #[trigger] out@[j]@ == state.kits@[j]@,
        decreases n - i,
    {
        out.push(state.kits[i].clone());
        i += 1;
    }
    assert(kit_views(out@) =~= kit_views(state.kits@));
    out
}

/// Adds a kit binding one policy to one loadout; the name must be
/// non-blank.
pub fn kit_add(
    state: &mut DesktopState,
    name: &str,
    description: Option<String>,
    policy_id: String,
    loadout_id: String,
    id: String,
    now: i64,
) -> (r: Result<KitRecord, String>)
    ensures
        match r {
            Ok(kit) => trimmed_spec(name@).len() > 0 && kit.id@ == id@ && kit.name@
                == trimmed_spec(name@) && kit.policy_id@ == policy_id@ && kit.loadout_id@
                == loadout_id@ && kit.last_applied_at is None && kit.last_applied_target is None
                && kit.created_at == now && kit.updated_at == now && kit_views(
                final(state).kits@,
            ) == kit_views(old(state).kits@).push(kit@),
            Err(m) => trimmed_spec(name@).len() == 0 && *final(state) == *old(state) && m@
                == "Kit name is required."@,
        },
        final(state).providers == old(state).providers,
        final(state).kit_policies == old(state).kit_policies,
        final(state).kit_loadouts == old(state).kit_loadouts,
{
    let trimmed_name = match optional_trim(Some(String::from_str(name))) {
        Some(v) => v,
        None => {
            return Err(String::from_str("Kit name is required."));
        },
    };
    let record = KitRecord {
        id,
        name: trimmed_name,
        description: optional_trim(description),
        policy_id,
        loadout_id,
        last_applied_at: None,
        last_applied_target: None,
        created_at: now,
        updated_at: now,
    };
    let result = record.clone();
    let ghost old_records = state.kits@;
    state.kits.push(record);
    proof {
        assert(kit_views(state.kits@) =~= kit_views(old_records).push(result@));
    }
    Ok(result)
}

/// Updates a kit in place.
pub fn kit_update(
    state: &mut DesktopState,
    id: &str,
    name: Option<String>,
    description: Option<String>,
    policy_id: Option<String>,
    loadout_id: Option<String>,
    now: i64,
) -> (r: Result<KitRecord, String>)
    ensures
        match r {
            Ok(kit) => exists|i: int|
                {
                    let existing = (#[trigger] old(state).kits@[i])@;
                    0 <= i < old(state).kits@.len() && existing.id == id@ && (forall|j: int|
                        0 <= j < i ==> (#[trigger] old(state).kits@[j]).id@ != id@) && kit.id@
                        == existing.id && kit.policy_id@ == (match policy_id {
                        Some(p) => p@,
                        None => existing.policy_id,
                    }) && kit.loadout_id@ == (match loadout_id {
                        Some(l) => l@,
                        None => existing.loadout_id,
                    }) && kit.updated_at == now && kit.created_at == existing.created_at
                        && kit_views(final(state).kits@) == kit_views(old(state).kits@).update(
                        i,
                        kit@,
                    )
                },
            Err(m) => (forall|i: int|
                0 <= i < old(state).kits@.len() ==> (#[trigger] old(state).kits@[i]).id@ != id@)
                && *final(state) == *old(state) && m@ == "Kit not found."@,
        },
        final(state).providers == old(state).providers,
        final(state).kit_policies == old(state).kit_policies,
        final(state).kit_loadouts == old(state).kit_loadouts,
{
    let index = match find_kit(&state.kits, id) {
        Some(i) => i,
        None => {
            return Err(String::from_str("Kit not found."));
        },
    };
    let mut record = state.kits[index].clone();
    match optional_trim(name) {
        Some(v) => {
            record.name = v;
        },
        None => {},
    }
    match optional_trim(description) {
        Some(v) => {
            record.description = Some(v);
        },
        None => {},
    }
    match policy_id {
        Some(p) => {
            record.policy_id = p;
        },
        None => {},
    }
    match loadout_id {
        Some(l) => {
            record.loadout_id = l;
        },
        None => {},
    }
    record.updated_at = now;
    let result = record.clone();
    let ghost old_records = state.kits@;
    state.kits.set(index, record);
    proof {
        assert(kit_views(state.kits@) =~= kit_views(old_records).update(index as int, result@));
    }
    Ok(result)
}

/// Deletes every kit with the given id.
pub fn kit_delete(state: &mut DesktopState, id: &str) -> (r: bool)
    ensures
        kit_views(final(state).kits@) == kit_views(old(state).kits@).filter(
            |kit: KitRecordV| kit.id != id@,
        ),
        r == exists|i: int|
            0 <= i < old(state).kits@.len() && (#[trigger] old(state).kits@[i]).id@ == id@,
        final(state).providers == old(state).providers,
        final(state).kit_policies == old(state).kit_policies,
        final(state).kit_loadouts == old(state).kit_loadouts,
{
    let ghost views = kit_views(state.kits@);
    let ghost pred = |kit: KitRecordV| kit.id != id@;
    let n = state.kits.len();
    let mut kept: Vec<KitRecord> = Vec::new();
    let mut removed = false;
    let mut i: usize = 0;
    proof {
        assert(views.take(0) =~= Seq::<KitRecordV>::empty());
        reveal_with_fuel(Seq::filter, 1);
        assert(kit_views(kept@) =~= views.take(0).filter(pred));
    }
    while i < n
        invariant
            0 <= i <= n,
            n == state.kits@.len(),
            views == kit_views(state.kits@),
            pred == (|kit: KitRecordV| kit.id != id@),
            kit_views(kept@) == views.take(i as int).filter(pred),
            removed == exists|j: int| 0 <= j < i && (#[trigger] state.kits@[j]).id@ == id@,
        decreases n - i,
    {
        let ghost vprefix = views.take(i as int);
        let ghost vprefix_next = views.take(i + 1);
        proof {
            assert(vprefix_next.drop_last() =~= vprefix);
            assert(vprefix_next.last() == views[i as int]);
            reveal_with_fuel(Seq::filter, 2);
        }
        let kit = &state.kits[i];
        if !str_eq(kit.id.as_str(), id) {
            kept.push(kit.clone());
            assert(kit_views(kept@) =~= vprefix.filter(pred).push(views[i as int]));
        } else {
            removed = true;
            assert(!pred(views[i as int]));
        }
        i += 1;
    }
    proof {
        assert(views.take(n as int) =~= views);
    }
    state.kits = kept;
    removed
}

/// `x` inserted before the first item with a strictly greater sort
/// order, so items with equal orders keep their relative position.
pub open spec fn insert_item_sorted(x: KitLoadoutItemV, s: Seq<KitLoadoutItemV>) -> Seq<
    KitLoadoutItemV,
>
    decreases s.len(),
{
    if s.len() == 0 {
        seq![x]
    } else if x.sort_order < s[0].sort_order {
        seq![x] + s
    } else {
        seq![s[0]] + insert_item_sorted(x, s.drop_first())
    }
}

/// Stable insertion sort of loadout items by ascending sort order.
pub open spec fn sort_items_from(s: Seq<KitLoadoutItemV>, acc: Seq<KitLoadoutItemV>) -> Seq<
    KitLoadoutItemV,
>
    decreases s.len(),
{
    if s.len() == 0 {
        acc
    } else {
        sort_items_from(s.drop_first(), insert_item_sorted(s[0], acc))
    }
}

/// The loadout items in apply order.
pub open spec fn sorted_loadout(s: Seq<KitLoadoutItemV>) -> Seq<KitLoadoutItemV> {
    sort_items_from(s, Seq::empty())
}

proof fn lemma_item_insert_at(x: KitLoadoutItemV, s: Seq<KitLoadoutItemV>, p: int)
    requires
        0 <= p <= s.len(),
        forall|j: int| 0 <= j < p ==> !(x.sort_order < (#[trigger] s[j]).sort_order),
        p < s.len() ==> x.sort_order < s[p].sort_order,
    ensures
        insert_item_sorted(x, s) == s.insert(p, x),
    decreases s.len(),
{
    if s.len() == 0 {
        assert(insert_item_sorted(x, s) =~= s.insert(0, x));
    } else if p == 0 {
        assert(insert_item_sorted(x, s) =~= s.insert(0, x));
    } else {
        assert(!(x.sort_order < s[0].sort_order));
        lemma_item_insert_at(x, s.drop_first(), p - 1);
        assert(seq![s[0]] + s.drop_first().insert(p - 1, x) =~= s.insert(p, x));
    }
}

fn item_insert_pos(x: &KitLoadoutItem, v: &Vec<KitLoadoutItem>) -> (p: usize)
    ensures
        p <= v@.len(),
        forall|j: int|
            0 <= j < p ==> !(x@.sort_order < (#[trigger] item_views(v@)[j]).sort_order),
        p < v@.len() ==> x@.sort_order < item_views(v@)[p as int].sort_order,
{
    let n = v.len();
    let mut p: usize = 0;
    while p < n
        invariant
            0 <= p <= n,
            n == v@.len(),
            forall|j: int|
                0 <= j < p ==> !(x@.sort_order < (#[trigger] item_views(v@)[j]).sort_order),
        decreases n - p,
    {
        if x.sort_order < v[p].sort_order {
            return p;
        }
        p += 1;
    }
    p
}

fn insert_item_exec(x: KitLoadoutItem, v: Vec<KitLoadoutItem>) -> (r: Vec<KitLoadoutItem>)
    ensures
        item_views(r@) == insert_item_sorted(x@, item_views(v@)),
{
    let p = item_insert_pos(&x, &v);
    proof {
        lemma_item_insert_at(x@, item_views(v@), p as int);
    }
    let ghost old_v = v@;
    let mut v = v;
    v.insert(p, x);
    assert(item_views(v@) =~= item_views(old_v).insert(p as int, x@));
    v
}

/// Sorts the loadout items by ascending sort order, stably.
pub fn sorted_loadout_items(items: &Vec<KitLoadoutItem>) -> (r: Vec<KitLoadoutItem>)
    ensures
        item_views(r@) == sorted_loadout(item_views(items@)),
{
    let ghost views = item_views(items@);
    let n = items.len();
    let mut out: Vec<KitLoadoutItem> = Vec::new();
    let mut i: usize = 0;
    proof {
        assert(views.skip(0) =~= views);
        assert(item_views(out@) =~= Seq::<KitLoadoutItemV>::empty());
    }
    while i < n
        invariant
            0 <= i <= n,
            n == items@.len(),
            views == item_views(items@),
            sort_items_from(views.skip(i as int), item_views(out@)) == sorted_loadout(views),
        decreases n - i,
    {
        let ghost rest = views.skip(i as int);
        proof {
            assert(rest[0] == views[i as int]);
            assert(rest.drop_first() =~= views.skip(i + 1));
        }
        let item = items[i].clone();
        let folded = insert_item_exec(item, out);
        out = folded;
        i += 1;
    }
    proof {
        assert(views.skip(n as int) =~= Seq::<KitLoadoutItemV>::empty());
    }
    out
}

/// The first agent with the given name, if any.
pub open spec fn find_agent_index(
    s: Seq<crate::records::AgentConfigV>,
    name: Seq<char>,
) -> Option<int>
    decreases s.len(),
{
    if s.len() == 0 {
        None
    } else if s[0].name == name {
        Some(0)
    } else {
        match find_agent_index(s.drop_first(), name) {
            Some(i) => Some(i + 1),
            None => None,
        }
    }
}

proof fn lemma_find_agent_index(s: Seq<crate::records::AgentConfigV>, name: Seq<char>)
    ensures
        match find_agent_index(s, name) {
            Some(i) => 0 <= i < s.len() && s[i].name == name && forall|j: int|
                0 <= j < i ==> (#[trigger] s[j]).name != name,
            None => forall|j: int| 0 <= j < s.len() ==> (#[trigger] s[j]).name != name,
        },
    decreases s.len(),
{
    if s.len() > 0 && s[0].name != name {
        let rest = s.drop_first();
        lemma_find_agent_index(rest, name);
        match find_agent_index(rest, name) {
            Some(i) => {
                assert(s[i + 1] == rest[i]);
                assert forall|j: int| 0 <= j < i + 1 implies (#[trigger] s[j]).name != name by {
                    if j > 0 {
                        assert(rest[j - 1] == s[j]);
                    }
                }
            },
            None => {
                assert forall|j: int| 0 <= j < s.len() implies (#[trigger] s[j]).name != name by {
                    if j > 0 {
                        assert(rest[j - 1] == s[j]);
                    }
                }
            },
        }
    }
}

/// The project-relative skill directory of the named agent, or the
/// generic default when the agent is unknown.
pub open spec fn agent_relative_path_spec(
    agents: Seq<crate::records::AgentConfigV>,
    name: Seq<char>,
) -> Seq<char> {
    match find_agent_index(agents, name) {
        Some(i) => agents[i].project_path,
        None => ".agent/skills"@,
    }
}

/// Everything a kit apply needs, resolved and ordered; the caller
/// performs the file writes this plan calls for.
#[derive(Debug)]
pub struct KitApplyPlan {
    pub kit: KitRecord,
    pub policy: KitPolicyRecord,
    pub loadout: KitLoadoutRecord,
    pub normalized_project_path: String,
    pub policy_path: String,
    pub destination_parent: String,
    pub mode_override: Option<KitSyncMode>,
    pub overwrite: bool,
    pub sorted_items: Vec<KitLoadoutItem>,
}

/// Resolves a kit apply: the kit, its policy and loadout, the policy
/// file path at the project root, the agent's destination directory,
/// and the loadout items in apply order.
pub fn kit_apply_resolve(
    state: &DesktopState,
    kit_id: &str,
    project_path: &str,
    agent_name: &str,
    mode: Option<String>,
    overwrite_agents_md: Option<bool>,
) -> (r: Result<KitApplyPlan, String>)
    ensures
        match r {
            Ok(plan) => {
                let norm = normalized_path_spec(project_path@);
                norm != "/"@ && plan.normalized_project_path@ == norm && plan.overwrite == (
                match overwrite_agents_md {
                    Some(v) => v,
                    None => false,
                }) && (match mode {
                    Some(m) => sync_mode_of(m@) is Some && plan.mode_override == Some(
                        sync_mode_of(m@)->Some_0,
                    ),
                    None => plan.mode_override is None,
                }) && (exists|ki: int|
                    0 <= ki < state.kits@.len() && (#[trigger] state.kits@[ki]).id@ == kit_id@
                        && (forall|j: int|
                        0 <= j < ki ==> (#[trigger] state.kits@[j]).id@ != kit_id@) && plan.kit@
                        == state.kits@[ki]@) && (exists|pi: int|
                    0 <= pi < state.kit_policies@.len() && (#[trigger] state.kit_policies@[
                        pi]).id@ == plan.kit.policy_id@ && (forall|j: int|
                        0 <= j < pi ==> (#[trigger] state.kit_policies@[j]).id@
                            != plan.kit.policy_id@) && plan.policy@ == state.kit_policies@[pi]@)
                        && (exists|li: int|
                    0 <= li < state.kit_loadouts@.len() && (#[trigger] state.kit_loadouts@[
                        li]).id@ == plan.kit.loadout_id@ && (forall|j: int|
                        0 <= j < li ==> (#[trigger] state.kit_loadouts@[j]).id@
                            != plan.kit.loadout_id@) && plan.loadout@ == state.kit_loadouts@[li]@) && plan.policy_path@ == normalized_path_spec(
                    norm + "/AGENTS.md"@,
                ) && plan.destination_parent@ == normalized_path_spec(
                    joined_path_spec(
                        norm,
                        agent_relative_path_spec(
                            crate::records::agent_views(state.config.agents@),
                            agent_name@,
                        ),
                    ),
                ) && item_views(plan.sorted_items@) == sorted_loadout(
                    item_views(plan.loadout.items@),
                )
            },
            Err(m) => if normalized_path_spec(project_path@) == "/"@ {
                m@ == "Project path is required."@
            } else if (match mode {
                Some(raw) => sync_mode_of(raw@) is None,
                None => false,
            }) {
                m@ == "Unsupported sync mode: "@ + mode->Some_0@
            } else if forall|ki: int|
                0 <= ki < state.kits@.len() ==> (#[trigger] state.kits@[ki]).id@ != kit_id@ {
                m@ == "Kit not found."@
            } else {
                exists|ki: int|
                    0 <= ki < state.kits@.len() && (#[trigger] state.kits@[ki]).id@ == kit_id@
                        && (forall|j: int|
                        0 <= j < ki ==> (#[trigger] state.kits@[j]).id@ != kit_id@) && ((forall|
                        p: int,
                    |
                        0 <= p < state.kit_policies@.len() ==> (#[trigger] state.kit_policies@[
                            p]).id@ != state.kits@[ki].policy_id@) || (forall|l: int|
                        0 <= l < state.kit_loadouts@.len() ==> (#[trigger] state.kit_loadouts@[
                            l]).id@ != state.kits@[ki].loadout_id@)) && m@
                        == "Kit references missing policy/loadout."@
            },
        },
{
    let normalized_project_path = normalize_path(project_path);
    if str_eq(normalized_project_path.as_str(), "/") {
        return Err(String::from_str("Project path is required."));
    }
    let overwrite = match overwrite_agents_md {
        Some(v) => v,
        None => false,
    };
    let mode_override = match &mode {
        Some(raw) => match KitSyncMode::parse(raw.as_str()) {
            Ok(m) => Some(m),
            Err(e) => {
                return Err(e);
            },
        },
        None => None,
    };
    let kit_index = match find_kit(&state.kits, kit_id) {
        Some(i) => i,
        None => {
            return Err(String::from_str("Kit not found."));
        },
    };
    let kit = state.kits[kit_index].clone();
    let policy = match find_policy(&state.kit_policies, kit.policy_id.as_str()) {
        Some(i) => state.kit_policies[i].clone(),
        None => {
            proof {
                assert(kit.policy_id@ == state.kits@[kit_index as int].policy_id@);
            }
            return Err(String::from_str("Kit references missing policy/loadout."));
        },
    };
    let loadout = match find_loadout(&state.kit_loadouts, kit.loadout_id.as_str()) {
        Some(i) => state.kit_loadouts[i].clone(),
        None => {
            proof {
                assert(kit.loadout_id@ == state.kits@[kit_index as int].loadout_id@);
            }
            return Err(String::from_str("Kit references missing policy/loadout."));
        },
    };
    proof {
        lemma_find_agent_index(crate::records::agent_views(state.config.agents@), agent_name@);
    }
    let agent_rel: String = match find_agent(&state.config.agents, agent_name) {
        Some(ai) => {
            proof {
                let ghost av = crate::records::agent_views(state.config.agents@);
                match find_agent_index(av, agent_name@) {
                    Some(fi) => {
                        if fi < ai as int {
                            assert(state.config.agents@[fi].name@ != agent_name@);
                        }
                        if fi > ai as int {
                            assert(av[ai as int].name != agent_name@);
                        }
                    },
                    None => {
                        assert(av[ai as int].name != agent_name@);
                    },
                }
            }
            state.config.agents[ai].project_path.clone()
        },
        None => String::from_str(".agent/skills"),
    };
    let policy_path = normalize_path(
        normalized_project_path.clone().concat("/AGENTS.md").as_str(),
    );
    let destination_parent = normalize_path(
        join_path(normalized_project_path.as_str(), agent_rel.as_str()).as_str(),
    );
    let sorted_items = sorted_loadout_items(&loadout.items);
    Ok(
        KitApplyPlan {
            kit,
            policy,
            loadout,
            normalized_project_path,
            policy_path,
            destination_parent,
            mode_override,
            overwrite,
            sorted_items,
        },
    )
}

/// The failure reported when the policy file already exists and
/// overwriting was not requested; it carries the existing path.
pub fn agents_md_exists_error(policy_path: &str) -> (r: String)
    ensures
        r@ == "AGENTS_MD_EXISTS::"@ + policy_path@,
{
    String::from_str("AGENTS_MD_EXISTS::").concat(policy_path)
}

/// The synchronisation mode one loadout item is applied with.
pub open spec fn effective_mode(item: KitLoadoutItemV, mode_override: Option<KitSyncMode>) -> KitSyncMode {
    match mode_override {
        Some(m) => m,
        None => item.mode,
    }
}

/// The destination shown for an item that failed: the path the item
/// would have been materialised at.
pub open spec fn fallback_destination(dest_parent: Seq<char>, skill_path: Seq<char>) -> Seq<char> {
    dest_parent + "/"@ + path_tail_spec(skill_path)
}

/// Builds the per-item outcomes of a kit apply from the items and
/// each item's synchronisation result.  Every item yields exactly one
/// outcome — a failure never swallows the items around it: outcome
/// `i` is `Success` with the synchroniser's destination when item `i`
/// succeeded, and `Failed` carrying the error and the would-be
/// destination when it failed.
pub fn kit_item_results(
    items: &Vec<KitLoadoutItem>,
    mode_override: &Option<KitSyncMode>,
    destination_parent: &String,
    sync_outcomes: Vec<Result<String, String>>,
) -> (r: Vec<KitApplySkillResult>)
    requires
        items@.len() == sync_outcomes@.len(),
    ensures
        r@.len() == items@.len(),
        forall|i: int|
            0 <= i < items@.len() ==> {
                let item = (#[trigger] items@[i])@;
                let entry = r@[i];
                entry.skill_path@ == item.skill_path && entry.mode == effective_mode(
                    item,
                    *mode_override,
                ) && (match sync_outcomes@[i] {
                    Ok(d) => entry.destination@ == d@ && entry.status == ApplyStatus::Success
                        && entry.error is None,
                    Err(e) => entry.destination@ == fallback_destination(
                        destination_parent@,
                        item.skill_path,
                    ) && entry.status == ApplyStatus::Failed && (entry.error matches Some(msg)
                        && msg@ == e@),
                })
            },
{
    let n = items.len();
    let mut out: Vec<KitApplySkillResult> = Vec::new();
    let mut i: usize = 0;
    let mut outcomes = sync_outcomes;
    while i < n
        invariant
            0 <= i <= n,
            n == items@.len(),
            outcomes@.len() == n - i,
            forall|j: int| 0 <= j < n - i ==> #[trigger] outcomes@[j] == sync_outcomes@[j + i],
            out@.len() == i,
            forall|j: int|
                0 <= j < i ==> {
                    let item = (#[trigger] items@[j])@;
                    let entry = out@[j];
                    entry.skill_path@ == item.skill_path && entry.mode == effective_mode(
                        item,
                        *mode_override,
                    ) && (match sync_outcomes@[j] {
                        Ok(d) => entry.destination@ == d@ && entry.status
                            == ApplyStatus::Success && entry.error is None,
                        Err(e) => entry.destination@ == fallback_destination(
                            destination_parent@,
                            item.skill_path,
                        ) && entry.status == ApplyStatus::Failed && (entry.error matches Some(
                            msg,
                        ) && msg@ == e@),
                    })
                },
        decreases n - i,
    {
        let item = &items[i];
        let mode = match mode_override {
            Some(m) => *m,
            None => item.mode,
        };
        let outcome = outcomes.remove(0);
        let entry = match outcome {
            Ok(destination) => KitApplySkillResult {
                skill_path: item.skill_path.clone(),
                mode,
                destination,
                status: ApplyStatus::Success,
                error: None,
            },
            Err(error) => {
                let tail = path_tail(item.skill_path.as_str());
                let destination = destination_parent.clone().concat("/").concat(tail.as_str());
                KitApplySkillResult {
                    skill_path: item.skill_path.clone(),
                    mode,
                    destination,
                    status: ApplyStatus::Failed,
                    error: Some(error),
                }
            },
        };
        out.push(entry);
        i += 1;
    }
    out
}

/// The views of the applied-flag bookkeeping entries.
pub open spec fn flag_views(s: Seq<(String, bool)>) -> Seq<(Seq<char>, bool)> {
    Seq::new(s.len(), |i: int| (s[i].0@, s[i].1))
}

/// The bookkeeping key of an apply target.
pub fn kit_apply_key(project_path: &String, agent_name: &str) -> (r: String)
    ensures
        r@ == project_path@ + "::"@ + agent_name@,
{
    project_path.clone().concat("::").concat(agent_name)
}

/// Records a finished apply: the project/agent pair is marked as
/// having its policy applied, and the kit's last-applied bookkeeping
/// and timestamp are refreshed in place (a kit deleted meanwhile is
/// left alone).
pub fn kit_apply_record(
    state: &mut DesktopState,
    kit_id: &str,
    project_path: &String,
    agent_name: &str,
    now: i64,
)
    ensures
        ({
            let key = project_path@ + "::"@ + agent_name@;
            let flags = flag_views(old(state).agents_md_applied@);
            if exists|i: int| 0 <= i < flags.len() && (#[trigger] flags[i]).0 == key {
                exists|i: int|
                    0 <= i < flags.len() && (#[trigger] flags[i]).0 == key && (forall|j: int|
                        0 <= j < i ==> (#[trigger] flags[j]).0 != key) && flag_views(
                        final(state).agents_md_applied@,
                    ) == flags.update(i, (flags[i].0, true))
            } else {
                flag_views(final(state).agents_md_applied@) == flags.push((key, true))
            }
        }),
        ({
            let kv = kit_views(old(state).kits@);
            if exists|i: int| 0 <= i < kv.len() && (#[trigger] kv[i]).id == kit_id@ {
                exists|i: int|
                    {
                        let updated = KitRecordV {
                            id: kv[i].id,
                            name: kv[i].name,
                            description: kv[i].description,
                            policy_id: kv[i].policy_id,
                            loadout_id: kv[i].loadout_id,
                            last_applied_at: Some(now as int),
                            last_applied_target: Some(
                                KitApplyTargetV {
                                    project_path: project_path@,
                                    agent_name: agent_name@,
                                },
                            ),
                            created_at: kv[i].created_at,
                            updated_at: now as int,
                        };
                        0 <= i < kv.len() && (#[trigger] kv[i]).id == kit_id@ && (forall|j: int|
                            0 <= j < i ==> (#[trigger] kv[j]).id != kit_id@) && kit_views(
                            final(state).kits@,
                        ) == kv.update(i, updated)
                    }
            } else {
                final(state).kits == old(state).kits
            }
        }),
        final(state).providers == old(state).providers,
        final(state).provider_backups == old(state).provider_backups,
        final(state).config == old(state).config,
        final(state).skills == old(state).skills,
        final(state).universal_providers == old(state).universal_providers,
        final(state).kit_policies == old(state).kit_policies,
        final(state).kit_loadouts == old(state).kit_loadouts,
        final(state).skill_documents == old(state).skill_documents,
{
    let key = kit_apply_key(project_path, agent_name);
    let ghost old_flags = flag_views(state.agents_md_applied@);
    match find_flag(&state.agents_md_applied, key.as_str()) {
        Some(fi) => {
            let existing_key = state.agents_md_applied[fi].0.clone();
            state.agents_md_applied.set(fi, (existing_key, true));
            proof {
                assert(flag_views(state.agents_md_applied@) =~= old_flags.update(
                    fi as int,
                    (old_flags[fi as int].0, true),
                ));
            }
        },
        None => {
            state.agents_md_applied.push((key, true));
            proof {
                assert(flag_views(state.agents_md_applied@) =~= old_flags.push(
                    (project_path@ + "::"@ + agent_name@, true),
                ));
            }
        },
    }
    let ghost mid_flags = flag_views(state.agents_md_applied@);
    match find_kit(&state.kits, kit_id) {
        Some(ki) => {
            let mut rec = state.kits[ki].clone();
            rec.last_applied_at = Some(now);
            rec.last_applied_target = Some(
                KitApplyTarget {
                    project_path: project_path.clone(),
                    agent_name: String::from_str(agent_name),
                },
            );
            rec.updated_at = now;
            let ghost old_kits = kit_views(state.kits@);
            let ghost recv = rec@;
            state.kits.set(ki, rec);
            proof {
                assert(kit_views(state.kits@) =~= old_kits.update(ki as int, recv));
                assert(old_kits == kit_views(old(state).kits@));
                assert(old_kits[ki as int].id == kit_id@);
                assert(recv == KitRecordV {
                    id: old_kits[ki as int].id,
                    name: old_kits[ki as int].name,
                    description: old_kits[ki as int].description,
                    policy_id: old_kits[ki as int].policy_id,
                    loadout_id: old_kits[ki as int].loadout_id,
                    last_applied_at: Some(now as int),
                    last_applied_target: Some(
                        KitApplyTargetV {
                            project_path: project_path@,
                            agent_name: agent_name@,
                        },
                    ),
                    created_at: old_kits[ki as int].created_at,
                    updated_at: now as int,
                });
            }
        },
        None => {},
    }
}

} // verus!
