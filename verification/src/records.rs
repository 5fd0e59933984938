//! The engine's persistent records and the whole-state snapshot.
//!
//! Every record is plain data; each has a ghost mirror over character
//! sequences (its view) so that contracts can speak about contents
//! exactly, and a `Clone` that provably preserves the view.

use vstd::prelude::*;
use crate::doc::Doc;
use crate::doc::DocV;
use crate::types::AppType;
use crate::types::KitSyncMode;
use crate::types::SkillLocation;
use crate::types::ApplyStatus;

verus! {

/// View of an optional string.
pub open spec fn opt_view(o: Option<String>) -> Option<Seq<char>> {
    match o {
        Some(s) => Some(s@),
        None => None,
    }
}

fn clone_opt_string(o: &Option<String>) -> (r: Option<String>)
    ensures
        opt_view(r) == opt_view(*o),
{
    match o {
        Some(s) => Some(s.clone()),
        None => None,
    }
}

// ---------------------------------------------------------------------
// Agents and application configuration.
// ---------------------------------------------------------------------
/// Ghost mirror of [`AgentConfig`].
pub struct AgentConfigV {
    pub name: Seq<char>,
    pub global_path: Seq<char>,
    pub project_path: Seq<char>,
    pub enabled: bool,
    pub is_custom: bool,
}

/// One supported agent: where its global skills live and where its
/// per-project skills go.
#[derive(Debug)]
pub struct AgentConfig {
    pub name: String,
    pub global_path: String,
    pub project_path: String,
    pub enabled: bool,
    pub is_custom: bool,
}

impl View for AgentConfig {
    type V = AgentConfigV;

    open spec fn view(&self) -> AgentConfigV {
        AgentConfigV {
            name: self.name@,
            global_path: self.global_path@,
            project_path: self.project_path@,
            enabled: self.enabled,
            is_custom: self.is_custom,
        }
    }
}

impl Clone for AgentConfig {
    fn clone(&self) -> (r: Self)
        ensures
            r@ == self@,
    {
        AgentConfig {
            name: self.name.clone(),
            global_path: self.global_path.clone(),
            project_path: self.project_path.clone(),
            enabled: self.enabled,
            is_custom: self.is_custom,
        }
    }
}

/// The views of a sequence of agents.
pub open spec fn agent_views(s: Seq<AgentConfig>) -> Seq<AgentConfigV> {
    Seq::new(s.len(), |i: int| s[i]@)
}

/// The views of a sequence of strings.
pub open spec fn string_views(s: Seq<String>) -> Seq<Seq<char>> {
    Seq::new(s.len(), |i: int| s[i]@)
}

/// Clones a string list, preserving the contents.
pub fn clone_string_vec(v: &Vec<String>) -> (r: Vec<String>)
    ensures
        string_views(r@) == string_views(v@),
{
    let mut r: Vec<String> = Vec::new();
    let n = v.len();
    let mut i: usize = 0;
    while i < n
        invariant
            0 <= i <= n,
            n == v@.len(),
            r@.len() == i,
            forall|j: int| 0 <= j < i ==> #[trigger] r@[j]@ == v@[j]@,
        decreases n - i,
    {
        r.push(v[i].clone());
        i += 1;
    }
    assert(string_views(r@) =~= string_views(v@));
    r
}

fn clone_agent_vec(v: &Vec<AgentConfig>) -> (r: Vec<AgentConfig>)
    ensures
        agent_views(r@) == agent_views(v@),
{
    let mut r: Vec<AgentConfig> = Vec::new();
    let n = v.len();
    let mut i: usize = 0;
    while i < n
        invariant
            0 <= i <= n,
            n == v@.len(),
            r@.len() == i,
            forall|j: int| 0 <= j < i ==> #[trigger] r@[j]@ == v@[j]@,
        decreases n - i,
    {
        r.push(v[i].clone());
        i += 1;
    }
    assert(agent_views(r@) =~= agent_views(v@));
    r
}

/// Ghost mirror of [`AppConfig`].
pub struct AppConfigV {
    pub hub_path: Seq<char>,
    pub projects: Seq<Seq<char>>,
    pub scan_roots: Seq<Seq<char>>,
    pub agents: Seq<AgentConfigV>,
}

/// The hub location, known projects, scan roots and agent definitions.
#[derive(Debug)]
pub struct AppConfig {
    pub hub_path: String,
    pub projects: Vec<String>,
    pub scan_roots: Vec<String>,
    pub agents: Vec<AgentConfig>,
}

impl View for AppConfig {
    type V = AppConfigV;

    open spec fn view(&self) -> AppConfigV {
        AppConfigV {
            hub_path: self.hub_path@,
            projects: string_views(self.projects@),
            scan_roots: string_views(self.scan_roots@),
            agents: agent_views(self.agents@),
        }
    }
}

impl Clone for AppConfig {
    fn clone(&self) -> (r: Self)
        ensures
            r@ == self@,
    {
        AppConfig {
            hub_path: self.hub_path.clone(),
            projects: clone_string_vec(&self.projects),
            scan_roots: clone_string_vec(&self.scan_roots),
            agents: clone_agent_vec(&self.agents),
        }
    }
}

// ---------------------------------------------------------------------
// Skills.
// ---------------------------------------------------------------------
/// Ghost mirror of [`Skill`].
pub struct SkillV {
    pub id: Seq<char>,
    pub name: Seq<char>,
    pub description: Seq<char>,
    pub path: Seq<char>,
    pub location: SkillLocation,
    pub agent_name: Option<Seq<char>>,
    pub project_name: Option<Seq<char>>,
}

/// One discovered skill directory.
#[derive(Debug)]
pub struct Skill {
    pub id: String,
    pub name: String,
    pub description: String,
    pub path: String,
    pub location: SkillLocation,
    pub agent_name: Option<String>,
    pub project_name: Option<String>,
}

impl View for Skill {
    type V = SkillV;

    open spec fn view(&self) -> SkillV {
        SkillV {
            id: self.id@,
            name: self.name@,
            description: self.description@,
            path: self.path@,
            location: self.location,
            agent_name: opt_view(self.agent_name),
            project_name: opt_view(self.project_name),
        }
    }
}

impl Clone for Skill {
    fn clone(&self) -> (r: Self)
        ensures
            r@ == self@,
    {
        Skill {
            id: self.id.clone(),
            name: self.name.clone(),
            description: self.description.clone(),
            path: self.path.clone(),
            location: self.location,
            agent_name: clone_opt_string(&self.agent_name),
            project_name: clone_opt_string(&self.project_name),
        }
    }
}

/// The views of a sequence of string pairs.
pub open spec fn pair_views(s: Seq<(String, String)>) -> Seq<(Seq<char>, Seq<char>)> {
    Seq::new(s.len(), |i: int| (s[i].0@, s[i].1@))
}

/// Ghost mirror of [`SkillDocument`].
pub struct SkillDocumentV {
    pub metadata: Seq<(Seq<char>, Seq<char>)>,
    pub content: Seq<char>,
}

/// A skill's marker file, split into front-matter metadata and body.
#[derive(Debug)]
pub struct SkillDocument {
    pub metadata: Vec<(String, String)>,
    pub content: String,
}

impl View for SkillDocument {
    type V = SkillDocumentV;

    open spec fn view(&self) -> SkillDocumentV {
        SkillDocumentV { metadata: pair_views(self.metadata@), content: self.content@ }
    }
}

impl Clone for SkillDocument {
    fn clone(&self) -> (r: Self)
        ensures
            r@ == self@,
    {
        let mut metadata: Vec<(String, String)> = Vec::new();
        let n = self.metadata.len();
        let mut i: usize = 0;
        while i < n
            invariant
                0 <= i <= n,
                n == self.metadata@.len(),
                metadata@.len() == i,
                forall|j: int| 0 <= j < i ==> #[trigger] metadata@[j].0@ == self.metadata@[j].0@
                    && metadata@[j].1@ == self.metadata@[j].1@,
            decreases n - i,
        {
            let entry = &self.metadata[i];
            metadata.push((entry.0.clone(), entry.1.clone()));
            i += 1;
        }
        let r = SkillDocument { metadata, content: self.content.clone() };
        assert(pair_views(r.metadata@) =~= pair_views(self.metadata@));
        r
    }
}

// ---------------------------------------------------------------------
// Providers.
// ---------------------------------------------------------------------
/// Ghost mirror of [`ProviderRecord`].
pub struct ProviderRecordV {
    pub id: Seq<char>,
    pub app_type: AppType,
    pub name: Seq<char>,
    pub config: DocV,
    pub is_current: bool,
    pub created_at: int,
    pub updated_at: int,
}

/// A stored provider profile for one tool type.  Invariant, enforced
/// by the registry operations: per tool type at most one record has
/// `is_current` set.
#[derive(Debug)]
pub struct ProviderRecord {
    pub id: String,
    pub app_type: AppType,
    pub name: String,
    pub config: Doc,
    pub is_current: bool,
    pub created_at: i64,
    pub updated_at: i64,
}

impl View for ProviderRecord {
    type V = ProviderRecordV;

    open spec fn view(&self) -> ProviderRecordV {
        ProviderRecordV {
            id: self.id@,
            app_type: self.app_type,
            name: self.name@,
            config: self.config@,
            is_current: self.is_current,
            created_at: self.created_at as int,
            updated_at: self.updated_at as int,
        }
    }
}

impl Clone for ProviderRecord {
    fn clone(&self) -> (r: Self)
        ensures
            r@ == self@,
    {
        ProviderRecord {
            id: self.id.clone(),
            app_type: self.app_type,
            name: self.name.clone(),
            config: self.config.clone(),
            is_current: self.is_current,
            created_at: self.created_at,
            updated_at: self.updated_at,
        }
    }
}

/// The views of a sequence of provider records.
pub open spec fn provider_views(s: Seq<ProviderRecord>) -> Seq<ProviderRecordV> {
    Seq::new(s.len(), |i: int| s[i]@)
}

/// Ghost mirror of [`ProviderBackupEntry`].
pub struct ProviderBackupEntryV {
    pub backup_id: int,
    pub provider: ProviderRecordV,
}

/// One append-only backup snapshot of a displaced current provider.
#[derive(Debug)]
pub struct ProviderBackupEntry {
    pub backup_id: i64,
    pub provider: ProviderRecord,
}

impl View for ProviderBackupEntry {
    type V = ProviderBackupEntryV;

    open spec fn view(&self) -> ProviderBackupEntryV {
        ProviderBackupEntryV { backup_id: self.backup_id as int, provider: self.provider@ }
    }
}

impl Clone for ProviderBackupEntry {
    fn clone(&self) -> (r: Self)
        ensures
            r@ == self@,
    {
        ProviderBackupEntry { backup_id: self.backup_id, provider: self.provider.clone() }
    }
}

/// The views of a sequence of backup entries.
pub open spec fn backup_views(s: Seq<ProviderBackupEntry>) -> Seq<ProviderBackupEntryV> {
    Seq::new(s.len(), |i: int| s[i]@)
}

/// The per-tool-type backup histories.
#[derive(Debug)]
pub struct ProviderBackups {
    pub toola: Vec<ProviderBackupEntry>,
    pub codex: Vec<ProviderBackupEntry>,
    pub gemini: Vec<ProviderBackupEntry>,
}

impl ProviderBackups {
    /// The backup sequence of one tool type.
    pub open spec fn for_type(self, t: AppType) -> Seq<ProviderBackupEntry> {
        match t {
            AppType::ToolA => self.toola@,
            AppType::Codex => self.codex@,
            AppType::Gemini => self.gemini@,
        }
    }

    /// An empty history for every tool type.
    pub fn new() -> (r: ProviderBackups)
        ensures
            forall|t: AppType| #[trigger] r.for_type(t).len() == 0,
    {
        ProviderBackups { toola: Vec::new(), codex: Vec::new(), gemini: Vec::new() }
    }

    /// Read access to one tool type's history.
    pub fn entries<'a>(&'a self, t: &AppType) -> (r: &'a Vec<ProviderBackupEntry>)
        ensures
            r@ == self.for_type(*t),
    {
        match t {
            AppType::ToolA => &self.toola,
            AppType::Codex => &self.codex,
            AppType::Gemini => &self.gemini,
        }
    }

    /// Appends one entry to one tool type's history.
    pub fn push_entry(&mut self, t: &AppType, e: ProviderBackupEntry)
        ensures
            final(self).for_type(*t) == old(self).for_type(*t).push(e),
            forall|u: AppType| u != *t ==> #[trigger] final(self).for_type(u) == old(
                self,
            ).for_type(u),
    {
        match t {
            AppType::ToolA => self.toola.push(e),
            AppType::Codex => self.codex.push(e),
            AppType::Gemini => self.gemini.push(e),
        }
    }
}

// ---------------------------------------------------------------------
// Universal providers.
// ---------------------------------------------------------------------
/// Which tools a universal provider fans out to.
#[derive(Clone, Copy, Debug, PartialEq, Eq, Structural)]
pub struct UniversalProviderApps {
    pub toola: bool,
    pub codex: bool,
    pub gemini: bool,
}

impl UniversalProviderApps {
    /// The caller's selection, or all three tools by default.
    pub fn with_defaults(input: Option<UniversalProviderApps>) -> (r: UniversalProviderApps)
        ensures
            match input {
                Some(apps) => r == apps,
                None => r.toola && r.codex && r.gemini,
            },
    {
        match input {
            Some(apps) => apps,
            None => UniversalProviderApps { toola: true, codex: true, gemini: true },
        }
    }
}

/// Ghost mirror of [`ModelConfig`].
pub struct ModelConfigV {
    pub model: Option<Seq<char>>,
}

/// The model choice for one tool.
#[derive(Debug)]
pub struct ModelConfig {
    pub model: Option<String>,
}

impl View for ModelConfig {
    type V = ModelConfigV;

    open spec fn view(&self) -> ModelConfigV {
        ModelConfigV { model: opt_view(self.model) }
    }
}

impl Clone for ModelConfig {
    fn clone(&self) -> (r: Self)
        ensures
            r@ == self@,
    {
        ModelConfig { model: clone_opt_string(&self.model) }
    }
}

/// View of an optional model configuration.
pub open spec fn model_view(o: Option<ModelConfig>) -> Option<ModelConfigV> {
    match o {
        Some(m) => Some(m@),
        None => None,
    }
}

fn clone_model(o: &Option<ModelConfig>) -> (r: Option<ModelConfig>)
    ensures
        model_view(r) == model_view(*o),
{
    match o {
        Some(m) => Some(m.clone()),
        None => None,
    }
}

/// Ghost mirror of [`UniversalProviderModels`].
pub struct UniversalProviderModelsV {
    pub toola: Option<ModelConfigV>,
    pub codex: Option<ModelConfigV>,
    pub gemini: Option<ModelConfigV>,
}

/// Per-tool model choices of a universal provider.
#[derive(Debug)]
pub struct UniversalProviderModels {
    pub toola: Option<ModelConfig>,
    pub codex: Option<ModelConfig>,
    pub gemini: Option<ModelConfig>,
}

impl View for UniversalProviderModels {
    type V = UniversalProviderModelsV;

    open spec fn view(&self) -> UniversalProviderModelsV {
        UniversalProviderModelsV {
            toola: model_view(self.toola),
            codex: model_view(self.codex),
            gemini: model_view(self.gemini),
        }
    }
}

impl Clone for UniversalProviderModels {
    fn clone(&self) -> (r: Self)
        ensures
            r@ == self@,
    {
        UniversalProviderModels {
            toola: clone_model(&self.toola),
            codex: clone_model(&self.codex),
            gemini: clone_model(&self.gemini),
        }
    }
}

impl UniversalProviderModels {
    /// No model chosen for any tool.
    pub fn empty() -> (r: UniversalProviderModels)
        ensures
            r@.toola is None && r@.codex is None && r@.gemini is None,
    {
        UniversalProviderModels { toola: None, codex: None, gemini: None }
    }
}

/// Ghost mirror of [`UniversalProviderRecord`].
pub struct UniversalProviderRecordV {
    pub id: Seq<char>,
    pub name: Seq<char>,
    pub base_url: Seq<char>,
    pub api_key: Seq<char>,
    pub website_url: Option<Seq<char>>,
    pub notes: Option<Seq<char>>,
    pub apps: UniversalProviderApps,
    pub models: UniversalProviderModelsV,
    pub created_at: int,
    pub updated_at: int,
}

/// One credential/endpoint shared across tools.
#[derive(Debug)]
pub struct UniversalProviderRecord {
    pub id: String,
    pub name: String,
    pub base_url: String,
    pub api_key: String,
    pub website_url: Option<String>,
    pub notes: Option<String>,
    pub apps: UniversalProviderApps,
    pub models: UniversalProviderModels,
    pub created_at: i64,
    pub updated_at: i64,
}

impl View for UniversalProviderRecord {
    type V = UniversalProviderRecordV;

    open spec fn view(&self) -> UniversalProviderRecordV {
        UniversalProviderRecordV {
            id: self.id@,
            name: self.name@,
            base_url: self.base_url@,
            api_key: self.api_key@,
            website_url: opt_view(self.website_url),
            notes: opt_view(self.notes),
            apps: self.apps,
            models: self.models@,
            created_at: self.created_at as int,
            updated_at: self.updated_at as int,
        }
    }
}

impl Clone for UniversalProviderRecord {
    fn clone(&self) -> (r: Self)
        ensures
            r@ == self@,
    {
        UniversalProviderRecord {
            id: self.id.clone(),
            name: self.name.clone(),
            base_url: self.base_url.clone(),
            api_key: self.api_key.clone(),
            website_url: clone_opt_string(&self.website_url),
            notes: clone_opt_string(&self.notes),
            apps: self.apps,
            models: self.models.clone(),
            created_at: self.created_at,
            updated_at: self.updated_at,
        }
    }
}

// ---------------------------------------------------------------------
// Kits.
// ---------------------------------------------------------------------
/// Ghost mirror of [`KitLoadoutItem`].
pub struct KitLoadoutItemV {
    pub skill_path: Seq<char>,
    pub mode: KitSyncMode,
    pub sort_order: int,
}

/// One skill of a loadout, with its synchronisation mode and order.
#[derive(Debug)]
pub struct KitLoadoutItem {
    pub skill_path: String,
    pub mode: KitSyncMode,
    pub sort_order: i64,
}

impl View for KitLoadoutItem {
    type V = KitLoadoutItemV;

    open spec fn view(&self) -> KitLoadoutItemV {
        KitLoadoutItemV {
            skill_path: self.skill_path@,
            mode: self.mode,
            sort_order: self.sort_order as int,
        }
    }
}

impl Clone for KitLoadoutItem {
    fn clone(&self) -> (r: Self)
        ensures
            r@ == self@,
    {
        KitLoadoutItem {
            skill_path: self.skill_path.clone(),
            mode: self.mode,
            sort_order: self.sort_order,
        }
    }
}

/// The views of a sequence of loadout items.
pub open spec fn item_views(s: Seq<KitLoadoutItem>) -> Seq<KitLoadoutItemV> {
    Seq::new(s.len(), |i: int| s[i]@)
}

/// Clones a loadout item list, preserving the contents.
pub fn clone_item_vec(v: &Vec<KitLoadoutItem>) -> (r: Vec<KitLoadoutItem>)
    ensures
        item_views(r@) == item_views(v@),
{
    let mut r: Vec<KitLoadoutItem> = Vec::new();
    let n = v.len();
    let mut i: usize = 0;
    while i < n
        invariant
            0 <= i <= n,
            n == v@.len(),
            r@.len() == i,
            forall|j: int| 0 <= j < i ==> #[trigger] r@[j]@ == v@[j]@,
        decreases n - i,
    {
        r.push(v[i].clone());
        i += 1;
    }
    assert(item_views(r@) =~= item_views(v@));
    r
}

/// Ghost mirror of [`KitLoadoutRecord`].
pub struct KitLoadoutRecordV {
    pub id: Seq<char>,
    pub name: Seq<char>,
    pub description: Option<Seq<char>>,
    pub items: Seq<KitLoadoutItemV>,
    pub created_at: int,
    pub updated_at: int,
}

/// An ordered list of skills applied together.
#[derive(Debug)]
pub struct KitLoadoutRecord {
    pub id: String,
    pub name: String,
    pub description: Option<String>,
    pub items: Vec<KitLoadoutItem>,
    pub created_at: i64,
    pub updated_at: i64,
}

impl View for KitLoadoutRecord {
    type V = KitLoadoutRecordV;

    open spec fn view(&self) -> KitLoadoutRecordV {
        KitLoadoutRecordV {
            id: self.id@,
            name: self.name@,
            description: opt_view(self.description),
            items: item_views(self.items@),
            created_at: self.created_at as int,
            updated_at: self.updated_at as int,
        }
    }
}

impl Clone for KitLoadoutRecord {
    fn clone(&self) -> (r: Self)
        ensures
            r@ == self@,
    {
        KitLoadoutRecord {
            id: self.id.clone(),
            name: self.name.clone(),
            description: clone_opt_string(&self.description),
            items: clone_item_vec(&self.items),
            created_at: self.created_at,
            updated_at: self.updated_at,
        }
    }
}

/// Ghost mirror of [`KitPolicyRecord`].
pub struct KitPolicyRecordV {
    pub id: Seq<char>,
    pub name: Seq<char>,
    pub description: Option<Seq<char>>,
    pub content: Seq<char>,
    pub created_at: int,
    pub updated_at: int,
}

/// A policy document materialised at a project root on apply.
#[derive(Debug)]
pub struct KitPolicyRecord {
    pub id: String,
    pub name: String,
    pub description: Option<String>,
    pub content: String,
    pub created_at: i64,
    pub updated_at: i64,
}

impl View for KitPolicyRecord {
    type V = KitPolicyRecordV;

    open spec fn view(&self) -> KitPolicyRecordV {
        KitPolicyRecordV {
            id: self.id@,
            name: self.name@,
            description: opt_view(self.description),
            content: self.content@,
            created_at: self.created_at as int,
            updated_at: self.updated_at as int,
        }
    }
}

impl Clone for KitPolicyRecord {
    fn clone(&self) -> (r: Self)
        ensures
            r@ == self@,
    {
        KitPolicyRecord {
            id: self.id.clone(),
            name: self.name.clone(),
            description: clone_opt_string(&self.description),
            content: self.content.clone(),
            created_at: self.created_at,
            updated_at: self.updated_at,
        }
    }
}

/// Ghost mirror of [`KitApplyTarget`].
pub struct KitApplyTargetV {
    pub project_path: Seq<char>,
    pub agent_name: Seq<char>,
}

/// Where a kit was last applied.
#[derive(Debug)]
pub struct KitApplyTarget {
    pub project_path: String,
    pub agent_name: String,
}

impl View for KitApplyTarget {
    type V = KitApplyTargetV;

    open spec fn view(&self) -> KitApplyTargetV {
        KitApplyTargetV { project_path: self.project_path@, agent_name: self.agent_name@ }
    }
}

impl Clone for KitApplyTarget {
    fn clone(&self) -> (r: Self)
        ensures
            r@ == self@,
    {
        KitApplyTarget {
            project_path: self.project_path.clone(),
            agent_name: self.agent_name.clone(),
        }
    }
}

/// View of an optional apply target.
pub open spec fn target_view(o: Option<KitApplyTarget>) -> Option<KitApplyTargetV> {
    match o {
        Some(t) => Some(t@),
        None => None,
    }
}

/// Ghost mirror of [`KitRecord`].
pub struct KitRecordV {
    pub id: Seq<char>,
    pub name: Seq<char>,
    pub description: Option<Seq<char>>,
    pub policy_id: Seq<char>,
    pub loadout_id: Seq<char>,
    pub last_applied_at: Option<int>,
    pub last_applied_target: Option<KitApplyTargetV>,
    pub created_at: int,
    pub updated_at: int,
}

/// A kit: one policy plus one loadout, with apply bookkeeping.
#[derive(Debug)]
pub struct KitRecord {
    pub id: String,
    pub name: String,
    pub description: Option<String>,
    pub policy_id: String,
    pub loadout_id: String,
    pub last_applied_at: Option<i64>,
    pub last_applied_target: Option<KitApplyTarget>,
    pub created_at: i64,
    pub updated_at: i64,
}

impl View for KitRecord {
    type V = KitRecordV;

    open spec fn view(&self) -> KitRecordV {
        KitRecordV {
            id: self.id@,
            name: self.name@,
            description: opt_view(self.description),
            policy_id: self.policy_id@,
            loadout_id: self.loadout_id@,
            last_applied_at: match self.last_applied_at {
                Some(t) => Some(t as int),
                None => None,
            },
            last_applied_target: target_view(self.last_applied_target),
            created_at: self.created_at as int,
            updated_at: self.updated_at as int,
        }
    }
}

impl Clone for KitRecord {
    fn clone(&self) -> (r: Self)
        ensures
            r@ == self@,
    {
        KitRecord {
            id: self.id.clone(),
            name: self.name.clone(),
            description: clone_opt_string(&self.description),
            policy_id: self.policy_id.clone(),
            loadout_id: self.loadout_id.clone(),
            last_applied_at: match self.last_applied_at {
                Some(t) => Some(t),
                None => None,
            },
            last_applied_target: match &self.last_applied_target {
                Some(t) => Some(t.clone()),
                None => None,
            },
            created_at: self.created_at,
            updated_at: self.updated_at,
        }
    }
}

/// Outcome of one loadout item during a kit apply.
#[derive(Debug)]
pub struct KitApplySkillResult {
    pub skill_path: String,
    pub mode: KitSyncMode,
    pub destination: String,
    pub status: ApplyStatus,
    pub error: Option<String>,
}

/// The aggregate outcome of a kit apply.
#[derive(Debug)]
pub struct KitApplyResult {
    pub kit_id: String,
    pub kit_name: String,
    pub policy_path: String,
    pub project_path: String,
    pub agent_name: String,
    pub applied_at: i64,
    pub overwrote_agents_md: Option<bool>,
    pub loadout_results: Vec<KitApplySkillResult>,
}

// ---------------------------------------------------------------------
// The whole-state snapshot.
// ---------------------------------------------------------------------
/// The whole in-memory state: configuration, skill index, provider
/// registry with backups, universal providers, kits and bookkeeping.
#[derive(Debug)]
pub struct DesktopState {
    pub config: AppConfig,
    pub skills: Vec<Skill>,
    pub providers: Vec<ProviderRecord>,
    pub universal_providers: Vec<UniversalProviderRecord>,
    pub kit_policies: Vec<KitPolicyRecord>,
    pub kit_loadouts: Vec<KitLoadoutRecord>,
    pub kits: Vec<KitRecord>,
    pub provider_backups: ProviderBackups,
    pub skill_documents: Vec<(String, SkillDocument)>,
    pub agents_md_applied: Vec<(String, bool)>,
}

impl DesktopState {
    /// An empty state: no records of any kind.
    pub fn empty() -> (r: DesktopState)
        ensures
            r.providers@.len() == 0,
            r.universal_providers@.len() == 0,
            r.kit_policies@.len() == 0,
            r.kit_loadouts@.len() == 0,
            r.kits@.len() == 0,
            forall|t: AppType| #[trigger] r.provider_backups.for_type(t).len() == 0,
            r.config.projects@.len() == 0,
            r.config.scan_roots@.len() == 0,
            r.config.agents@.len() == 0,
            r.skills@.len() == 0,
            r.skill_documents@.len() == 0,
            r.agents_md_applied@.len() == 0,
    {
        DesktopState {
            config: AppConfig {
                hub_path: String::new(),
                projects: Vec::new(),
                scan_roots: Vec::new(),
                agents: Vec::new(),
            },
            skills: Vec::new(),
            providers: Vec::new(),
            universal_providers: Vec::new(),
            kit_policies: Vec::new(),
            kit_loadouts: Vec::new(),
            kits: Vec::new(),
            provider_backups: ProviderBackups::new(),
            skill_documents: Vec::new(),
            agents_md_applied: Vec::new(),
        }
    }
}

} // verus!
