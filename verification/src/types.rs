//! The closed enumerations of the engine: supported tool types, skill
//! placement, synchronisation modes and per-item apply outcomes.

use vstd::prelude::*;
use vstd::string::StringExecFns;
use crate::strutil::str_eq;

verus! {

/// One of the supported AI command-line tools.  Each has its own live
/// configuration file layout and merge algorithm.
#[derive(Clone, Copy, Debug, PartialEq, Eq, Structural)]
pub enum AppType {
    ToolA,
    Codex,
    Gemini,
}

/// Where a skill directory was found.
#[derive(Clone, Copy, Debug, PartialEq, Eq, Structural)]
pub enum SkillLocation {
    Hub,
    Agent,
    Project,
}

/// How a skill directory is materialised into a destination parent.
#[derive(Clone, Copy, Debug, PartialEq, Eq, Structural)]
pub enum KitSyncMode {
    Copy,
    Link,
}

/// Outcome of one loadout item during a kit apply.
#[derive(Clone, Copy, Debug, PartialEq, Eq, Structural)]
pub enum ApplyStatus {
    Success,
    Failed,
}

/// The tool type denoted by a raw identifier, if any.
pub open spec fn app_type_of(s: Seq<char>) -> Option<AppType> {
    if s == "toola"@ {
        Some(AppType::ToolA)
    } else if s == "codex"@ {
        Some(AppType::Codex)
    } else if s == "gemini"@ {
        Some(AppType::Gemini)
    } else {
        None
    }
}

/// The canonical identifier of a tool type.
pub open spec fn app_type_name(t: AppType) -> Seq<char> {
    match t {
        AppType::ToolA => "toola"@,
        AppType::Codex => "codex"@,
        AppType::Gemini => "gemini"@,
    }
}

impl AppType {
    /// Parses a raw identifier; every string other than the three
    /// canonical names is rejected.
    pub fn parse(raw: &str) -> (r: Result<AppType, String>)
        ensures
            match r {
                Ok(t) => app_type_of(raw@) == Some(t),
                Err(m) => app_type_of(raw@) is None && m@ == "Unsupported app type: "@ + raw@,
            },
    {
        if str_eq(raw, "toola") {
            Ok(AppType::ToolA)
        } else if str_eq(raw, "codex") {
            Ok(AppType::Codex)
        } else if str_eq(raw, "gemini") {
            Ok(AppType::Gemini)
        } else {
            Err(String::from_str("Unsupported app type: ").concat(raw))
        }
    }

    /// The canonical identifier of this tool type.
    pub fn as_str(&self) -> (r: &'static str)
        ensures
            r@ == app_type_name(*self),
    {
        match self {
            AppType::ToolA => "toola",
            AppType::Codex => "codex",
            AppType::Gemini => "gemini",
        }
    }
}

/// The synchronisation mode denoted by a raw identifier, if any.
pub open spec fn sync_mode_of(s: Seq<char>) -> Option<KitSyncMode> {
    if s == "copy"@ {
        Some(KitSyncMode::Copy)
    } else if s == "link"@ {
        Some(KitSyncMode::Link)
    } else {
        None
    }
}

impl KitSyncMode {
    /// Parses a raw identifier; only `copy` and `link` are accepted.
    pub fn parse(raw: &str) -> (r: Result<KitSyncMode, String>)
        ensures
            match r {
                Ok(m) => sync_mode_of(raw@) == Some(m),
                Err(m) => sync_mode_of(raw@) is None && m@ == "Unsupported sync mode: "@ + raw@,
            },
    {
        if str_eq(raw, "copy") {
            Ok(KitSyncMode::Copy)
        } else if str_eq(raw, "link") {
            Ok(KitSyncMode::Link)
        } else {
            Err(String::from_str("Unsupported sync mode: ").concat(raw))
        }
    }
}

} // verus!
