//! Per-project compression profiles: which turns are recorded under which project, and the
//! cache-policy snapshot kept with a project's row.

use vstd::prelude::*;
use crate::compression::CompressionMode;
use crate::eco_counterfactual::{mode_label, mode_label_text};
use crate::text::{chars_to_string, owned, str_chars, sub_vec, trim, trim_range};

verus! {

/// The adaptive cache policy last seen for a project.
#[derive(Debug, Clone)]
pub struct CachePolicySnapshot {
    /// Last effective prompt-cache TTL, in seconds.
    pub last_effective_ttl_secs: u64,
    /// Same-key streak that fed the TTL stretch.
    pub last_streak: u32,
    /// The content classifier's label before the merge.
    pub last_content_recommendation: String,
    pub updated_at_unix: i64,
}

/// The snapshot of a turn's adaptive cache telemetry: absent values count as zero or empty.
pub fn cache_snapshot_from(
    effective_ttl_secs: Option<u64>,
    prompt_streak: Option<u32>,
    content_recommendation: Option<&str>,
    now_unix: i64,
) -> (r: CachePolicySnapshot)
    ensures
        r.last_effective_ttl_secs == match effective_ttl_secs {
            Some(t) => t,
            None => 0,
        },
        r.last_streak == match prompt_streak {
            Some(s) => s,
            None => 0,
        },
        r.last_content_recommendation@ == match content_recommendation {
            Some(c) => c@,
            None => ""@,
        },
        r.updated_at_unix == now_unix,
{
    CachePolicySnapshot {
        last_effective_ttl_secs: match effective_ttl_secs {
            Some(t) => t,
            None => 0,
        },
        last_streak: match prompt_streak {
            Some(s) => s,
            None => 0,
        },
        last_content_recommendation: match content_recommendation {
            Some(c) => owned(c),
            None => owned(""),
        },
        updated_at_unix: now_unix,
    }
}

/// The project key of a manifest's `project_id`: trimmed, and only when not empty.
pub open spec fn project_key(project_id: Option<Seq<char>>) -> Option<Seq<char>> {
    match project_id {
        Some(p) => if trim(p).len() > 0 {
            Some(trim(p))
        } else {
            None
        },
        None => None,
    }
}

/// The project key of a manifest's `project_id`.
pub fn project_key_of(project_id: Option<&str>) -> (r: Option<String>)
    ensures
        match r {
            Some(k) => project_key(
                match project_id {
                    Some(p) => Some(p@),
                    None => None,
                },
            ) == Some(k@),
            None => project_key(
                match project_id {
                    Some(p) => Some(p@),
                    None => None,
                },
            ) is None,
        },
{
    match project_id {
        Some(p) => {
            let c = str_chars(p);
            let (a, b) = trim_range(c.as_slice(), 0, c.len());
            assert(c@.subrange(0, c@.len() as int) =~= c@);
            if a == b {
                None
            } else {
                let t = sub_vec(c.as_slice(), a, b);
                Some(chars_to_string(t.as_slice()))
            }
        },
        None => None,
    }
}

/// Whether a compressed turn is recorded, and under which project and mode label: only for
/// a mode other than off, with a semantic score, under a non-blank project id.
pub fn turn_record_target(
    mode: CompressionMode,
    has_semantic_score: bool,
    project_id: Option<&str>,
) -> (r: Option<(String, &'static str)>)
    ensures
        ({
            let key = project_key(
                match project_id {
                    Some(p) => Some(p@),
                    None => None,
                },
            );
            match r {
                Some((k, label)) => mode != CompressionMode::Off && has_semantic_score && key == Some(
                    k@,
                ) && label@ == mode_label_text(mode),
                None => mode == CompressionMode::Off || !has_semantic_score || key is None,
            }
        }),
{
    if mode == CompressionMode::Off || !has_semantic_score {
        return None;
    }
    match project_key_of(project_id) {
        Some(k) => Some((k, mode_label(mode))),
        None => None,
    }
}

/// The operator override's project key, or the error for a blank id.
pub fn operator_project_key(project_id: &str) -> (r: Result<String, String>)
    ensures
        match r {
            Ok(k) => trim(project_id@).len() > 0 && k@ == trim(project_id@),
            Err(e) => trim(project_id@).len() == 0 && e@ == "project_id must be non-empty"@,
        },
{
    match project_key_of(Some(project_id)) {
        Some(k) => Ok(k),
        None => Err(owned("project_id must be non-empty")),
    }
}

/// The trimmed mode label an operator override stores (empty when none is given).
pub fn operator_mode_label(last_applied_mode: Option<&str>) -> (r: String)
    ensures
        r@ == match last_applied_mode {
            Some(m) => trim(m@),
            None => ""@,
        },
{
    match last_applied_mode {
        Some(m) => {
            let c = str_chars(m);
            let (a, b) = trim_range(c.as_slice(), 0, c.len());
            assert(c@.subrange(0, c@.len() as int) =~= c@);
            let t = sub_vec(c.as_slice(), a, b);
            chars_to_string(t.as_slice())
        },
        None => owned(""),
    }
}

/// A profiles file's version: an unset version (0) becomes 1.
pub fn normalized_profiles_version(version: u32) -> (r: u32)
    ensures
        r == if version == 0 { 1 } else { version },
{
    if version == 0 {
        1
    } else {
        version
    }
}

} // verus!
