//! The platform-agnostic event model.
//!
//! Each adapter yields its platform's native event shape; normalization turns
//! those into one internal record, and the raw per-platform action strings
//! are mapped onto a closed canonical vocabulary before anything is stored.

use vstd::prelude::*;

verus! {

/// The capability set of source-control platforms this engine syncs from.
#[derive(Clone, Copy, PartialEq, Eq, Structural, Debug)]
pub enum Platform {
    Github,
    Gitlab,
}

/// Marker for a platform's native event shape.
pub trait GitEventAPI {}

/// A project row as the store keeps it: the store-assigned id plus the
/// platform's own project id, and the resolved name and URL.
#[derive(Clone, Debug)]
pub struct GitProject {
    pub id: u64,
    pub platform_project_id: u64,
    pub name: String,
    pub url: String,
}

/// The canonical, platform-agnostic action vocabulary. Raw platform action
/// strings are mapped here before lookup or insert; events whose raw action
/// maps to nothing are skipped, never stored under a placeholder.
#[derive(Clone, Copy, PartialEq, Eq, Structural, Debug)]
pub enum CanonicalAction {
    Push,
    Create,
    Delete,
    Open,
    Close,
    Merge,
    Comment,
    Star,
    Fork,
    Join,
}

/// A normalized event: what an adapter hands to the persistence engine.
/// `project_name` and `project_url` carry what the platform's event payload
/// already knows of the project (GitHub: the repo name and its API URL;
/// GitLab: nothing); the authoritative name and URL of a newly seen project
/// come from a supplemental detail fetch.
#[derive(Clone, Debug)]
pub struct RawEvent {
    pub external_project_id: u64,
    pub project_name: String,
    pub project_url: String,
    pub raw_action: String,
    pub created_at: String,
}

/// What a supplemental project-detail fetch resolved: the project's display
/// name, its canonical URL, and whether the platform denotes it public.
#[derive(Clone, Debug)]
pub struct ProjectDetail {
    pub name: String,
    pub url: String,
    pub public: bool,
}

/// The outcome of one requested detail fetch: `detail` is `None` when the
/// fetch failed or the platform knows no such project.
#[derive(Clone, Debug)]
pub struct DetailResult {
    pub project_id: u64,
    pub detail: Option<ProjectDetail>,
}

/// String equality by content, stated over the views.
pub fn str_equal(a: &str, b: &str) -> (r: bool)
    ensures
        r == (a@ == b@),
{
    let sa: String = a.to_owned();
    let sb: String = b.to_owned();
    sa == sb
}

/// The canonical action, if any, that GitHub's event `type` string denotes.
pub open spec fn spec_map_github_action(s: Seq<char>) -> Option<CanonicalAction> {
    if s == "PushEvent"@ {
        Some(CanonicalAction::Push)
    } else if s == "CreateEvent"@ {
        Some(CanonicalAction::Create)
    } else if s == "DeleteEvent"@ {
        Some(CanonicalAction::Delete)
    } else if s == "PullRequestEvent"@ {
        Some(CanonicalAction::Open)
    } else if s == "IssueCommentEvent"@ {
        Some(CanonicalAction::Comment)
    } else if s == "WatchEvent"@ {
        Some(CanonicalAction::Star)
    } else if s == "ForkEvent"@ {
        Some(CanonicalAction::Fork)
    } else if s == "MemberEvent"@ {
        Some(CanonicalAction::Join)
    } else {
        None
    }
}

/// The canonical action, if any, that GitLab's `action_name` string denotes.
pub open spec fn spec_map_gitlab_action(s: Seq<char>) -> Option<CanonicalAction> {
    if s == "pushed to"@ || s == "pushed new"@ {
        Some(CanonicalAction::Push)
    } else if s == "created"@ {
        Some(CanonicalAction::Create)
    } else if s == "deleted"@ || s == "destroyed"@ {
        Some(CanonicalAction::Delete)
    } else if s == "opened"@ {
        Some(CanonicalAction::Open)
    } else if s == "closed"@ {
        Some(CanonicalAction::Close)
    } else if s == "merged"@ || s == "accepted"@ {
        Some(CanonicalAction::Merge)
    } else if s == "commented on"@ {
        Some(CanonicalAction::Comment)
    } else if s == "joined"@ {
        Some(CanonicalAction::Join)
    } else {
        None
    }
}

/// What a platform's raw action string normalizes to.
pub open spec fn spec_map_action(platform: Platform, s: Seq<char>) -> Option<CanonicalAction> {
    match platform {
        Platform::Github => spec_map_github_action(s),
        Platform::Gitlab => spec_map_gitlab_action(s),
    }
}

/// Maps a raw platform action string onto the canonical vocabulary.
pub fn map_action_name(platform: Platform, raw: &str) -> (r: Option<CanonicalAction>)
    ensures
        r == spec_map_action(platform, raw@),
{
    match platform {
        Platform::Github => {
            if str_equal(raw, "PushEvent") {
                Some(CanonicalAction::Push)
            } else if str_equal(raw, "CreateEvent") {
                Some(CanonicalAction::Create)
            } else if str_equal(raw, "DeleteEvent") {
                Some(CanonicalAction::Delete)
            } else if str_equal(raw, "PullRequestEvent") {
                Some(CanonicalAction::Open)
            } else if str_equal(raw, "IssueCommentEvent") {
                Some(CanonicalAction::Comment)
            } else if str_equal(raw, "WatchEvent") {
                Some(CanonicalAction::Star)
            } else if str_equal(raw, "ForkEvent") {
                Some(CanonicalAction::Fork)
            } else if str_equal(raw, "MemberEvent") {
                Some(CanonicalAction::Join)
            } else {
                None
            }
        }
        Platform::Gitlab => {
            if str_equal(raw, "pushed to") || str_equal(raw, "pushed new") {
                Some(CanonicalAction::Push)
            } else if str_equal(raw, "created") {
                Some(CanonicalAction::Create)
            } else if str_equal(raw, "deleted") || str_equal(raw, "destroyed") {
                Some(CanonicalAction::Delete)
            } else if str_equal(raw, "opened") {
                Some(CanonicalAction::Open)
            } else if str_equal(raw, "closed") {
                Some(CanonicalAction::Close)
            } else if str_equal(raw, "merged") || str_equal(raw, "accepted") {
                Some(CanonicalAction::Merge)
            } else if str_equal(raw, "commented on") {
                Some(CanonicalAction::Comment)
            } else if str_equal(raw, "joined") {
                Some(CanonicalAction::Join)
            } else {
                None
            }
        }
    }
}

} // verus!
