//! The GitLab adapter: its native event shape, and the page-step logic of
//! a fetch.
//!
//! GitLab's events endpoint takes an explicit `after`/`before` window, so
//! the coordinator narrows each fetch to the span since the last successful
//! sync. Pagination runs on the `x-total-pages` and `x-page` response
//! headers: the loop continues until the current page reaches the total. A
//! non-success status, a missing or malformed pagination header, or a page
//! number other than the one requested aborts the fetch for this cycle.

use vstd::prelude::*;
use vstd::string::StringSliceAdditionalSpecFns;

use crate::bytes::{parse_u32, spec_parse_u32};
use crate::github::spec_success;
use crate::git_platform::{str_equal, GitEventAPI, ProjectDetail, RawEvent};
use vstd::utf8::encode_utf8;

verus! {

/// GitLab's native event shape, as its events endpoint returns it.
#[derive(Clone, Debug)]
pub struct GitlabEvent {
    pub project_id: u64,
    pub action_name: String,
    pub created_at: String,
    pub push_data: Option<PushData>,
}

impl GitEventAPI for GitlabEvent {

}

/// The push payload a push event carries.
#[derive(Clone, Copy, PartialEq, Eq, Structural, Debug)]
pub struct PushData {
    pub commit_count: u64,
}

/// What the project API answers a detail fetch with.
#[derive(Clone, Debug)]
pub struct GitlabProjectAPI {
    pub id: u64,
    pub name_with_namespace: String,
    pub web_url: String,
    pub visibility: Option<String>,
}

/// A GitLab project as a store row carries it.
#[derive(Clone, Debug)]
pub struct GitlabProject {
    pub id: u64,
    pub platform_project_id: u64,
    pub name: String,
    pub url: String,
}

/// The GitLab adapter's own state: its credentials.
#[derive(Debug)]
pub struct Gitlab {
    pub token: String,
    pub user_id: String,
}

impl GitlabEvent {
    /// This event, normalized. GitLab events carry no project name or URL;
    /// both come from the supplemental detail fetch.
    pub fn normalize(&self) -> (r: RawEvent)
        ensures
            r.external_project_id == self.project_id,
            r.project_name@ == Seq::<char>::empty(),
            r.project_url@ == Seq::<char>::empty(),
            r.raw_action@ == self.action_name@,
            r.created_at@ == self.created_at@,
    {
        RawEvent {
            external_project_id: self.project_id,
            project_name: String::new(),
            project_url: String::new(),
            raw_action: self.action_name.clone(),
            created_at: self.created_at.clone(),
        }
    }
}

impl GitlabProjectAPI {
    /// This answer as a project detail: the namespaced name, the browsable
    /// URL, and whether GitLab denotes the project public.
    pub fn to_project_detail(&self) -> (r: ProjectDetail)
        ensures
            r.name@ == self.name_with_namespace@,
            r.url@ == self.web_url@,
            r.public == (match self.visibility {
                Some(v) => v@ == "public"@,
                None => false,
            }),
    {
        let public = match &self.visibility {
            Some(v) => str_equal(v.as_str(), "public"),
            None => false,
        };
        ProjectDetail {
            name: self.name_with_namespace.clone(),
            url: self.web_url.clone(),
            public,
        }
    }
}

// ---------------------------------------------------------------------------
// The page-step logic of a fetch.
// ---------------------------------------------------------------------------

/// The pagination state threaded through one fetch: the 1-based page about
/// to be requested and the events accumulated so far.
#[derive(Debug)]
pub struct GitlabFetchState {
    pub page: u32,
    pub events: Vec<GitlabEvent>,
}

/// The model of a fetch state.
pub struct GitlabFetchModel {
    pub page: int,
    pub events: Seq<GitlabEvent>,
}

impl View for GitlabFetchState {
    type V = GitlabFetchModel;

    open spec fn view(&self) -> GitlabFetchModel {
        GitlabFetchModel { page: self.page as int, events: self.events@ }
    }
}

/// One page's response, reduced to what the step logic reads: the status,
/// the two pagination headers, and the decoded events.
#[derive(Debug)]
pub struct GitlabPage {
    pub status: u16,
    pub x_total_pages: Option<String>,
    pub x_page: Option<String>,
    pub events: Vec<GitlabEvent>,
}

/// The model of one page response.
pub struct GitlabPageModel {
    pub status: u16,
    pub x_total_pages: Option<Seq<char>>,
    pub x_page: Option<Seq<char>>,
    pub events: Seq<GitlabEvent>,
}

impl View for GitlabPage {
    type V = GitlabPageModel;

    open spec fn view(&self) -> GitlabPageModel {
        GitlabPageModel {
            status: self.status,
            x_total_pages: match self.x_total_pages {
                Some(t) => Some(t@),
                None => None,
            },
            x_page: match self.x_page {
                Some(t) => Some(t@),
                None => None,
            },
            events: self.events@,
        }
    }
}

/// Why a fetch aborted: a non-success status, or missing or malformed
/// pagination headers.
#[derive(Clone, Copy, PartialEq, Eq, Structural, Debug)]
pub enum FetchError {
    Status(u16),
    BadPagination,
}

/// What one page step decides: the fetch is finished, continues with the
/// next page, or failed.
#[derive(Debug)]
pub enum GitlabStep {
    Done(Vec<GitlabEvent>),
    Next(GitlabFetchState),
    Failed(FetchError),
}

/// The model of a step decision.
pub enum GitlabStepModel {
    Done(Seq<GitlabEvent>),
    Next(GitlabFetchModel),
    Failed(FetchError),
}

impl View for GitlabStep {
    type V = GitlabStepModel;

    open spec fn view(&self) -> GitlabStepModel {
        match self {
            GitlabStep::Done(events) => GitlabStepModel::Done(events@),
            GitlabStep::Next(state) => GitlabStepModel::Next(state@),
            GitlabStep::Failed(e) => GitlabStepModel::Failed(*e),
        }
    }
}

/// One page step of a GitLab fetch: a non-success status fails it; both
/// pagination headers must parse as base-ten numbers and `x-page` must be
/// the page that was requested; then the page's events are appended and
/// the fetch finishes when the requested page reaches the reported total.
pub open spec fn spec_gitlab_step(s: GitlabFetchModel, p: GitlabPageModel) -> GitlabStepModel {
    if !spec_success(p.status) {
        GitlabStepModel::Failed(FetchError::Status(p.status))
    } else {
        match p.x_total_pages {
            None => GitlabStepModel::Failed(FetchError::BadPagination),
            Some(tp) => match spec_parse_u32(encode_utf8(tp)) {
                None => GitlabStepModel::Failed(FetchError::BadPagination),
                Some(total) => match p.x_page {
                    None => GitlabStepModel::Failed(FetchError::BadPagination),
                    Some(xp) => match spec_parse_u32(encode_utf8(xp)) {
                        None => GitlabStepModel::Failed(FetchError::BadPagination),
                        Some(cur) => if cur != s.page {
                            GitlabStepModel::Failed(FetchError::BadPagination)
                        } else {
                            let events2 = s.events + p.events;
                            if s.page >= total {
                                GitlabStepModel::Done(events2)
                            } else {
                                GitlabStepModel::Next(
                                    GitlabFetchModel { page: s.page + 1, events: events2 },
                                )
                            }
                        },
                    },
                },
            },
        }
    }
}

/// The state a GitLab fetch starts from: page one, nothing accumulated.
pub fn gitlab_fetch_start() -> (r: GitlabFetchState)
    ensures
        r@.page == 1,
        r@.events == Seq::<GitlabEvent>::empty(),
{
    let r = GitlabFetchState { page: 1, events: Vec::new() };
    proof {
        assert(r@.events =~= Seq::<GitlabEvent>::empty());
    }
    r
}

/// Applies one page's response to the fetch state.
pub fn gitlab_page_step(state: GitlabFetchState, page: GitlabPage) -> (r: GitlabStep)
    requires
        state@.page < u32::MAX,
    ensures
        r@ == spec_gitlab_step(state@, page@),
{
    if !(200 <= page.status && page.status < 300) {
        return GitlabStep::Failed(FetchError::Status(page.status));
    }
    let total: u32 = match &page.x_total_pages {
        None => {
            return GitlabStep::Failed(FetchError::BadPagination);
        },
        Some(tp) => match parse_u32(tp.as_str()) {
            None => {
                return GitlabStep::Failed(FetchError::BadPagination);
            },
            Some(v) => v,
        },
    };
    let cur: u32 = match &page.x_page {
        None => {
            return GitlabStep::Failed(FetchError::BadPagination);
        },
        Some(xp) => match parse_u32(xp.as_str()) {
            None => {
                return GitlabStep::Failed(FetchError::BadPagination);
            },
            Some(v) => v,
        },
    };
    if cur != state.page {
        return GitlabStep::Failed(FetchError::BadPagination);
    }
    let mut events = state.events;
    let mut page_events = page.events;
    events.append(&mut page_events);
    if state.page >= total {
        GitlabStep::Done(events)
    } else {
        GitlabStep::Next(GitlabFetchState { page: state.page + 1, events })
    }
}


// ---------------------------------------------------------------------------
// Laws of a whole fetch.
// ---------------------------------------------------------------------------

/// A whole fetch, run over the pages upstream would answer with, in order:
/// the events it returns, or nothing when it fails or runs out of pages.
pub open spec fn spec_gitlab_run(
    s: GitlabFetchModel,
    pages: Seq<GitlabPageModel>,
) -> Option<Seq<GitlabEvent>>
    decreases pages.len(),
{
    if pages.len() == 0 {
        None
    } else {
        match spec_gitlab_step(s, pages[0]) {
            GitlabStepModel::Done(events) => Some(events),
            GitlabStepModel::Failed(_) => None,
            GitlabStepModel::Next(state) => spec_gitlab_run(state, pages.skip(1)),
        }
    }
}

/// The events all pages carry, counted.
pub open spec fn gitlab_pages_total(pages: Seq<GitlabPageModel>) -> nat
    decreases pages.len(),
{
    if pages.len() == 0 {
        0
    } else {
        pages[0].events.len() + gitlab_pages_total(pages.skip(1))
    }
}

/// Law (pagination completeness): when every page succeeds and the
/// pagination headers are consistent — each page reports the same total and
/// its own number, and the pages run from the starting page up to that
/// total — a fetch returns exactly the events of all pages on top of what
/// it had accumulated.
pub proof fn lemma_gitlab_pagination_completeness(
    s: GitlabFetchModel,
    pages: Seq<GitlabPageModel>,
    total: u32,
)
    requires
        pages.len() >= 1,
        1 <= s.page,
        s.page + pages.len() - 1 == total,
        forall|i: int| 0 <= i < pages.len() ==> spec_success((#[trigger] pages[i]).status),
        forall|i: int|
            0 <= i < pages.len() ==> ((#[trigger] pages[i]).x_total_pages matches Some(tp)
                && spec_parse_u32(encode_utf8(tp)) == Some(total)),
        forall|i: int|
            0 <= i < pages.len() ==> ((#[trigger] pages[i]).x_page matches Some(xp)
                && spec_parse_u32(encode_utf8(xp)) matches Some(v) && v == s.page + i),
    ensures
        spec_gitlab_run(s, pages) matches Some(evts) && evts.len() == s.events.len()
            + gitlab_pages_total(pages),
    decreases pages.len(),
{
    let step = spec_gitlab_step(s, pages[0]);
    assert(gitlab_pages_total(pages) == pages[0].events.len() + gitlab_pages_total(
        pages.skip(1),
    ));
    if pages.len() == 1 {
        assert(s.page >= total);
        assert(pages.skip(1).len() == 0);
        assert(gitlab_pages_total(pages.skip(1)) == 0);
    } else {
        assert(s.page < total);
        match step {
            GitlabStepModel::Next(state) => {
                assert forall|i: int| 0 <= i < pages.skip(1).len() implies spec_success(
                    (#[trigger] pages.skip(1)[i]).status,
                ) by {
                    assert(pages.skip(1)[i] == pages[i + 1]);
                }
                assert forall|i: int| 0 <= i < pages.skip(1).len() implies ((
                #[trigger] pages.skip(1)[i]).x_total_pages matches Some(tp) && spec_parse_u32(
                    encode_utf8(tp),
                ) == Some(total)) by {
                    assert(pages.skip(1)[i] == pages[i + 1]);
                }
                assert forall|i: int| 0 <= i < pages.skip(1).len() implies ((
                #[trigger] pages.skip(1)[i]).x_page matches Some(xp) && spec_parse_u32(
                    encode_utf8(xp),
                ) matches Some(v) && v == state.page + i) by {
                    assert(pages.skip(1)[i] == pages[i + 1]);
                }
                lemma_gitlab_pagination_completeness(state, pages.skip(1), total);
                assert(state.events.len() == s.events.len() + pages[0].events.len());
            },
            _ => {
                assert(false);
            },
        }
    }
}

} // verus!
