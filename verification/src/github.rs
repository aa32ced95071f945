//! The GitHub adapter: its native event shape, the `Link` response header
//! parsing that drives pagination, and the page-step logic of a fetch.
//!
//! GitHub's events endpoint has no time-window parameter, so a fetch walks
//! the full available backlog, page by page, following the `Link` header's
//! `rel="next"` URL until none is present. A conditional re-fetch sends the
//! entity tag cached per page index from the prior call; when the server
//! answers "not modified" for a page that was requested with a tag, the
//! fetch stops and returns what it accumulated so far — a short-circuit,
//! not an error. Any other non-success status aborts the whole fetch.

use vstd::prelude::*;

use crate::bytes::{copy_range, find_byte, find_byte_in, trim_bytes, trim_range};
use crate::git_platform::{GitEventAPI, RawEvent};

verus! {

/// GitHub's native event shape, as its events endpoint returns it.
#[derive(Clone, Debug)]
pub struct GithubEvent {
    pub created_at: String,
    pub public: bool,
    pub type_of_action: String,
    pub repo: GithubProjectAPI,
}

impl GitEventAPI for GithubEvent {

}

/// The project reference embedded in a GitHub event: the repository's id,
/// name, and API URL.
#[derive(Clone, Debug)]
pub struct GithubProjectAPI {
    pub id: u64,
    pub name: String,
    pub url: String,
}

/// A GitHub project as a store row carries it.
#[derive(Clone, Debug)]
pub struct GithubProject {
    pub id: u64,
    pub platform_project_id: u64,
    pub name: String,
    pub url: String,
}

/// What the repository API answers a detail fetch with: the repository's
/// browsable URL.
#[derive(Clone, Debug)]
pub struct GithubRepoApiInfo {
    pub html_url: String,
}

/// The GitHub adapter's own state: credentials, and the entity tags cached
/// per page index by the last fetch.
#[derive(Debug)]
pub struct Github {
    pub token: String,
    pub username: String,
    pub e_tag: Vec<String>,
}

impl GithubEvent {
    /// This event, normalized: the repo reference flattened into the
    /// platform-agnostic record.
    pub fn normalize(&self) -> (r: RawEvent)
        ensures
            r.external_project_id == self.repo.id,
            r.project_name@ == self.repo.name@,
            r.project_url@ == self.repo.url@,
            r.raw_action@ == self.type_of_action@,
            r.created_at@ == self.created_at@,
    {
        RawEvent {
            external_project_id: self.repo.id,
            project_name: self.repo.name.clone(),
            project_url: self.repo.url.clone(),
            raw_action: self.type_of_action.clone(),
            created_at: self.created_at.clone(),
        }
    }
}

// ---------------------------------------------------------------------------
// The `Link` response header.
// ---------------------------------------------------------------------------

/// The bytes of `rel="next"`.
pub open spec fn rel_next_pattern() -> Seq<u8> {
    seq![114u8, 101u8, 108u8, 61u8, 34u8, 110u8, 101u8, 120u8, 116u8, 34u8]
}

/// The `rel="next"` URL one comma-separated `Link` segment carries, if any:
/// the segment must hold exactly two `;`-separated parts, the second
/// trimming to `rel="next"` and the first trimming to a `<`…`>`-wrapped
/// URL, which is the result.
pub open spec fn spec_segment_next(seg: Seq<u8>) -> Option<Seq<u8>> {
    match find_byte(seg, 59) {
        None => None,
        Some(i) => {
            if find_byte(seg.skip(i + 1), 59) is Some {
                None
            } else {
                let url_part = trim_bytes(seg.take(i));
                let rel_part = trim_bytes(seg.skip(i + 1));
                if rel_part == rel_next_pattern() && url_part.len() >= 2 && url_part[0] == 60
                    && url_part.last() == 62 {
                    Some(url_part.subrange(1, url_part.len() - 1))
                } else {
                    None
                }
            }
        },
    }
}

/// The `rel="next"` URL of a whole `Link` header: the first comma-separated
/// segment that carries one.
pub open spec fn spec_next_link(h: Seq<u8>) -> Option<Seq<u8>>
    decreases h.len(),
{
    match find_byte(h, 44) {
        None => spec_segment_next(h),
        Some(i) => if 0 <= i < h.len() {
            match spec_segment_next(h.take(i)) {
                Some(u) => Some(u),
                None => spec_next_link(h.skip(i + 1)),
            }
        } else {
            // find_byte never yields an out-of-range index
            spec_segment_next(h)
        },
    }
}

/// The expected byte of `rel="next"` at each index.
fn rel_next_byte(k: usize) -> (r: u8)
    requires
        k < 10,
    ensures
        r == rel_next_pattern()[k as int],
{
    let bytes: [u8; 10] = [114u8, 101u8, 108u8, 61u8, 34u8, 110u8, 101u8, 120u8, 116u8, 34u8];
    bytes[k]
}

/// Whether `h[start..end]` is exactly `rel="next"`.
fn is_rel_next(h: &[u8], start: usize, end: usize) -> (r: bool)
    requires
        start <= end <= h@.len(),
    ensures
        r == (h@.subrange(start as int, end as int) == rel_next_pattern()),
{
    if end - start != 10 {
        proof {
            assert(h@.subrange(start as int, end as int).len() != rel_next_pattern().len());
        }
        return false;
    }
    let mut k: usize = 0;
    while k < 10
        invariant
            start + 10 == end,
            end <= h@.len(),
            k <= 10,
            forall|j: int|
                0 <= j < k ==> h@.subrange(start as int, end as int)[j] == rel_next_pattern()[j],
        decreases 10 - k,
    {
        if h[start + k] != rel_next_byte(k) {
            proof {
                let ki = k as int;
                assert(h@.subrange(start as int, end as int)[ki] != rel_next_pattern()[ki]);
            }
            return false;
        }
        k = k + 1;
    }
    proof {
        assert(h@.subrange(start as int, end as int) =~= rel_next_pattern());
    }
    true
}

/// The `rel="next"` URL of one segment `h[start..end]`, as bounds into `h`.
fn segment_next_range(h: &[u8], start: usize, end: usize) -> (r: Option<(usize, usize)>)
    requires
        start <= end <= h@.len(),
    ensures
        match r {
            Some(b) => b.0 <= b.1 <= h@.len() && spec_segment_next(
                h@.subrange(start as int, end as int),
            ) == Some(h@.subrange(b.0 as int, b.1 as int)),
            None => spec_segment_next(h@.subrange(start as int, end as int)) is None,
        },
{
    let ghost seg = h@.subrange(start as int, end as int);
    match find_byte_in(h, start, end, 59) {
        None => None,
        Some(si) => {
            proof {
                assert(seg.skip(si - start + 1) =~= h@.subrange(si + 1, end as int));
                assert(seg.take(si - start) =~= h@.subrange(start as int, si as int));
            }
            match find_byte_in(h, si + 1, end, 59) {
                Some(_) => None,
                None => {
                    let (ulo, uhi) = trim_range(h, start, si);
                    let (rlo, rhi) = trim_range(h, si + 1, end);
                    if is_rel_next(h, rlo, rhi) && uhi - ulo >= 2 && h[ulo] == 60 && h[uhi - 1]
                        == 62 {
                        proof {
                            let url_part = h@.subrange(ulo as int, uhi as int);
                            assert(url_part.subrange(1, url_part.len() - 1) =~= h@.subrange(
                                ulo + 1,
                                uhi - 1,
                            ));
                        }
                        Some((ulo + 1, uhi - 1))
                    } else {
                        None
                    }
                },
            }
        },
    }
}

/// Parses a `Link` response header for the `rel="next"` URL, as the bytes
/// between its angle brackets.
pub fn parse_header_for_next_page(header: &[u8]) -> (r: Option<Vec<u8>>)
    ensures
        match r {
            Some(v) => spec_next_link(header@) == Some(v@),
            None => spec_next_link(header@) is None,
        },
{
    let n = header.len();
    proof {
        assert(header@.subrange(0, n as int) =~= header@);
    }
    let mut start: usize = 0;
    loop
        invariant
            start <= n,
            n == header@.len(),
            spec_next_link(header@) == spec_next_link(header@.subrange(start as int, n as int)),
        decreases n - start,
    {
        let ghost rest = header@.subrange(start as int, n as int);
        match find_byte_in(header, start, n, 44) {
            None => {
                return match segment_next_range(header, start, n) {
                    Some((lo, hi)) => Some(copy_range(header, lo, hi)),
                    None => None,
                };
            },
            Some(ci) => {
                proof {
                    assert(rest.take(ci - start) =~= header@.subrange(start as int, ci as int));
                    assert(rest.skip(ci - start + 1) =~= header@.subrange(ci + 1, n as int));
                }
                match segment_next_range(header, start, ci) {
                    Some((lo, hi)) => {
                        return Some(copy_range(header, lo, hi));
                    },
                    None => {
                        start = ci + 1;
                    },
                }
            },
        }
    }
}

// ---------------------------------------------------------------------------
// The page-step logic of a fetch.
// ---------------------------------------------------------------------------

/// The pagination state threaded through one fetch: the 1-based index of
/// the page about to be requested, the entity-tag cache, and the events
/// accumulated so far.
#[derive(Debug)]
pub struct GithubFetchState {
    pub page: usize,
    pub e_tag: Vec<String>,
    pub events: Vec<GithubEvent>,
}

/// The model of a fetch state.
pub struct GithubFetchModel {
    pub page: int,
    pub e_tag: Seq<Seq<char>>,
    pub events: Seq<GithubEvent>,
}

impl View for GithubFetchState {
    type V = GithubFetchModel;

    open spec fn view(&self) -> GithubFetchModel {
        GithubFetchModel {
            page: self.page as int,
            e_tag: Seq::new(self.e_tag@.len(), |i: int| self.e_tag@[i]@),
            events: self.events@,
        }
    }
}

/// One page's response, reduced to what the step logic reads: the status,
/// the `etag` and `link` response headers, and the decoded events.
#[derive(Debug)]
pub struct GithubPage {
    pub status: u16,
    pub etag: Option<String>,
    pub link: Option<Vec<u8>>,
    pub events: Vec<GithubEvent>,
}

/// The model of one page response.
pub struct GithubPageModel {
    pub status: u16,
    pub etag: Option<Seq<char>>,
    pub link: Option<Seq<u8>>,
    pub events: Seq<GithubEvent>,
}

impl View for GithubPage {
    type V = GithubPageModel;

    open spec fn view(&self) -> GithubPageModel {
        GithubPageModel {
            status: self.status,
            etag: match self.etag {
                Some(t) => Some(t@),
                None => None,
            },
            link: match self.link {
                Some(l) => Some(l@),
                None => None,
            },
            events: self.events@,
        }
    }
}

/// What one page step decides: the fetch is finished (its events and the
/// updated tag cache), continues at the given URL, or failed.
#[derive(Debug)]
pub enum GithubStep {
    Done { events: Vec<GithubEvent>, e_tag: Vec<String> },
    Next { state: GithubFetchState, url: Vec<u8> },
    Failed { status: u16, e_tag: Vec<String> },
}

/// The model of a step decision.
pub enum GithubStepModel {
    Done { events: Seq<GithubEvent>, e_tag: Seq<Seq<char>> },
    Next { state: GithubFetchModel, url: Seq<u8> },
    Failed { status: u16, e_tag: Seq<Seq<char>> },
}

impl View for GithubStep {
    type V = GithubStepModel;

    open spec fn view(&self) -> GithubStepModel {
        match self {
            GithubStep::Done { events, e_tag } => GithubStepModel::Done {
                events: events@,
                e_tag: Seq::new(e_tag@.len(), |i: int| e_tag@[i]@),
            },
            GithubStep::Next { state, url } => GithubStepModel::Next {
                state: state@,
                url: url@,
            },
            GithubStep::Failed { status, e_tag } => GithubStepModel::Failed {
                status: *status,
                e_tag: Seq::new(e_tag@.len(), |i: int| e_tag@[i]@),
            },
        }
    }
}

/// An HTTP success status.
pub open spec fn spec_success(status: u16) -> bool {
    200 <= status < 300
}

/// The tag cache after recording `t` for the 1-based page index `page`:
/// the cache is padded with `t` up to that page if shorter, and the page's
/// slot is set to `t`.
pub open spec fn spec_update_etags(tags: Seq<Seq<char>>, page: int, t: Seq<char>) -> Seq<
    Seq<char>,
>
    recommends
        page >= 1,
{
    let padded = if tags.len() >= page {
        tags
    } else {
        tags + Seq::new((page - tags.len()) as nat, |i: int| t)
    };
    padded.update(page - 1, t)
}

/// One page step of a GitHub fetch. A 304 answer to a request that carried
/// a cached tag finishes the fetch with what was accumulated; any other
/// non-success status fails it; otherwise the page's events are appended,
/// its tag recorded, and the `Link` header decides whether a next page
/// follows.
pub open spec fn spec_github_step(s: GithubFetchModel, p: GithubPageModel) -> GithubStepModel {
    if p.status == 304 && s.e_tag.len() >= s.page {
        GithubStepModel::Done { events: s.events, e_tag: s.e_tag }
    } else if !spec_success(p.status) {
        GithubStepModel::Failed { status: p.status, e_tag: s.e_tag }
    } else {
        let events2 = s.events + p.events;
        let etag2 = match p.etag {
            Some(t) => spec_update_etags(s.e_tag, s.page, t),
            None => s.e_tag,
        };
        match p.link {
            None => GithubStepModel::Done { events: events2, e_tag: etag2 },
            Some(h) => match spec_next_link(h) {
                None => GithubStepModel::Done { events: events2, e_tag: etag2 },
                Some(u) => GithubStepModel::Next {
                    state: GithubFetchModel { page: s.page + 1, e_tag: etag2, events: events2 },
                    url: u,
                },
            },
        }
    }
}

/// The state a GitHub fetch starts from: page one, the tag cache of the
/// prior fetch, nothing accumulated.
pub fn github_fetch_start(e_tag: Vec<String>) -> (r: GithubFetchState)
    ensures
        r@.page == 1,
        r@.e_tag == Seq::new(e_tag@.len(), |i: int| e_tag@[i]@),
        r@.events == Seq::<GithubEvent>::empty(),
{
    let r = GithubFetchState { page: 1, e_tag, events: Vec::new() };
    proof {
        assert(r@.events =~= Seq::<GithubEvent>::empty());
    }
    r
}

/// The cached entity tag to send with the current page's request, if one
/// is cached for it.
pub fn etag_for_page(state: &GithubFetchState) -> (r: Option<&String>)
    requires
        state@.page >= 1,
    ensures
        match r {
            Some(t) => state@.e_tag.len() >= state@.page && t@ == state@.e_tag[state@.page - 1],
            None => state@.e_tag.len() < state@.page,
        },
{
    if state.e_tag.len() >= state.page {
        Some(&state.e_tag[state.page - 1])
    } else {
        None
    }
}

/// Applies one page's response to the fetch state.
pub fn github_page_step(state: GithubFetchState, page: GithubPage) -> (r: GithubStep)
    requires
        1 <= state@.page,
        state@.page < usize::MAX,
    ensures
        r@ == spec_github_step(state@, page@),
{
    let used_etag = state.e_tag.len() >= state.page;
    if page.status == 304 && used_etag {
        return GithubStep::Done { events: state.events, e_tag: state.e_tag };
    }
    if !(200 <= page.status && page.status < 300) {
        return GithubStep::Failed { status: page.status, e_tag: state.e_tag };
    }
    let mut events = state.events;
    let mut page_events = page.events;
    events.append(&mut page_events);
    let mut e_tag = state.e_tag;
    let ghost old_tags = Seq::new(e_tag@.len(), |i: int| e_tag@[i]@);
    match page.etag {
        Some(t) => {
            proof {
                assert(Seq::new(e_tag@.len(), |i: int| e_tag@[i]@) =~= old_tags + Seq::new(
                    0,
                    |i: int| t@,
                ));
            }
            while e_tag.len() < state.page
                invariant
                    state.page < usize::MAX,
                    old_tags.len() <= e_tag@.len(),
                    e_tag@.len() > old_tags.len() ==> e_tag@.len() <= state.page,
                    Seq::new(e_tag@.len(), |i: int| e_tag@[i]@) =~= old_tags + Seq::new(
                        (e_tag@.len() - old_tags.len()) as nat,
                        |i: int| t@,
                    ),
                decreases state.page - e_tag.len(),
            {
                let ghost pre = e_tag@;
                e_tag.push(t.clone());
                proof {
                    assert(e_tag@.drop_last() =~= pre);
                    assert(e_tag@.last() == t);
                    let lhs = Seq::new(e_tag@.len(), |j: int| e_tag@[j]@);
                    let rhs = old_tags + Seq::new(
                        (e_tag@.len() - old_tags.len()) as nat,
                        |j: int| t@,
                    );
                    let lhs_pre = Seq::new(pre.len(), |j: int| pre[j]@);
                    let rhs_pre = old_tags + Seq::new(
                        (pre.len() - old_tags.len()) as nat,
                        |j: int| t@,
                    );
                    assert forall|i: int| 0 <= i < lhs.len() implies lhs[i] == rhs[i] by {
                        if i < pre.len() {
                            assert(e_tag@[i] == e_tag@.drop_last()[i]);
                            assert(e_tag@[i] == pre[i]);
                            assert(lhs_pre[i] == rhs_pre[i]);
                        } else {
                            assert(e_tag@[i] == t);
                        }
                    }
                    assert(lhs =~= rhs);
                }
            }
            let ghost padded_view = Seq::new(e_tag@.len(), |i: int| e_tag@[i]@);
            let slot = state.page - 1;
            e_tag[slot] = t;
            proof {
                assert(Seq::new(e_tag@.len(), |i: int| e_tag@[i]@) =~= padded_view.update(
                    slot as int,
                    page@.etag.unwrap(),
                ));
                assert(Seq::new(e_tag@.len(), |i: int| e_tag@[i]@) =~= spec_update_etags(
                    old_tags,
                    state@.page,
                    page@.etag.unwrap(),
                ));
            }
        },
        None => {},
    }
    match page.link {
        None => GithubStep::Done { events, e_tag },
        Some(h) => match parse_header_for_next_page(h.as_slice()) {
            None => GithubStep::Done { events, e_tag },
            Some(url) => GithubStep::Next {
                state: GithubFetchState { page: state.page + 1, e_tag, events },
                url,
            },
        },
    }
}


// ---------------------------------------------------------------------------
// Laws of a whole fetch.
// ---------------------------------------------------------------------------

/// A whole fetch, run over the pages upstream would answer with, in order:
/// the events it returns, or nothing when it fails or runs out of pages.
pub open spec fn spec_github_run(
    s: GithubFetchModel,
    pages: Seq<GithubPageModel>,
) -> Option<Seq<GithubEvent>>
    decreases pages.len(),
{
    if pages.len() == 0 {
        None
    } else {
        match spec_github_step(s, pages[0]) {
            GithubStepModel::Done { events, .. } => Some(events),
            GithubStepModel::Failed { .. } => None,
            GithubStepModel::Next { state, .. } => spec_github_run(state, pages.skip(1)),
        }
    }
}

/// The events all pages carry, counted.
pub open spec fn github_pages_total(pages: Seq<GithubPageModel>) -> nat
    decreases pages.len(),
{
    if pages.len() == 0 {
        0
    } else {
        pages[0].events.len() + github_pages_total(pages.skip(1))
    }
}

/// Law (conditional fetch): a fetch whose first page was requested with a
/// cached entity tag and answered "not modified" returns no events — the
/// short-circuit of a re-fetch with no new upstream activity.
pub proof fn lemma_etag_short_circuit(s: GithubFetchModel, p: GithubPageModel)
    requires
        s.events.len() == 0,
        s.e_tag.len() >= s.page,
        p.status == 304,
    ensures
        spec_github_step(s, p) == (GithubStepModel::Done { events: s.events, e_tag: s.e_tag }),
        spec_github_step(s, p) matches GithubStepModel::Done { events, .. } && events.len() == 0,
{
}

/// Law (pagination completeness): when every page succeeds, each page but
/// the last links onward, and the last does not, a fetch returns exactly
/// the events of all pages on top of what it had accumulated.
pub proof fn lemma_github_pagination_completeness(
    s: GithubFetchModel,
    pages: Seq<GithubPageModel>,
)
    requires
        pages.len() >= 1,
        forall|i: int| 0 <= i < pages.len() ==> spec_success((#[trigger] pages[i]).status),
        forall|i: int|
            0 <= i < pages.len() - 1 ==> ((#[trigger] pages[i]).link matches Some(h)
                && spec_next_link(h) is Some),
        match pages.last().link {
            Some(h) => spec_next_link(h) is None,
            None => true,
        },
    ensures
        spec_github_run(s, pages) matches Some(evts) && evts.len() == s.events.len()
            + github_pages_total(pages),
    decreases pages.len(),
{
    let step = spec_github_step(s, pages[0]);
    assert(github_pages_total(pages) == pages[0].events.len() + github_pages_total(
        pages.skip(1),
    ));
    if pages.len() == 1 {
        assert(pages[0] == pages.last());
        assert(pages.skip(1).len() == 0);
        assert(github_pages_total(pages.skip(1)) == 0);
    } else {
        assert(pages[0].link matches Some(h) && spec_next_link(h) is Some);
        match step {
            GithubStepModel::Next { state, .. } => {
                assert forall|i: int| 0 <= i < pages.skip(1).len() implies spec_success(
                    (#[trigger] pages.skip(1)[i]).status,
                ) by {
                    assert(pages.skip(1)[i] == pages[i + 1]);
                }
                assert forall|i: int| 0 <= i < pages.skip(1).len() - 1 implies (
                #[trigger] pages.skip(1)[i]).link matches Some(h) && spec_next_link(h) is Some by {
                    assert(pages.skip(1)[i] == pages[i + 1]);
                }
                assert(pages.skip(1).last() == pages.last());
                lemma_github_pagination_completeness(state, pages.skip(1));
                assert(state.events.len() == s.events.len() + pages[0].events.len());
            },
            _ => {
                assert(false);
            },
        }
    }
}

} // verus!
