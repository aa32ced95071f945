//! The persistence engine: reconciling a batch of normalized events against
//! the store.
//!
//! One reconciliation handles one platform's freshly fetched batch. Per
//! event, in order: parse the timestamp (skip the event on failure), resolve
//! or create its project (a project the platform denotes non-public, or one
//! whose detail fetch failed, skips the event), map the raw action onto the
//! canonical vocabulary (skip when unmapped), resolve or create the action
//! row, and finally insert the event unless a stored event already matches
//! the dedup key (timestamp, project, action). At the end the platform's
//! watermark advances to `now`.
//!
//! Project details come from supplemental fetches that the caller performs
//! between planning and reconciling: `plan_detail_fetches` names each
//! project that will need one, exactly once.

use vstd::prelude::*;

use crate::git_platform::{spec_map_action, map_action_name, DetailResult, Platform, ProjectDetail, RawEvent};
use crate::store::{
    action_count, action_first_id, lemma_action_first_some, lemma_project_first_some,
    project_count, project_first_id, spec_advance_watermark, spec_ensure_platform,
    spec_has_matching_event, spec_insert_action, spec_insert_event, spec_insert_git_event,
    spec_insert_project, KeyLookup, Store, StoreModel,
};
use crate::timestamp::{parse_event_timestamp, parsed_utc_seconds};

verus! {

/// What one reconciliation reports: how many events the batch held and how
/// many were newly inserted.
#[derive(Clone, Copy, PartialEq, Eq, Structural, Debug)]
pub struct ReconcileSummary {
    pub total_seen: usize,
    pub newly_inserted: usize,
}

// ---------------------------------------------------------------------------
// Detail-fetch results.
// ---------------------------------------------------------------------------

/// The first detail result for this project id, if any.
pub open spec fn spec_detail_entry(details: Seq<DetailResult>, pid: u64) -> Option<DetailResult>
    decreases details.len(),
{
    if details.len() == 0 {
        None
    } else {
        let prefix = spec_detail_entry(details.drop_last(), pid);
        if prefix is Some {
            prefix
        } else if details.last().project_id == pid {
            Some(details.last())
        } else {
            None
        }
    }
}

/// The detail this project id resolved to: nothing when no fetch was made
/// for it, or when the fetch failed.
pub open spec fn spec_detail_for(details: Seq<DetailResult>, pid: u64) -> Option<ProjectDetail> {
    match spec_detail_entry(details, pid) {
        Some(entry) => entry.detail,
        None => None,
    }
}

proof fn lemma_detail_entry_first(s: Seq<DetailResult>, pid: u64, i: int)
    requires
        0 <= i < s.len(),
        spec_detail_entry(s.take(i), pid) is None,
        s[i].project_id == pid,
    ensures
        spec_detail_entry(s, pid) == Some(s[i]),
    decreases s.len(),
{
    if s.len() - 1 == i {
        assert(s.drop_last() =~= s.take(i));
    } else {
        assert(s.drop_last().take(i) =~= s.take(i));
        lemma_detail_entry_first(s.drop_last(), pid, i);
    }
}

/// The first detail result recorded for this project id.
pub fn find_detail<'a>(details: &'a Vec<DetailResult>, pid: u64) -> (r: Option<&'a ProjectDetail>)
    ensures
        match r {
            Some(d) => spec_detail_for(details@, pid) == Some(*d),
            None => spec_detail_for(details@, pid) is None,
        },
{
    let n = details.len();
    let mut i: usize = 0;
    while i < n
        invariant
            n == details@.len(),
            i <= n,
            spec_detail_entry(details@.take(i as int), pid) is None,
        decreases n - i,
    {
        proof {
            assert(details@.take(i + 1).drop_last() =~= details@.take(i as int));
            assert(details@.take(i + 1).last() == details@[i as int]);
        }
        if details[i].project_id == pid {
            proof {
                lemma_detail_entry_first(details@, pid, i as int);
            }
            return details[i].detail.as_ref();
        }
        i = i + 1;
    }
    proof {
        assert(details@.take(n as int) =~= details@);
    }
    None
}

// ---------------------------------------------------------------------------
// The reconciliation's specification.
// ---------------------------------------------------------------------------

/// Resolving one event's project: an unambiguous stored row is used; an
/// ambiguous key skips the event; an absent key consults the detail fetched
/// for it and creates the row when the project is public. Yields the store
/// (possibly grown by one project row) and the project id the event uses,
/// or `None` when the event is skipped.
pub open spec fn spec_resolve_project(
    m: StoreModel,
    p: Platform,
    pid: u64,
    details: Seq<DetailResult>,
) -> (StoreModel, Option<u64>) {
    let c = project_count(m.projects, p, pid);
    if c == 1 {
        (m, project_first_id(m.projects, p, pid))
    } else if c >= 2 {
        (m, None)
    } else {
        match spec_detail_for(details, pid) {
            Some(d) => if d.public {
                (spec_insert_project(m, p, pid, d), Some(m.next_project_id))
            } else {
                (m, None)
            },
            None => (m, None),
        }
    }
}

/// Resolving one event's action row: unambiguous rows are used, an
/// ambiguous label skips the event, an absent label is inserted.
pub open spec fn spec_resolve_action(
    m: StoreModel,
    a: crate::git_platform::CanonicalAction,
) -> (StoreModel, Option<u64>) {
    let c = action_count(m.actions, a);
    if c == 1 {
        (m, action_first_id(m.actions, a))
    } else if c >= 2 {
        (m, None)
    } else {
        (spec_insert_action(m, a), Some(m.next_action_id))
    }
}

/// The whole per-event pipeline: the store after the event, and 1 when the
/// event was newly inserted, else 0.
pub open spec fn spec_event_step(
    m: StoreModel,
    p: Platform,
    e: RawEvent,
    details: Seq<DetailResult>,
) -> (StoreModel, nat) {
    match parsed_utc_seconds(e.created_at@) {
        None => (m, 0),
        Some(ts) => {
            let rp = spec_resolve_project(m, p, e.external_project_id, details);
            match rp.1 {
                None => (rp.0, 0),
                Some(project_id) => match spec_map_action(p, e.raw_action@) {
                    None => (rp.0, 0),
                    Some(a) => {
                        let ra = spec_resolve_action(rp.0, a);
                        match ra.1 {
                            None => (ra.0, 0),
                            Some(action_id) => {
                                if spec_has_matching_event(
                                    ra.0.events,
                                    ra.0.git_events,
                                    ts,
                                    action_id,
                                    project_id,
                                ) {
                                    (ra.0, 0)
                                } else {
                                    let event_id = ra.0.next_event_id;
                                    (
                                        spec_insert_git_event(
                                            spec_insert_event(ra.0, ts),
                                            event_id,
                                            action_id,
                                            project_id,
                                        ),
                                        1,
                                    )
                                }
                            },
                        }
                    },
                },
            }
        },
    }
}

/// The batch folded left to right through the per-event pipeline.
pub open spec fn spec_reconcile_events(
    m: StoreModel,
    p: Platform,
    events: Seq<RawEvent>,
    details: Seq<DetailResult>,
) -> (StoreModel, nat)
    decreases events.len(),
{
    if events.len() == 0 {
        (m, 0)
    } else {
        let prev = spec_reconcile_events(m, p, events.drop_last(), details);
        let step = spec_event_step(prev.0, p, events.last(), details);
        (step.0, prev.1 + step.1)
    }
}

/// One whole reconciliation: the platform row is created if missing, the
/// batch is folded through the per-event pipeline, and the platform's
/// watermark advances to `now`.
pub open spec fn spec_reconcile(
    m: StoreModel,
    p: Platform,
    events: Seq<RawEvent>,
    details: Seq<DetailResult>,
    now: i64,
) -> (StoreModel, nat) {
    let m0 = spec_ensure_platform(m, p, now);
    let folded = spec_reconcile_events(m0, p, events, details);
    (spec_advance_watermark(folded.0, p, now), folded.1)
}

// ---------------------------------------------------------------------------
// Planning the supplemental detail fetches.
// ---------------------------------------------------------------------------

/// The project ids the batch will need a detail fetch for: each id of an
/// event whose timestamp parses and whose project the store does not know,
/// once each, in first-appearance order.
pub open spec fn spec_plan(m: StoreModel, p: Platform, events: Seq<RawEvent>) -> Seq<u64>
    decreases events.len(),
{
    if events.len() == 0 {
        Seq::empty()
    } else {
        let prefix = spec_plan(m, p, events.drop_last());
        let e = events.last();
        if parsed_utc_seconds(e.created_at@) is Some && project_count(
            m.projects,
            p,
            e.external_project_id,
        ) == 0 && !prefix.contains(e.external_project_id) {
            prefix.push(e.external_project_id)
        } else {
            prefix
        }
    }
}

fn contains_u64(v: &Vec<u64>, x: u64) -> (r: bool)
    ensures
        r == v@.contains(x),
{
    let n = v.len();
    let mut i: usize = 0;
    while i < n
        invariant
            n == v@.len(),
            i <= n,
            forall|j: int| 0 <= j < i ==> v@[j] != x,
        decreases n - i,
    {
        if v[i] == x {
            return true;
        }
        i = i + 1;
    }
    false
}

/// Names each project the coming reconciliation will need a supplemental
/// detail fetch for, exactly once per project.
pub fn plan_detail_fetches(store: &Store, platform: Platform, events: &Vec<RawEvent>) -> (r: Vec<
    u64,
>)
    ensures
        r@ == spec_plan(store@, platform, events@),
{
    let n = events.len();
    let mut ids: Vec<u64> = Vec::new();
    let mut i: usize = 0;
    while i < n
        invariant
            n == events@.len(),
            i <= n,
            ids@ == spec_plan(store@, platform, events@.take(i as int)),
        decreases n - i,
    {
        proof {
            assert(events@.take(i + 1).drop_last() =~= events@.take(i as int));
            assert(events@.take(i + 1).last() == events@[i as int]);
        }
        let parses = parse_event_timestamp(events[i].created_at.as_str()).is_some();
        if parses {
            let lookup = store.lookup_project(platform, events[i].external_project_id);
            let absent = matches!(lookup, KeyLookup::Absent);
            proof {
                lemma_project_first_some(
                    store@.projects,
                    platform,
                    events@[i as int].external_project_id,
                );
            }
            if absent && !contains_u64(&ids, events[i].external_project_id) {
                ids.push(events[i].external_project_id);
            }
        }
        i = i + 1;
    }
    proof {
        assert(events@.take(n as int) =~= events@);
    }
    ids
}

// ---------------------------------------------------------------------------
// The reconciliation itself.
// ---------------------------------------------------------------------------

impl Store {
    /// Reconciles one platform's batch of normalized events against the
    /// store, inside what the caller treats as one transaction: resolving
    /// or creating projects and actions, discarding per-event data issues
    /// and duplicates, inserting what is new, and advancing the platform's
    /// watermark to `now`.
    pub fn reconcile(
        &mut self,
        platform: Platform,
        events: &Vec<RawEvent>,
        details: &Vec<DetailResult>,
        now: i64,
    ) -> (r: ReconcileSummary)
        requires
            old(self)@.next_project_id + events@.len() <= u64::MAX,
            old(self)@.next_action_id + events@.len() <= u64::MAX,
            old(self)@.next_event_id + events@.len() <= u64::MAX,
        ensures
            final(self)@ == spec_reconcile(old(self)@, platform, events@, details@, now).0,
            r.newly_inserted == spec_reconcile(old(self)@, platform, events@, details@, now).1,
            r.total_seen == events@.len(),
    {
        let ghost m_initial = self@;
        self.ensure_platform(platform, now);
        let ghost m0 = self@;
        let n = events.len();
        let mut i: usize = 0;
        let mut inserted: usize = 0;
        while i < n
            invariant
                n == events@.len(),
                i <= n,
                self@ == spec_reconcile_events(m0, platform, events@.take(i as int), details@).0,
                inserted == spec_reconcile_events(m0, platform, events@.take(i as int), details@).1,
                inserted <= i,
                self@.next_project_id <= m0.next_project_id + i,
                self@.next_action_id <= m0.next_action_id + i,
                self@.next_event_id <= m0.next_event_id + i,
                m0.next_project_id == old(self)@.next_project_id,
                m0.next_action_id == old(self)@.next_action_id,
                m0.next_event_id == old(self)@.next_event_id,
                m0 == spec_ensure_platform(old(self)@, platform, now),
                m0.next_project_id + n <= u64::MAX,
                m0.next_action_id + n <= u64::MAX,
                m0.next_event_id + n <= u64::MAX,
            decreases n - i,
        {
            proof {
                assert(events@.take(i + 1).drop_last() =~= events@.take(i as int));
                assert(events@.take(i + 1).last() == events@[i as int]);
            }
            let ghost m_before = self@;
            let ghost e_spec = events@[i as int];
            match parse_event_timestamp(events[i].created_at.as_str()) {
                None => {},
                Some(ts) => {
                    let pid = events[i].external_project_id;
                    let project_id_opt: Option<u64> = match self.lookup_project(platform, pid) {
                        KeyLookup::Found(id) => {
                            proof {
                                lemma_project_first_some(m_before.projects, platform, pid);
                            }
                            Some(id)
                        },
                        KeyLookup::Ambiguous => None,
                        KeyLookup::Absent => match find_detail(details, pid) {
                            Some(d) => {
                                if d.public {
                                    proof {
                                        assert(self@.next_project_id <= m0.next_project_id + i);
                                        assert(m0.next_project_id + i < u64::MAX);
                                    }
                                    Some(self.insert_project(platform, pid, d))
                                } else {
                                    None
                                }
                            },
                            None => None,
                        },
                    };
                    proof {
                        assert((self@, project_id_opt) == spec_resolve_project(
                            m_before,
                            platform,
                            pid,
                            details@,
                        ));
                    }
                    match project_id_opt {
                        None => {},
                        Some(project_id) => {
                            match map_action_name(platform, events[i].raw_action.as_str()) {
                                None => {},
                                Some(a) => {
                                    let ghost m1 = self@;
                                    let action_id_opt: Option<u64> = match self.lookup_action(a) {
                                        KeyLookup::Found(id) => {
                                            proof {
                                                lemma_action_first_some(m1.actions, a);
                                            }
                                            Some(id)
                                        },
                                        KeyLookup::Ambiguous => None,
                                        KeyLookup::Absent => {
                                            proof {
                                                assert(self@.next_action_id <= m0.next_action_id
                                                    + i);
                                                assert(m0.next_action_id + i < u64::MAX);
                                            }
                                            Some(self.insert_action(a))
                                        },
                                    };
                                    proof {
                                        assert((self@, action_id_opt) == spec_resolve_action(
                                            m1,
                                            a,
                                        ));
                                    }
                                    match action_id_opt {
                                        None => {},
                                        Some(action_id) => {
                                            if !self.has_matching_event(
                                                ts,
                                                action_id,
                                                project_id,
                                            ) {
                                                let event_id = self.insert_event(ts);
                                                self.insert_git_event(
                                                    event_id,
                                                    action_id,
                                                    project_id,
                                                );
                                                inserted = inserted + 1;
                                            }
                                        },
                                    }
                                },
                            }
                        },
                    }
                },
            }
            proof {
                assert(spec_reconcile_events(m0, platform, events@.take(i + 1), details@).0
                    == spec_event_step(m_before, platform, e_spec, details@).0);
                assert(self@ == spec_event_step(m_before, platform, e_spec, details@).0);
            }
            i = i + 1;
        }
        proof {
            assert(events@.take(n as int) =~= events@);
        }
        self.advance_watermark(platform, now);
        ReconcileSummary { total_seen: n, newly_inserted: inserted }
    }
}

} // verus!
