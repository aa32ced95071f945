//! The relational store that the persistence engine owns, modeled as plain
//! row tables.
//!
//! All rows are append-only; the per-platform sync watermark (`first_sync`)
//! is the only mutable scalar. Lookups are defensive: a key that several
//! rows share resolves to nothing definite, so the engine can skip the
//! offending event instead of compounding the anomaly.

use vstd::prelude::*;

use crate::git_platform::{CanonicalAction, GitProject, Platform, ProjectDetail};

verus! {

/// One platform row: the platform plus its sync watermark, the instant the
/// last successfully reconciled window ended.
#[derive(Clone, Copy, Debug)]
pub struct PlatformRow {
    pub platform: Platform,
    pub first_sync: i64,
}

/// One project row, keyed by (platform, platform_project_id).
#[derive(Clone, Debug)]
pub struct ProjectRow {
    pub platform: Platform,
    pub project: GitProject,
}

/// One action row: a store-assigned id for a canonical action label.
#[derive(Clone, Copy, Debug)]
pub struct ActionRow {
    pub id: u64,
    pub action: CanonicalAction,
}

/// One event row: a store-assigned id and the instant, in seconds since the
/// Unix epoch, that the event happened.
#[derive(Clone, Copy, Debug)]
pub struct EventRow {
    pub id: u64,
    pub timestamp: i64,
}

/// One platform-event row, joining an event row to its action and project.
#[derive(Clone, Copy, Debug)]
pub struct GitEventRow {
    pub id: u64,
    pub action_id: u64,
    pub project_id: u64,
}

/// The store: five row tables plus the id counters that stand in for the
/// database's auto-increment columns.
#[derive(Debug)]
pub struct Store {
    pub platforms: Vec<PlatformRow>,
    pub projects: Vec<ProjectRow>,
    pub actions: Vec<ActionRow>,
    pub events: Vec<EventRow>,
    pub git_events: Vec<GitEventRow>,
    pub next_project_id: u64,
    pub next_action_id: u64,
    pub next_event_id: u64,
}

/// The store's mathematical model: the same tables as sequences.
pub struct StoreModel {
    pub platforms: Seq<PlatformRow>,
    pub projects: Seq<ProjectRow>,
    pub actions: Seq<ActionRow>,
    pub events: Seq<EventRow>,
    pub git_events: Seq<GitEventRow>,
    pub next_project_id: u64,
    pub next_action_id: u64,
    pub next_event_id: u64,
}

impl View for Store {
    type V = StoreModel;

    open spec fn view(&self) -> StoreModel {
        StoreModel {
            platforms: self.platforms@,
            projects: self.projects@,
            actions: self.actions@,
            events: self.events@,
            git_events: self.git_events@,
            next_project_id: self.next_project_id,
            next_action_id: self.next_action_id,
            next_event_id: self.next_event_id,
        }
    }
}

/// How a lookup by key resolved: no row, exactly one row (its id), or an
/// ambiguous key that several rows share.
#[derive(Clone, Copy, PartialEq, Eq, Structural, Debug)]
pub enum KeyLookup {
    Absent,
    Found(u64),
    Ambiguous,
}

// ---------------------------------------------------------------------------
// Row-counting and first-match specifications.
// ---------------------------------------------------------------------------

/// How many platform rows carry this platform name.
pub open spec fn platform_count(rows: Seq<PlatformRow>, p: Platform) -> nat
    decreases rows.len(),
{
    if rows.len() == 0 {
        0
    } else {
        platform_count(rows.drop_last(), p) + if rows.last().platform == p {
            1nat
        } else {
            0nat
        }
    }
}

/// The watermark of the first row carrying this platform name, if any.
pub open spec fn first_sync_of(rows: Seq<PlatformRow>, p: Platform) -> Option<i64>
    decreases rows.len(),
{
    if rows.len() == 0 {
        None
    } else {
        let prefix = first_sync_of(rows.drop_last(), p);
        if prefix is Some {
            prefix
        } else if rows.last().platform == p {
            Some(rows.last().first_sync)
        } else {
            None
        }
    }
}

/// How many project rows carry this (platform, platform project id) key.
pub open spec fn project_count(rows: Seq<ProjectRow>, p: Platform, pid: u64) -> nat
    decreases rows.len(),
{
    if rows.len() == 0 {
        0
    } else {
        project_count(rows.drop_last(), p, pid) + if rows.last().platform == p
            && rows.last().project.platform_project_id == pid {
            1nat
        } else {
            0nat
        }
    }
}

/// The store id of the first project row with this key, if any.
pub open spec fn project_first_id(rows: Seq<ProjectRow>, p: Platform, pid: u64) -> Option<u64>
    decreases rows.len(),
{
    if rows.len() == 0 {
        None
    } else {
        let prefix = project_first_id(rows.drop_last(), p, pid);
        if prefix is Some {
            prefix
        } else if rows.last().platform == p && rows.last().project.platform_project_id == pid {
            Some(rows.last().project.id)
        } else {
            None
        }
    }
}

/// How many action rows carry this canonical action.
pub open spec fn action_count(rows: Seq<ActionRow>, a: CanonicalAction) -> nat
    decreases rows.len(),
{
    if rows.len() == 0 {
        0
    } else {
        action_count(rows.drop_last(), a) + if rows.last().action == a {
            1nat
        } else {
            0nat
        }
    }
}

/// The store id of the first action row with this canonical action, if any.
pub open spec fn action_first_id(rows: Seq<ActionRow>, a: CanonicalAction) -> Option<u64>
    decreases rows.len(),
{
    if rows.len() == 0 {
        None
    } else {
        let prefix = action_first_id(rows.drop_last(), a);
        if prefix is Some {
            prefix
        } else if rows.last().action == a {
            Some(rows.last().id)
        } else {
            None
        }
    }
}

/// A project key has a first matching row exactly when it has any.
pub proof fn lemma_project_first_some(rows: Seq<ProjectRow>, p: Platform, pid: u64)
    ensures
        (project_count(rows, p, pid) > 0) == (project_first_id(rows, p, pid) is Some),
    decreases rows.len(),
{
    if rows.len() > 0 {
        lemma_project_first_some(rows.drop_last(), p, pid);
    }
}

/// A canonical action has a first matching row exactly when it has any.
pub proof fn lemma_action_first_some(rows: Seq<ActionRow>, a: CanonicalAction)
    ensures
        (action_count(rows, a) > 0) == (action_first_id(rows, a) is Some),
    decreases rows.len(),
{
    if rows.len() > 0 {
        lemma_action_first_some(rows.drop_last(), a);
    }
}

/// A platform has a stored watermark exactly when it has a row.
pub proof fn lemma_first_sync_some(rows: Seq<PlatformRow>, p: Platform)
    ensures
        (platform_count(rows, p) > 0) == (first_sync_of(rows, p) is Some),
    decreases rows.len(),
{
    if rows.len() > 0 {
        lemma_first_sync_some(rows.drop_last(), p);
    }
}

/// How one more project row changes a key's count and first match.
pub proof fn lemma_project_push(rows: Seq<ProjectRow>, row: ProjectRow, p: Platform, pid: u64)
    ensures
        project_count(rows.push(row), p, pid) == project_count(rows, p, pid) + (
        if row.platform == p && row.project.platform_project_id == pid {
            1nat
        } else {
            0nat
        }),
        project_first_id(rows.push(row), p, pid) == (if project_first_id(rows, p, pid) is Some {
            project_first_id(rows, p, pid)
        } else if row.platform == p && row.project.platform_project_id == pid {
            Some(row.project.id)
        } else {
            None
        }),
{
    assert(rows.push(row).drop_last() =~= rows);
}

/// How one more action row changes a label's count and first match.
pub proof fn lemma_action_push(rows: Seq<ActionRow>, row: ActionRow, a: CanonicalAction)
    ensures
        action_count(rows.push(row), a) == action_count(rows, a) + (if row.action == a {
            1nat
        } else {
            0nat
        }),
        action_first_id(rows.push(row), a) == (if action_first_id(rows, a) is Some {
            action_first_id(rows, a)
        } else if row.action == a {
            Some(row.id)
        } else {
            None
        }),
{
    assert(rows.push(row).drop_last() =~= rows);
}

/// A witness pair makes the dedup key match.
pub proof fn lemma_has_matching_witness(
    events: Seq<EventRow>,
    git_events: Seq<GitEventRow>,
    ts: i64,
    action_id: u64,
    project_id: u64,
    i: int,
    j: int,
)
    requires
        0 <= i < git_events.len(),
        0 <= j < events.len(),
        git_events[i].action_id == action_id,
        git_events[i].project_id == project_id,
        events[j].id == git_events[i].id,
        events[j].timestamp == ts,
    ensures
        spec_has_matching_event(events, git_events, ts, action_id, project_id),
{
}

/// A dedup match survives rows being appended.
pub proof fn lemma_has_matching_monotone(
    events1: Seq<EventRow>,
    git_events1: Seq<GitEventRow>,
    events2: Seq<EventRow>,
    git_events2: Seq<GitEventRow>,
    ts: i64,
    action_id: u64,
    project_id: u64,
)
    requires
        spec_has_matching_event(events1, git_events1, ts, action_id, project_id),
        events1.is_prefix_of(events2),
        git_events1.is_prefix_of(git_events2),
    ensures
        spec_has_matching_event(events2, git_events2, ts, action_id, project_id),
{
    let (i, j): (int, int) = choose|i: int, j: int|
        0 <= i < git_events1.len() && 0 <= j < events1.len() && #[trigger] git_events1[i].action_id
            == action_id && git_events1[i].project_id == project_id && #[trigger] events1[j].id
            == git_events1[i].id && events1[j].timestamp == ts;
    assert(git_events2[i] == git_events1[i]);
    assert(events2[j] == events1[j]);
    lemma_has_matching_witness(events2, git_events2, ts, action_id, project_id, i, j);
}

/// How a lookup resolves given a match count and the first matching id.
pub open spec fn spec_key_lookup(count: nat, first: Option<u64>) -> KeyLookup {
    if count == 0 {
        KeyLookup::Absent
    } else if count == 1 {
        KeyLookup::Found(first.unwrap())
    } else {
        KeyLookup::Ambiguous
    }
}

/// Whether some platform-event row joined with some event row matches the
/// dedup key (timestamp, project, action).
pub open spec fn spec_has_matching_event(
    events: Seq<EventRow>,
    git_events: Seq<GitEventRow>,
    ts: i64,
    action_id: u64,
    project_id: u64,
) -> bool {
    exists|i: int, j: int|
        0 <= i < git_events.len() && 0 <= j < events.len() && #[trigger] git_events[i].action_id
            == action_id && git_events[i].project_id == project_id && #[trigger] events[j].id
            == git_events[i].id && events[j].timestamp == ts
}

// ---------------------------------------------------------------------------
// The store's operations.
// ---------------------------------------------------------------------------

impl Store {
    /// An empty store whose id counters start at one, as the database's
    /// auto-increment columns do.
    pub fn new() -> (r: Store)
        ensures
            r@.platforms == Seq::<PlatformRow>::empty(),
            r@.projects == Seq::<ProjectRow>::empty(),
            r@.actions == Seq::<ActionRow>::empty(),
            r@.events == Seq::<EventRow>::empty(),
            r@.git_events == Seq::<GitEventRow>::empty(),
            r@.next_project_id == 1,
            r@.next_action_id == 1,
            r@.next_event_id == 1,
    {
        Store {
            platforms: Vec::new(),
            projects: Vec::new(),
            actions: Vec::new(),
            events: Vec::new(),
            git_events: Vec::new(),
            next_project_id: 1,
            next_action_id: 1,
            next_event_id: 1,
        }
    }

    /// The platform's stored watermark: the first matching row's
    /// `first_sync`, or nothing when the platform was never written.
    pub fn watermark(&self, p: Platform) -> (r: Option<i64>)
        ensures
            r == first_sync_of(self@.platforms, p),
    {
        let n = self.platforms.len();
        let mut i: usize = 0;
        let mut found: Option<i64> = None;
        while i < n
            invariant
                n == self.platforms@.len(),
                i <= n,
                found == first_sync_of(self.platforms@.take(i as int), p),
            decreases n - i,
        {
            proof {
                assert(self.platforms@.take(i + 1).drop_last() =~= self.platforms@.take(i as int));
                assert(self.platforms@.take(i + 1).last() == self.platforms@[i as int]);
            }
            if found.is_none() && self.platforms[i].platform == p {
                found = Some(self.platforms[i].first_sync);
            }
            i = i + 1;
        }
        proof {
            assert(self.platforms@.take(n as int) =~= self.platforms@);
        }
        found
    }

    /// Inserts the platform row with `now` as its initial watermark, unless
    /// a row for the platform already exists.
    pub fn ensure_platform(&mut self, p: Platform, now: i64)
        ensures
            final(self)@ == spec_ensure_platform(old(self)@, p, now),
    {
        let n = self.platforms.len();
        let mut i: usize = 0;
        let mut count: usize = 0;
        while i < n
            invariant
                n == self.platforms@.len(),
                i <= n,
                count == platform_count(self.platforms@.take(i as int), p),
                count <= i,
            decreases n - i,
        {
            proof {
                assert(self.platforms@.take(i + 1).drop_last() =~= self.platforms@.take(i as int));
                assert(self.platforms@.take(i + 1).last() == self.platforms@[i as int]);
            }
            if self.platforms[i].platform == p {
                count = count + 1;
            }
            i = i + 1;
        }
        proof {
            assert(self.platforms@.take(n as int) =~= self.platforms@);
        }
        if count == 0 {
            self.platforms.push(PlatformRow { platform: p, first_sync: now });
        }
    }

    /// Sets the watermark of every row of the platform to `now`.
    pub fn advance_watermark(&mut self, p: Platform, now: i64)
        ensures
            final(self)@ == spec_advance_watermark(old(self)@, p, now),
    {
        let n = self.platforms.len();
        let mut i: usize = 0;
        while i < n
            invariant
                n == self.platforms@.len(),
                i <= n,
                self.platforms@.len() == old(self)@.platforms.len(),
                forall|j: int|
                    0 <= j < i ==> self.platforms@[j] == advanced_row(
                        old(self)@.platforms[j],
                        p,
                        now,
                    ),
                forall|j: int| i <= j < n ==> self.platforms@[j] == old(self)@.platforms[j],
                self.projects@ == old(self)@.projects,
                self.actions@ == old(self)@.actions,
                self.events@ == old(self)@.events,
                self.git_events@ == old(self)@.git_events,
                self.next_project_id == old(self)@.next_project_id,
                self.next_action_id == old(self)@.next_action_id,
                self.next_event_id == old(self)@.next_event_id,
            decreases n - i,
        {
            if self.platforms[i].platform == p {
                let rp = self.platforms[i].platform;
                self.platforms[i] = PlatformRow { platform: rp, first_sync: now };
            }
            i = i + 1;
        }
        proof {
            assert(self.platforms@ =~= old(self)@.platforms.map(
                |j: int, r: PlatformRow| advanced_row(r, p, now),
            ));
        }
    }

    /// Resolves a project by its (platform, platform project id) key.
    pub fn lookup_project(&self, p: Platform, pid: u64) -> (r: KeyLookup)
        ensures
            r == spec_key_lookup(
                project_count(self@.projects, p, pid),
                project_first_id(self@.projects, p, pid),
            ),
    {
        let n = self.projects.len();
        let mut i: usize = 0;
        let mut count: usize = 0;
        let mut first: Option<u64> = None;
        while i < n
            invariant
                n == self.projects@.len(),
                i <= n,
                count == project_count(self.projects@.take(i as int), p, pid),
                count <= i,
                first == project_first_id(self.projects@.take(i as int), p, pid),
            decreases n - i,
        {
            proof {
                assert(self.projects@.take(i + 1).drop_last() =~= self.projects@.take(i as int));
                assert(self.projects@.take(i + 1).last() == self.projects@[i as int]);
            }
            if self.projects[i].platform == p && self.projects[i].project.platform_project_id
                == pid {
                count = count + 1;
                if first.is_none() {
                    first = Some(self.projects[i].project.id);
                }
            }
            i = i + 1;
        }
        proof {
            assert(self.projects@.take(n as int) =~= self.projects@);
        }
        if count == 0 {
            KeyLookup::Absent
        } else if count == 1 {
            proof {
                lemma_project_first_some(self.projects@, p, pid);
            }
            KeyLookup::Found(first.unwrap())
        } else {
            KeyLookup::Ambiguous
        }
    }

    /// Inserts a project row for a newly seen project, with the name and URL
    /// that the detail fetch resolved, and returns the assigned id.
    pub fn insert_project(&mut self, p: Platform, pid: u64, detail: &ProjectDetail) -> (r: u64)
        requires
            old(self)@.next_project_id < u64::MAX,
        ensures
            r == old(self)@.next_project_id,
            final(self)@ == spec_insert_project(old(self)@, p, pid, *detail),
    {
        let id = self.next_project_id;
        self.projects.push(
            ProjectRow {
                platform: p,
                project: GitProject {
                    id,
                    platform_project_id: pid,
                    name: detail.name.clone(),
                    url: detail.url.clone(),
                },
            },
        );
        self.next_project_id = self.next_project_id + 1;
        id
    }

    /// Resolves an action by its canonical label.
    pub fn lookup_action(&self, a: CanonicalAction) -> (r: KeyLookup)
        ensures
            r == spec_key_lookup(
                action_count(self@.actions, a),
                action_first_id(self@.actions, a),
            ),
    {
        let n = self.actions.len();
        let mut i: usize = 0;
        let mut count: usize = 0;
        let mut first: Option<u64> = None;
        while i < n
            invariant
                n == self.actions@.len(),
                i <= n,
                count == action_count(self.actions@.take(i as int), a),
                count <= i,
                first == action_first_id(self.actions@.take(i as int), a),
            decreases n - i,
        {
            proof {
                assert(self.actions@.take(i + 1).drop_last() =~= self.actions@.take(i as int));
                assert(self.actions@.take(i + 1).last() == self.actions@[i as int]);
            }
            if self.actions[i].action == a {
                count = count + 1;
                if first.is_none() {
                    first = Some(self.actions[i].id);
                }
            }
            i = i + 1;
        }
        proof {
            assert(self.actions@.take(n as int) =~= self.actions@);
        }
        if count == 0 {
            KeyLookup::Absent
        } else if count == 1 {
            proof {
                lemma_action_first_some(self.actions@, a);
            }
            KeyLookup::Found(first.unwrap())
        } else {
            KeyLookup::Ambiguous
        }
    }

    /// Inserts an action row for a canonical label not yet stored and
    /// returns the assigned id.
    pub fn insert_action(&mut self, a: CanonicalAction) -> (r: u64)
        requires
            old(self)@.next_action_id < u64::MAX,
        ensures
            r == old(self)@.next_action_id,
            final(self)@ == spec_insert_action(old(self)@, a),
    {
        let id = self.next_action_id;
        self.actions.push(ActionRow { id, action: a });
        self.next_action_id = self.next_action_id + 1;
        id
    }

    /// Whether a stored platform event already matches the dedup key
    /// (timestamp, project, action).
    pub fn has_matching_event(&self, ts: i64, action_id: u64, project_id: u64) -> (r: bool)
        ensures
            r == spec_has_matching_event(self@.events, self@.git_events, ts, action_id, project_id),
    {
        let n = self.git_events.len();
        let mut i: usize = 0;
        while i < n
            invariant
                n == self.git_events@.len(),
                i <= n,
                forall|k: int, j: int|
                    0 <= k < i && 0 <= j < self.events@.len() ==> !(#[trigger] self.git_events@[k].action_id
                        == action_id && self.git_events@[k].project_id == project_id
                        && #[trigger] self.events@[j].id == self.git_events@[k].id
                        && self.events@[j].timestamp == ts),
            decreases n - i,
        {
            if self.git_events[i].action_id == action_id && self.git_events[i].project_id
                == project_id {
                let m = self.events.len();
                let mut j: usize = 0;
                while j < m
                    invariant
                        m == self.events@.len(),
                        j <= m,
                        i < self.git_events@.len(),
                        self.git_events@[i as int].action_id == action_id,
                        self.git_events@[i as int].project_id == project_id,
                        forall|jj: int|
                            0 <= jj < j ==> !(#[trigger] self.events@[jj].id
                                == self.git_events@[i as int].id && self.events@[jj].timestamp
                                == ts),
                    decreases m - j,
                {
                    if self.events[j].id == self.git_events[i].id && self.events[j].timestamp
                        == ts {
                        return true;
                    }
                    j = j + 1;
                }
            }
            i = i + 1;
        }
        false
    }

    /// Inserts an event row at the given instant and returns its id.
    pub fn insert_event(&mut self, ts: i64) -> (r: u64)
        requires
            old(self)@.next_event_id < u64::MAX,
        ensures
            r == old(self)@.next_event_id,
            final(self)@ == spec_insert_event(old(self)@, ts),
    {
        let id = self.next_event_id;
        self.events.push(EventRow { id, timestamp: ts });
        self.next_event_id = self.next_event_id + 1;
        id
    }

    /// Inserts the platform-event row joining an event to its action and
    /// project.
    pub fn insert_git_event(&mut self, event_id: u64, action_id: u64, project_id: u64)
        ensures
            final(self)@ == spec_insert_git_event(old(self)@, event_id, action_id, project_id),
    {
        self.git_events.push(GitEventRow { id: event_id, action_id, project_id });
    }
}

// ---------------------------------------------------------------------------
// The specifications of the store's mutations.
// ---------------------------------------------------------------------------

/// A platform row after a watermark advance for platform `p`.
pub open spec fn advanced_row(r: PlatformRow, p: Platform, now: i64) -> PlatformRow {
    if r.platform == p {
        PlatformRow { platform: r.platform, first_sync: now }
    } else {
        r
    }
}

pub open spec fn spec_ensure_platform(m: StoreModel, p: Platform, now: i64) -> StoreModel {
    if platform_count(m.platforms, p) == 0 {
        StoreModel {
            platforms: m.platforms.push(PlatformRow { platform: p, first_sync: now }),
            projects: m.projects,
            actions: m.actions,
            events: m.events,
            git_events: m.git_events,
            next_project_id: m.next_project_id,
            next_action_id: m.next_action_id,
            next_event_id: m.next_event_id,
        }
    } else {
        m
    }
}

pub open spec fn spec_advance_watermark(m: StoreModel, p: Platform, now: i64) -> StoreModel {
    StoreModel {
        platforms: m.platforms.map(|j: int, r: PlatformRow| advanced_row(r, p, now)),
        projects: m.projects,
        actions: m.actions,
        events: m.events,
        git_events: m.git_events,
        next_project_id: m.next_project_id,
        next_action_id: m.next_action_id,
        next_event_id: m.next_event_id,
    }
}

pub open spec fn spec_insert_project(
    m: StoreModel,
    p: Platform,
    pid: u64,
    detail: ProjectDetail,
) -> StoreModel {
    StoreModel {
        platforms: m.platforms,
        projects: m.projects.push(
            ProjectRow {
                platform: p,
                project: GitProject {
                    id: m.next_project_id,
                    platform_project_id: pid,
                    name: detail.name,
                    url: detail.url,
                },
            },
        ),
        actions: m.actions,
        events: m.events,
        git_events: m.git_events,
        next_project_id: (m.next_project_id + 1) as u64,
        next_action_id: m.next_action_id,
        next_event_id: m.next_event_id,
    }
}

pub open spec fn spec_insert_action(m: StoreModel, a: CanonicalAction) -> StoreModel {
    StoreModel {
        platforms: m.platforms,
        projects: m.projects,
        actions: m.actions.push(ActionRow { id: m.next_action_id, action: a }),
        events: m.events,
        git_events: m.git_events,
        next_project_id: m.next_project_id,
        next_action_id: (m.next_action_id + 1) as u64,
        next_event_id: m.next_event_id,
    }
}

pub open spec fn spec_insert_event(m: StoreModel, ts: i64) -> StoreModel {
    StoreModel {
        platforms: m.platforms,
        projects: m.projects,
        actions: m.actions,
        events: m.events.push(EventRow { id: m.next_event_id, timestamp: ts }),
        git_events: m.git_events,
        next_project_id: m.next_project_id,
        next_action_id: m.next_action_id,
        next_event_id: (m.next_event_id + 1) as u64,
    }
}

pub open spec fn spec_insert_git_event(
    m: StoreModel,
    event_id: u64,
    action_id: u64,
    project_id: u64,
) -> StoreModel {
    StoreModel {
        platforms: m.platforms,
        projects: m.projects,
        actions: m.actions,
        events: m.events,
        git_events: m.git_events.push(GitEventRow { id: event_id, action_id, project_id }),
        next_project_id: m.next_project_id,
        next_action_id: m.next_action_id,
        next_event_id: m.next_event_id,
    }
}

} // verus!
