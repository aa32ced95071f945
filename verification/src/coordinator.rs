//! The sync coordinator: one platform's fetch-and-reconcile cycle.
//!
//! A cycle computes its window from the stored watermark (defaulting to a
//! 90-day lookback on the first run), fetches, and reconciles. On a fetch
//! failure the cycle aborts with the store — and so the watermark —
//! untouched, so the next cycle retries the same window; on success the
//! watermark advances to the cycle's completion instant, which becomes the
//! next window's lower bound.

use vstd::prelude::*;

use crate::git_platform::{DetailResult, Platform, RawEvent};
use crate::reconcile::{spec_reconcile, ReconcileSummary};
use crate::store::{
    advanced_row, first_sync_of, lemma_first_sync_some, platform_count, spec_advance_watermark,
    spec_ensure_platform, PlatformRow, Store, StoreModel,
};

verus! {

/// How far a first sync looks back: 90 days, in seconds.
pub const LOOKBACK_SECONDS: i64 = 90 * 86400;

/// One fetch window: whole seconds since the Unix epoch, inclusive start,
/// exclusive-by-convention end at the cycle's start instant.
#[derive(Clone, Copy, PartialEq, Eq, Structural, Debug)]
pub struct Window {
    pub start: i64,
    pub end: i64,
}

/// The window a cycle fetches: from the stored watermark — or, before any
/// successful sync, 90 days back — up to now.
pub open spec fn spec_window(watermark: Option<i64>, now: i64) -> Window {
    Window {
        start: match watermark {
            Some(t) => t,
            None => (now - LOOKBACK_SECONDS) as i64,
        },
        end: now,
    }
}

/// Computes a cycle's fetch window from the stored watermark.
pub fn compute_window(watermark: Option<i64>, now: i64) -> (w: Window)
    requires
        i64::MIN + LOOKBACK_SECONDS <= now,
    ensures
        w == spec_window(watermark, now),
{
    match watermark {
        Some(t) => Window { start: t, end: now },
        None => Window { start: now - LOOKBACK_SECONDS, end: now },
    }
}

/// Where one platform's coordinator stands in its cycle.
#[derive(Clone, Copy, PartialEq, Eq, Structural, Debug)]
pub enum SyncState {
    Idle,
    Fetching(Window),
    Reconciling(Window),
}

/// Enters a cycle: the coordinator moves from idle to fetching the window
/// the watermark gives.
pub fn begin_cycle(watermark: Option<i64>, now: i64) -> (s: SyncState)
    requires
        i64::MIN + LOOKBACK_SECONDS <= now,
    ensures
        s == SyncState::Fetching(spec_window(watermark, now)),
{
    SyncState::Fetching(compute_window(watermark, now))
}

/// Applies a fetch's outcome: success moves on to reconciling the same
/// window; failure returns straight to idle, without reconciling.
pub fn on_fetch_outcome(s: SyncState, ok: bool) -> (r: SyncState)
    ensures
        r == (match s {
            SyncState::Fetching(w) => if ok {
                SyncState::Reconciling(w)
            } else {
                SyncState::Idle
            },
            _ => s,
        }),
{
    match s {
        SyncState::Fetching(w) => {
            if ok {
                SyncState::Reconciling(w)
            } else {
                SyncState::Idle
            }
        },
        _ => s,
    }
}

/// Leaves a cycle: whatever was underway, the coordinator is idle again.
pub fn finish_cycle(_s: SyncState) -> (r: SyncState)
    ensures
        r == SyncState::Idle,
{
    SyncState::Idle
}

/// What the fetch phase of a cycle produced: a batch of normalized events,
/// or a fetch failure that aborts the cycle.
#[derive(Debug)]
pub enum FetchOutcome {
    Fetched(Vec<RawEvent>),
    FetchFailed,
}

// ---------------------------------------------------------------------------
// Watermark semantics.
// ---------------------------------------------------------------------------

/// The per-event pipeline never touches the platform table.
proof fn lemma_event_step_platforms(
    m: StoreModel,
    p: Platform,
    e: RawEvent,
    details: Seq<DetailResult>,
)
    ensures
        crate::reconcile::spec_event_step(m, p, e, details).0.platforms == m.platforms,
{
}

/// Neither does the whole batch fold.
proof fn lemma_reconcile_events_platforms(
    m: StoreModel,
    p: Platform,
    events: Seq<RawEvent>,
    details: Seq<DetailResult>,
)
    ensures
        crate::reconcile::spec_reconcile_events(m, p, events, details).0.platforms == m.platforms,
    decreases events.len(),
{
    if events.len() > 0 {
        lemma_reconcile_events_platforms(m, p, events.drop_last(), details);
        lemma_event_step_platforms(
            crate::reconcile::spec_reconcile_events(m, p, events.drop_last(), details).0,
            p,
            events.last(),
            details,
        );
    }
}

/// Advancing the watermark of a platform that has a row leaves its first
/// matching row carrying exactly `now`.
proof fn lemma_advanced_first_sync(rows: Seq<PlatformRow>, p: Platform, now: i64)
    requires
        platform_count(rows, p) > 0,
    ensures
        first_sync_of(rows.map(|j: int, r: PlatformRow| advanced_row(r, p, now)), p) == Some(now),
    decreases rows.len(),
{
    let mapped = rows.map(|j: int, r: PlatformRow| advanced_row(r, p, now));
    assert(mapped.drop_last() =~= rows.drop_last().map(
        |j: int, r: PlatformRow| advanced_row(r, p, now),
    ));
    if platform_count(rows.drop_last(), p) > 0 {
        lemma_advanced_first_sync(rows.drop_last(), p, now);
    } else {
        lemma_first_sync_some(rows.drop_last().map(
            |j: int, r: PlatformRow| advanced_row(r, p, now),
        ), p);
        lemma_platform_count_advanced(rows.drop_last(), p, now);
    }
}

/// Advancing watermarks does not change which rows carry the platform.
proof fn lemma_platform_count_advanced(rows: Seq<PlatformRow>, p: Platform, now: i64)
    ensures
        platform_count(rows.map(|j: int, r: PlatformRow| advanced_row(r, p, now)), p)
            == platform_count(rows, p),
    decreases rows.len(),
{
    if rows.len() > 0 {
        assert(rows.map(|j: int, r: PlatformRow| advanced_row(r, p, now)).drop_last()
            =~= rows.drop_last().map(|j: int, r: PlatformRow| advanced_row(r, p, now)));
        lemma_platform_count_advanced(rows.drop_last(), p, now);
    }
}

/// Law: after a successful reconciliation completed at `now`, the
/// platform's stored watermark is exactly `now` — so the next cycle's
/// window starts at the prior cycle's completion instant.
pub proof fn lemma_watermark_after_reconcile(
    m: StoreModel,
    p: Platform,
    events: Seq<RawEvent>,
    details: Seq<DetailResult>,
    now: i64,
)
    ensures
        first_sync_of(spec_reconcile(m, p, events, details, now).0.platforms, p) == Some(now),
{
    let m0 = spec_ensure_platform(m, p, now);
    assert(platform_count(m0.platforms, p) > 0) by {
        if platform_count(m.platforms, p) == 0 {
            assert(m0.platforms.drop_last() =~= m.platforms);
        }
    }
    lemma_reconcile_events_platforms(m0, p, events, details);
    let folded = crate::reconcile::spec_reconcile_events(m0, p, events, details).0;
    assert(folded.platforms == m0.platforms);
    lemma_advanced_first_sync(m0.platforms, p, now);
}

/// Law: the next window's lower bound after a successful cycle is that
/// cycle's completion instant.
pub proof fn lemma_next_window_after_success(
    m: StoreModel,
    p: Platform,
    events: Seq<RawEvent>,
    details: Seq<DetailResult>,
    now: i64,
    later: i64,
)
    ensures
        spec_window(
            first_sync_of(spec_reconcile(m, p, events, details, now).0.platforms, p),
            later,
        ).start == now,
{
    lemma_watermark_after_reconcile(m, p, events, details, now);
}

impl Store {
    /// Runs the persistence half of one cycle. A failed fetch leaves the
    /// store — the watermark included — untouched, so a retried cycle
    /// computes the same window; a fetched batch is reconciled and the
    /// watermark advances to `now`.
    pub fn run_cycle(
        &mut self,
        platform: Platform,
        fetch: FetchOutcome,
        details: &Vec<DetailResult>,
        now: i64,
    ) -> (r: Option<ReconcileSummary>)
        requires
            match fetch {
                FetchOutcome::Fetched(events) => old(self)@.next_project_id + events@.len()
                    <= u64::MAX && old(self)@.next_action_id + events@.len() <= u64::MAX && old(
                    self,
                )@.next_event_id + events@.len() <= u64::MAX,
                FetchOutcome::FetchFailed => true,
            },
        ensures
            match fetch {
                FetchOutcome::Fetched(events) => {
                    &&& final(self)@ == spec_reconcile(
                        old(self)@,
                        platform,
                        events@,
                        details@,
                        now,
                    ).0
                    &&& r matches Some(summary) && summary.newly_inserted == spec_reconcile(
                        old(self)@,
                        platform,
                        events@,
                        details@,
                        now,
                    ).1 && summary.total_seen == events@.len()
                    &&& first_sync_of(final(self)@.platforms, platform) == Some(now)
                },
                FetchOutcome::FetchFailed => {
                    &&& final(self)@ == old(self)@
                    &&& r is None
                    &&& first_sync_of(final(self)@.platforms, platform) == first_sync_of(
                        old(self)@.platforms,
                        platform,
                    )
                },
            },
    {
        match fetch {
            FetchOutcome::Fetched(events) => {
                let summary = self.reconcile(platform, &events, details, now);
                proof {
                    lemma_watermark_after_reconcile(old(self)@, platform, events@, details@, now);
                }
                Some(summary)
            },
            FetchOutcome::FetchFailed => None,
        }
    }
}

} // verus!
