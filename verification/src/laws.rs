//! The engine's laws: what holds of reconciliation as such, beyond any one
//! call's contract.

use vstd::prelude::*;

use crate::git_platform::{DetailResult, Platform, RawEvent};
use crate::reconcile::{
    spec_detail_for, spec_event_step, spec_plan, spec_reconcile, spec_reconcile_events,
};
use crate::store::{action_count, project_count, spec_ensure_platform, StoreModel};
use crate::timestamp::parsed_utc_seconds;

verus! {

// ---------------------------------------------------------------------------
// Partial-failure isolation.
// ---------------------------------------------------------------------------

/// An event whose timestamp does not parse leaves no trace on the fold: the
/// batch without it reconciles to the very same store and count.
proof fn lemma_unparsable_event_inert(
    m: StoreModel,
    p: Platform,
    events: Seq<RawEvent>,
    details: Seq<DetailResult>,
    k: int,
)
    requires
        0 <= k < events.len(),
        parsed_utc_seconds(events[k].created_at@) is None,
    ensures
        spec_reconcile_events(m, p, events, details) == spec_reconcile_events(
            m,
            p,
            events.remove(k),
            details,
        ),
    decreases events.len(),
{
    if k == events.len() - 1 {
        assert(events.remove(k) =~= events.drop_last());
    } else {
        assert(events.remove(k).drop_last() =~= events.drop_last().remove(k));
        assert(events.remove(k).last() == events.last());
        lemma_unparsable_event_inert(m, p, events.drop_last(), details, k);
    }
}

/// Law: a batch that carries an event with an unparsable timestamp commits
/// exactly as the batch without that event does — the same store, the same
/// count of newly inserted events; the bad event only raises `total_seen`.
pub proof fn lemma_partial_failure_isolation(
    m: StoreModel,
    p: Platform,
    events: Seq<RawEvent>,
    details: Seq<DetailResult>,
    now: i64,
    k: int,
)
    requires
        0 <= k < events.len(),
        parsed_utc_seconds(events[k].created_at@) is None,
    ensures
        spec_reconcile(m, p, events, details, now) == spec_reconcile(
            m,
            p,
            events.remove(k),
            details,
            now,
        ),
{
    lemma_unparsable_event_inert(
        crate::store::spec_ensure_platform(m, p, now),
        p,
        events,
        details,
        k,
    );
}

// ---------------------------------------------------------------------------
// Detail-fetch planning.
// ---------------------------------------------------------------------------

/// Law: the planned detail fetches name each project at most once — a
/// second event of the same batch that references the same project adds no
/// further fetch.
pub proof fn lemma_plan_no_duplicates(m: StoreModel, p: Platform, events: Seq<RawEvent>)
    ensures
        forall|i: int, j: int|
            0 <= i < j < spec_plan(m, p, events).len() ==> spec_plan(m, p, events)[i]
                != spec_plan(m, p, events)[j],
    decreases events.len(),
{
    if events.len() > 0 {
        lemma_plan_no_duplicates(m, p, events.drop_last());
        let prefix = spec_plan(m, p, events.drop_last());
        let whole = spec_plan(m, p, events);
        if whole != prefix {
            let id = events.last().external_project_id;
            assert(whole == prefix.push(id));
            assert(!prefix.contains(id));
            assert forall|i: int, j: int| 0 <= i < j < whole.len() implies whole[i] != whole[j] by {
                if j < prefix.len() {
                } else {
                    assert(whole[j] == id);
                    assert(prefix[i] == whole[i]);
                    if prefix[i] == id {
                        assert(prefix.contains(id));
                    }
                }
            }
        }
    }
}

/// Law: a project is planned for a detail fetch exactly when some event of
/// the batch with a parsable timestamp references it and the store does not
/// know it yet.
pub proof fn lemma_plan_membership(m: StoreModel, p: Platform, events: Seq<RawEvent>, id: u64)
    ensures
        spec_plan(m, p, events).contains(id) <==> exists|i: int|
            0 <= i < events.len() && (#[trigger] events[i]).external_project_id == id
                && parsed_utc_seconds(events[i].created_at@) is Some && project_count(
                m.projects,
                p,
                id,
            ) == 0,
    decreases events.len(),
{
    if events.len() == 0 {
        if spec_plan(m, p, events).contains(id) {
            let w = choose|w: int| 0 <= w < spec_plan(m, p, events).len() && spec_plan(
                m,
                p,
                events,
            )[w] == id;
            assert(false);
        }
    } else {
        lemma_plan_membership(m, p, events.drop_last(), id);
        let prefix = spec_plan(m, p, events.drop_last());
        let whole = spec_plan(m, p, events);
        let e = events.last();
        if whole == prefix.push(e.external_project_id) && whole != prefix {
            // the last event was planned
            assert(whole.contains(id) == (prefix.contains(id) || id == e.external_project_id))
                by {
                if prefix.contains(id) {
                    let w = choose|w: int| 0 <= w < prefix.len() && prefix[w] == id;
                    assert(whole[w] == id);
                }
                if id == e.external_project_id {
                    assert(whole[whole.len() - 1] == id);
                }
                if whole.contains(id) {
                    let w = choose|w: int| 0 <= w < whole.len() && whole[w] == id;
                    if w < prefix.len() {
                        assert(prefix[w] == id);
                    }
                }
            }
            if whole.contains(id) {
                if prefix.contains(id) {
                    let w = choose|i: int|
                        0 <= i < events.drop_last().len() && (#[trigger] events.drop_last()[i]).external_project_id
                            == id && parsed_utc_seconds(
                            events.drop_last()[i].created_at@,
                        ) is Some && project_count(m.projects, p, id) == 0;
                    assert(events[w] == events.drop_last()[w]);
                } else {
                    assert(events[events.len() - 1].external_project_id == id);
                }
            }
            if exists|i: int|
                0 <= i < events.len() && (#[trigger] events[i]).external_project_id == id
                    && parsed_utc_seconds(events[i].created_at@) is Some && project_count(
                    m.projects,
                    p,
                    id,
                ) == 0 {
                let w = choose|i: int|
                    0 <= i < events.len() && (#[trigger] events[i]).external_project_id == id
                        && parsed_utc_seconds(events[i].created_at@) is Some && project_count(
                        m.projects,
                        p,
                        id,
                    ) == 0;
                if w < events.len() - 1 {
                    assert(events.drop_last()[w] == events[w]);
                }
            }
        } else {
            // the last event added nothing
            assert(whole == prefix);
            if whole.contains(id) {
                let w = choose|i: int|
                    0 <= i < events.drop_last().len() && (#[trigger] events.drop_last()[i]).external_project_id
                        == id && parsed_utc_seconds(events.drop_last()[i].created_at@) is Some
                        && project_count(m.projects, p, id) == 0;
                assert(events[w] == events.drop_last()[w]);
            }
            if exists|i: int|
                0 <= i < events.len() && (#[trigger] events[i]).external_project_id == id
                    && parsed_utc_seconds(events[i].created_at@) is Some && project_count(
                    m.projects,
                    p,
                    id,
                ) == 0 {
                let w = choose|i: int|
                    0 <= i < events.len() && (#[trigger] events[i]).external_project_id == id
                        && parsed_utc_seconds(events[i].created_at@) is Some && project_count(
                        m.projects,
                        p,
                        id,
                    ) == 0;
                if w == events.len() - 1 {
                    // the last event references an unknown project with a
                    // parsable timestamp, so it was planned unless already
                    // in the prefix
                    assert(whole != prefix || prefix.contains(id));
                } else {
                    assert(events.drop_last()[w] == events[w]);
                }
            }
        }
    }
}

/// A single event step adds at most one row for a project key the store
/// does not know.
proof fn lemma_step_project_count(
    m: StoreModel,
    p: Platform,
    e: RawEvent,
    details: Seq<DetailResult>,
    pid: u64,
)
    ensures
        ({
            let c = project_count(m.projects, p, pid);
            let c2 = project_count(spec_event_step(m, p, e, details).0.projects, p, pid);
            c2 == c || (c == 0 && c2 == 1)
        }),
{
    let m2 = spec_event_step(m, p, e, details).0;
    if m2.projects != m.projects {
        crate::store::lemma_project_push(
            m.projects,
            m2.projects.last(),
            p,
            pid,
        );
        assert(m2.projects.drop_last() =~= m.projects);
    }
}

/// Law: a batch creates at most one row for a project the store does not
/// know — the first event referencing it inserts the row, every later one
/// resolves it.
pub proof fn lemma_project_inserted_once(
    m: StoreModel,
    p: Platform,
    events: Seq<RawEvent>,
    details: Seq<DetailResult>,
    pid: u64,
)
    requires
        project_count(m.projects, p, pid) <= 1,
    ensures
        project_count(spec_reconcile_events(m, p, events, details).0.projects, p, pid) <= 1,
    decreases events.len(),
{
    if events.len() > 0 {
        lemma_project_inserted_once(m, p, events.drop_last(), details, pid);
        lemma_step_project_count(
            spec_reconcile_events(m, p, events.drop_last(), details).0,
            p,
            events.last(),
            details,
            pid,
        );
    }
}


// ---------------------------------------------------------------------------
// Idempotence.
// ---------------------------------------------------------------------------

/// An event is settled in a store when running it through the per-event
/// pipeline changes nothing and inserts nothing.
pub open spec fn event_settled(
    m: StoreModel,
    p: Platform,
    e: RawEvent,
    details: Seq<DetailResult>,
) -> bool {
    spec_event_step(m, p, e, details).0 == m && spec_event_step(m, p, e, details).1 == 0
}

/// What one event step can do to the tables: it never touches the platform
/// table, only appends event rows, and pushes at most one project row (for
/// its own, previously unknown, public project) and at most one action row
/// (for a label not yet stored).
proof fn lemma_step_effect(m: StoreModel, p: Platform, e: RawEvent, details: Seq<DetailResult>)
    ensures
        ({
            let m2 = spec_event_step(m, p, e, details).0;
            &&& m2.platforms == m.platforms
            &&& m.events.is_prefix_of(m2.events)
            &&& m.git_events.is_prefix_of(m2.git_events)
            &&& (m2.projects == m.projects || (m2.projects.drop_last() == m.projects
                && m2.projects.last().platform == p
                && m2.projects.last().project.platform_project_id == e.external_project_id
                && project_count(m.projects, p, e.external_project_id) == 0 && (match spec_detail_for(
                details,
                e.external_project_id,
            ) {
                Some(d) => d.public,
                None => false,
            })))
            &&& (m2.actions == m.actions || (m2.actions.drop_last() == m.actions && action_count(
                m.actions,
                m2.actions.last().action,
            ) == 0))
        }),
{
    let m2 = spec_event_step(m, p, e, details).0;
    assert(m.events.is_prefix_of(m.events)) by {
        assert(m.events.subrange(0, m.events.len() as int) =~= m.events);
    }
    assert(m.git_events.is_prefix_of(m.git_events)) by {
        assert(m.git_events.subrange(0, m.git_events.len() as int) =~= m.git_events);
    }
    match parsed_utc_seconds(e.created_at@) {
        None => {},
        Some(ts) => {
            let pid = e.external_project_id;
            let rp = crate::reconcile::spec_resolve_project(m, p, pid, details);
            let m1 = rp.0;
            assert(m1.projects == m.projects || (m1.projects.drop_last() =~= m.projects
                && m1.projects.last().platform == p
                && m1.projects.last().project.platform_project_id == pid));
            match rp.1 {
                None => {},
                Some(project_id) => match crate::git_platform::spec_map_action(
                    p,
                    e.raw_action@,
                ) {
                    None => {},
                    Some(a) => {
                        let ra = crate::reconcile::spec_resolve_action(m1, a);
                        let mm = ra.0;
                        assert(mm.actions == m1.actions || (mm.actions.drop_last() =~= m1.actions
                            && mm.actions.last().action == a));
                        match ra.1 {
                            None => {},
                            Some(action_id) => {
                                if crate::store::spec_has_matching_event(
                                    mm.events,
                                    mm.git_events,
                                    ts,
                                    action_id,
                                    project_id,
                                ) {
                                } else {
                                    let m3 = crate::store::spec_insert_git_event(
                                        crate::store::spec_insert_event(mm, ts),
                                        mm.next_event_id,
                                        action_id,
                                        project_id,
                                    );
                                    assert(m.events.is_prefix_of(m3.events)) by {
                                        assert(m3.events.subrange(0, m.events.len() as int)
                                            =~= m.events);
                                    }
                                    assert(m.git_events.is_prefix_of(m3.git_events)) by {
                                        assert(m3.git_events.subrange(
                                            0,
                                            m.git_events.len() as int,
                                        ) =~= m.git_events);
                                    }
                                }
                            },
                        }
                    },
                },
            }
        },
    }
}

/// After its own step, an event is settled: running it again changes
/// nothing.
proof fn lemma_step_settles(m: StoreModel, p: Platform, e: RawEvent, details: Seq<DetailResult>)
    ensures
        event_settled(spec_event_step(m, p, e, details).0, p, e, details),
{
    let mA = spec_event_step(m, p, e, details).0;
    match parsed_utc_seconds(e.created_at@) {
        None => {},
        Some(ts) => {
            let pid = e.external_project_id;
            let c = project_count(m.projects, p, pid);
            let rp = crate::reconcile::spec_resolve_project(m, p, pid, details);
            let m1 = rp.0;
            match rp.1 {
                None => {
                    // the event was skipped on its project and nothing changed
                    assert(mA == m);
                },
                Some(project_id) => {
                    // in every later stage the project table stays m1's, so a
                    // rerun resolves the same project id
                    if c == 0 {
                        crate::store::lemma_project_push(m.projects, m1.projects.last(), p, pid);
                        assert(m1.projects.drop_last() =~= m.projects);
                        assert(m1.projects =~= m.projects.push(m1.projects.last()));
                        crate::store::lemma_project_first_some(m.projects, p, pid);
                    }
                    match crate::git_platform::spec_map_action(p, e.raw_action@) {
                        None => {
                            assert(mA == m1);
                            assert(project_count(mA.projects, p, pid) == 1);
                        },
                        Some(a) => {
                            let ca = action_count(m1.actions, a);
                            let ra = crate::reconcile::spec_resolve_action(m1, a);
                            let m2 = ra.0;
                            match ra.1 {
                                None => {
                                    assert(mA == m2);
                                    assert(mA == m1);
                                },
                                Some(action_id) => {
                                    if ca == 0 {
                                        crate::store::lemma_action_push(
                                            m1.actions,
                                            m2.actions.last(),
                                            a,
                                        );
                                        assert(m2.actions.drop_last() =~= m1.actions);
                                        assert(m2.actions =~= m1.actions.push(m2.actions.last()));
                                        crate::store::lemma_action_first_some(m1.actions, a);
                                    }
                                    if crate::store::spec_has_matching_event(
                                        m2.events,
                                        m2.git_events,
                                        ts,
                                        action_id,
                                        project_id,
                                    ) {
                                        assert(mA == m2);
                                        assert(project_count(mA.projects, p, pid) == 1 || c == 1);
                                        assert(action_count(mA.actions, a) == 1 || ca == 1);
                                    } else {
                                        let m3 = crate::store::spec_insert_git_event(
                                            crate::store::spec_insert_event(m2, ts),
                                            m2.next_event_id,
                                            action_id,
                                            project_id,
                                        );
                                        assert(mA == m3);
                                        crate::store::lemma_has_matching_witness(
                                            m3.events,
                                            m3.git_events,
                                            ts,
                                            action_id,
                                            project_id,
                                            m3.git_events.len() - 1,
                                            m3.events.len() - 1,
                                        );
                                    }
                                },
                            }
                        },
                    }
                },
            }
        },
    }
}

/// Settledness survives another event's step: what the other event can
/// add — its own new project row, a new action label, more event rows —
/// never unsettles an already settled event.
proof fn lemma_settled_stable(
    m: StoreModel,
    p: Platform,
    e: RawEvent,
    e2: RawEvent,
    details: Seq<DetailResult>,
)
    requires
        event_settled(m, p, e, details),
    ensures
        event_settled(spec_event_step(m, p, e2, details).0, p, e, details),
{
    let m2 = spec_event_step(m, p, e2, details).0;
    lemma_step_effect(m, p, e2, details);
    match parsed_utc_seconds(e.created_at@) {
        None => {},
        Some(ts) => {
            let pid = e.external_project_id;
            let c = project_count(m.projects, p, pid);
            // the project table of m2 resolves e's key as m's did
            if m2.projects != m.projects {
                assert(m2.projects =~= m.projects.push(m2.projects.last()));
                crate::store::lemma_project_push(m.projects, m2.projects.last(), p, pid);
                if m2.projects.last().platform == p
                    && m2.projects.last().project.platform_project_id == pid {
                    // e2 created e's project: then e's key was unknown and its
                    // detail public, so e's own step would have created it too
                    // and could not have left the store unchanged
                    assert(project_count(m.projects, p, pid) == 0);
                    assert(spec_event_step(m, p, e, details).0.projects.len() == m.projects.len()
                        + 1);
                    assert(false);
                }
            }
            assert(project_count(m2.projects, p, pid) == c);
            assert(crate::store::project_first_id(m2.projects, p, pid)
                == crate::store::project_first_id(m.projects, p, pid));
            if c == 0 {
                // e was settled because its detail fetch failed or the project
                // is not public; the same detail answers the rerun
                assert(match spec_detail_for(details, pid) {
                    Some(d) => !d.public,
                    None => true,
                }) by {
                    if spec_detail_for(details, pid) matches Some(d) && d.public {
                        assert(spec_event_step(m, p, e, details).0.projects.len()
                            == m.projects.len() + 1);
                    }
                }
            } else if c == 1 {
                crate::store::lemma_project_first_some(m.projects, p, pid);
                match crate::git_platform::spec_map_action(p, e.raw_action@) {
                    None => {},
                    Some(a) => {
                        let ca = action_count(m.actions, a);
                        if m2.actions != m.actions {
                            assert(m2.actions =~= m.actions.push(m2.actions.last()));
                            crate::store::lemma_action_push(m.actions, m2.actions.last(), a);
                        }
                        if ca == 0 {
                            // e would have inserted the action row and changed
                            // the store
                            assert(spec_event_step(m, p, e, details).0.actions.len()
                                == m.actions.len() + 1);
                            assert(false);
                        }
                        assert(action_count(m2.actions, a) == ca);
                        assert(crate::store::action_first_id(m2.actions, a)
                            == crate::store::action_first_id(m.actions, a));
                        if ca == 1 {
                            crate::store::lemma_action_first_some(m.actions, a);
                            let project_id = crate::store::project_first_id(
                                m.projects,
                                p,
                                pid,
                            ).unwrap();
                            let action_id = crate::store::action_first_id(m.actions, a).unwrap();
                            // the dedup key must already have matched, else e
                            // would have inserted
                            assert(crate::store::spec_has_matching_event(
                                m.events,
                                m.git_events,
                                ts,
                                action_id,
                                project_id,
                            )) by {
                                if !crate::store::spec_has_matching_event(
                                    m.events,
                                    m.git_events,
                                    ts,
                                    action_id,
                                    project_id,
                                ) {
                                    assert(spec_event_step(m, p, e, details).0.events.len()
                                        == m.events.len() + 1);
                                }
                            }
                            crate::store::lemma_has_matching_monotone(
                                m.events,
                                m.git_events,
                                m2.events,
                                m2.git_events,
                                ts,
                                action_id,
                                project_id,
                            );
                        }
                    },
                }
            }
        },
    }
}

/// A fold over events all settled in the store changes nothing and inserts
/// nothing.
proof fn lemma_fold_settled(
    m: StoreModel,
    p: Platform,
    events: Seq<RawEvent>,
    details: Seq<DetailResult>,
)
    requires
        forall|i: int|
            0 <= i < events.len() ==> event_settled(m, p, #[trigger] events[i], details),
    ensures
        spec_reconcile_events(m, p, events, details).0 == m,
        spec_reconcile_events(m, p, events, details).1 == 0,
    decreases events.len(),
{
    if events.len() > 0 {
        assert(forall|i: int|
            0 <= i < events.drop_last().len() ==> event_settled(
                m,
                p,
                #[trigger] events.drop_last()[i],
                details,
            ));
        lemma_fold_settled(m, p, events.drop_last(), details);
        assert(event_settled(m, p, events.last(), details));
    }
}

/// After a batch is folded through the pipeline, every event of the batch
/// is settled in the resulting store.
proof fn lemma_fold_settles_all(
    m: StoreModel,
    p: Platform,
    events: Seq<RawEvent>,
    details: Seq<DetailResult>,
)
    ensures
        forall|i: int|
            0 <= i < events.len() ==> event_settled(
                spec_reconcile_events(m, p, events, details).0,
                p,
                #[trigger] events[i],
                details,
            ),
    decreases events.len(),
{
    if events.len() > 0 {
        let prev = spec_reconcile_events(m, p, events.drop_last(), details).0;
        lemma_fold_settles_all(m, p, events.drop_last(), details);
        assert forall|i: int| 0 <= i < events.len() implies event_settled(
            spec_reconcile_events(m, p, events, details).0,
            p,
            #[trigger] events[i],
            details,
        ) by {
            if i < events.len() - 1 {
                assert(events.drop_last()[i] == events[i]);
                assert(event_settled(prev, p, events[i], details));
                lemma_settled_stable(prev, p, events[i], events.last(), details);
            } else {
                lemma_step_settles(prev, p, events.last(), details);
            }
        }
    }
}

/// The per-event pipeline reads and writes everything but the platform
/// table, so two stores differing only there run it alike.
proof fn lemma_step_ignores_platforms(
    m1: StoreModel,
    m2: StoreModel,
    p: Platform,
    e: RawEvent,
    details: Seq<DetailResult>,
)
    requires
        m2.projects == m1.projects,
        m2.actions == m1.actions,
        m2.events == m1.events,
        m2.git_events == m1.git_events,
        m2.next_project_id == m1.next_project_id,
        m2.next_action_id == m1.next_action_id,
        m2.next_event_id == m1.next_event_id,
    ensures
        ({
            let r1 = spec_event_step(m1, p, e, details);
            let r2 = spec_event_step(m2, p, e, details);
            &&& r2.1 == r1.1
            &&& r2.0.platforms == m2.platforms
            &&& r2.0.projects == r1.0.projects
            &&& r2.0.actions == r1.0.actions
            &&& r2.0.events == r1.0.events
            &&& r2.0.git_events == r1.0.git_events
            &&& r2.0.next_project_id == r1.0.next_project_id
            &&& r2.0.next_action_id == r1.0.next_action_id
            &&& r2.0.next_event_id == r1.0.next_event_id
        }),
{
}

/// Law: reconciliation is idempotent. Reconciling the same batch, with the
/// same detail-fetch results, against the store a first reconciliation
/// left, inserts nothing the second time.
pub proof fn lemma_reconcile_idempotent(
    m: StoreModel,
    p: Platform,
    events: Seq<RawEvent>,
    details: Seq<DetailResult>,
    now1: i64,
    now2: i64,
)
    ensures
        spec_reconcile(
            spec_reconcile(m, p, events, details, now1).0,
            p,
            events,
            details,
            now2,
        ).1 == 0,
{
    let m0 = spec_ensure_platform(m, p, now1);
    let folded = spec_reconcile_events(m0, p, events, details).0;
    let first = spec_reconcile(m, p, events, details, now1).0;
    let m0b = spec_ensure_platform(first, p, now2);
    lemma_fold_settles_all(m0, p, events, details);
    assert forall|i: int| 0 <= i < events.len() implies event_settled(
        m0b,
        p,
        #[trigger] events[i],
        details,
    ) by {
        assert(event_settled(folded, p, events[i], details));
        assert(m0b.projects == folded.projects);
        assert(m0b.actions == folded.actions);
        assert(m0b.events == folded.events);
        assert(m0b.git_events == folded.git_events);
        lemma_step_ignores_platforms(folded, m0b, p, events[i], details);
    }
    lemma_fold_settled(m0b, p, events, details);
}


// ---------------------------------------------------------------------------
// No duplicate platform events.
// ---------------------------------------------------------------------------

/// Every stored event id, and every platform-event row's reference to one,
/// lies below the event id counter.
pub open spec fn ids_bounded(m: StoreModel) -> bool {
    &&& forall|i: int| 0 <= i < m.events.len() ==> (#[trigger] m.events[i]).id < m.next_event_id
    &&& forall|i: int|
        0 <= i < m.git_events.len() ==> (#[trigger] m.git_events[i]).id < m.next_event_id
}

/// No two platform-event rows resolve, through the event table, to the same
/// (timestamp, project, action) triple — the dedup key is unique.
pub open spec fn triples_unique(m: StoreModel) -> bool {
    forall|i: int, j: int, ei: int, ej: int|
        0 <= i < m.git_events.len() && 0 <= j < m.git_events.len() && i != j && 0 <= ei
            < m.events.len() && 0 <= ej < m.events.len() && (#[trigger] m.events[ei]).id == (
        #[trigger] m.git_events[i]).id && (#[trigger] m.events[ej]).id == (
        #[trigger] m.git_events[j]).id ==> !(m.git_events[i].action_id == m.git_events[j].action_id
            && m.git_events[i].project_id == m.git_events[j].project_id && m.events[ei].timestamp
            == m.events[ej].timestamp)
}

/// One event step keeps the dedup key unique: it inserts only a pair it
/// found no match for, under a fresh event id.
proof fn lemma_step_keeps_triples_unique(
    m: StoreModel,
    p: Platform,
    e: RawEvent,
    details: Seq<DetailResult>,
)
    requires
        ids_bounded(m),
        triples_unique(m),
        m.next_event_id < u64::MAX,
    ensures
        ids_bounded(spec_event_step(m, p, e, details).0),
        triples_unique(spec_event_step(m, p, e, details).0),
        spec_event_step(m, p, e, details).0.next_event_id <= m.next_event_id + 1,
{
    let mA = spec_event_step(m, p, e, details).0;
    if mA.events != m.events {
        // the step inserted: a fresh event row and its platform-event row,
        // after finding no match for the triple
        let new_id = m.next_event_id;
        assert(mA.events.drop_last() =~= m.events);
        assert(mA.git_events.drop_last() =~= m.git_events);
        let ev_new = mA.events.last();
        let ge_new = mA.git_events.last();
        let ts = ev_new.timestamp;
        let aid = ge_new.action_id;
        let pid = ge_new.project_id;
        assert(ev_new.id == new_id && ge_new.id == new_id);
        assert(!crate::store::spec_has_matching_event(m.events, m.git_events, ts, aid, pid));
        let ge_len = m.git_events.len() as int;
        let ev_len = m.events.len() as int;
        assert(mA.next_event_id == new_id + 1);
        assert forall|i: int| 0 <= i < mA.events.len() implies (#[trigger] mA.events[i]).id
            < mA.next_event_id by {
            if i < ev_len {
                assert(mA.events[i] == m.events[i]);
            }
        }
        assert forall|i: int| 0 <= i < mA.git_events.len() implies (#[trigger] mA.git_events[i]).id
            < mA.next_event_id by {
            if i < ge_len {
                assert(mA.git_events[i] == m.git_events[i]);
            }
        }
        assert forall|i: int, j: int, ei: int, ej: int|
            0 <= i < mA.git_events.len() && 0 <= j < mA.git_events.len() && i != j && 0 <= ei
                < mA.events.len() && 0 <= ej < mA.events.len() && (#[trigger] mA.events[ei]).id
                == (#[trigger] mA.git_events[i]).id && (#[trigger] mA.events[ej]).id == (
            #[trigger] mA.git_events[j]).id implies !(mA.git_events[i].action_id
            == mA.git_events[j].action_id && mA.git_events[i].project_id
            == mA.git_events[j].project_id && mA.events[ei].timestamp == mA.events[ej].timestamp) by {
            if i < ge_len && j < ge_len {
                // two old platform-event rows: their ids lie below the new
                // event id, so they join only old event rows
                assert(mA.git_events[i] == m.git_events[i]);
                assert(mA.git_events[j] == m.git_events[j]);
                assert(m.git_events[i].id < new_id);
                assert(m.git_events[j].id < new_id);
                assert(ei < ev_len && ej < ev_len);
                assert(mA.events[ei] == m.events[ei]);
                assert(mA.events[ej] == m.events[ej]);
            } else if j == ge_len && i < ge_len {
                // the new pair against an old row: the old row joins an old
                // event, and no old pair matched the new triple
                assert(mA.git_events[i] == m.git_events[i]);
                assert(m.git_events[i].id < new_id);
                assert(ei < ev_len);
                assert(mA.events[ei] == m.events[ei]);
                assert(ej == ev_len);
                if mA.git_events[i].action_id == aid && mA.git_events[i].project_id == pid
                    && mA.events[ei].timestamp == ts {
                    crate::store::lemma_has_matching_witness(
                        m.events,
                        m.git_events,
                        ts,
                        aid,
                        pid,
                        i,
                        ei,
                    );
                }
            } else if i == ge_len && j < ge_len {
                assert(mA.git_events[j] == m.git_events[j]);
                assert(m.git_events[j].id < new_id);
                assert(ej < ev_len);
                assert(mA.events[ej] == m.events[ej]);
                assert(ei == ev_len);
                if mA.git_events[j].action_id == aid && mA.git_events[j].project_id == pid
                    && mA.events[ej].timestamp == ts {
                    crate::store::lemma_has_matching_witness(
                        m.events,
                        m.git_events,
                        ts,
                        aid,
                        pid,
                        j,
                        ej,
                    );
                }
            }
        }
    }
}

/// The whole fold keeps the dedup key unique.
proof fn lemma_fold_keeps_triples_unique(
    m: StoreModel,
    p: Platform,
    events: Seq<RawEvent>,
    details: Seq<DetailResult>,
)
    requires
        ids_bounded(m),
        triples_unique(m),
        m.next_event_id + events.len() <= u64::MAX,
    ensures
        ids_bounded(spec_reconcile_events(m, p, events, details).0),
        triples_unique(spec_reconcile_events(m, p, events, details).0),
        spec_reconcile_events(m, p, events, details).0.next_event_id <= m.next_event_id
            + events.len(),
    decreases events.len(),
{
    if events.len() > 0 {
        lemma_fold_keeps_triples_unique(m, p, events.drop_last(), details);
        lemma_step_keeps_triples_unique(
            spec_reconcile_events(m, p, events.drop_last(), details).0,
            p,
            events.last(),
            details,
        );
    }
}

/// Law: reconciliation never creates duplicate platform events. A store
/// whose (timestamp, project, action) triples are unique, and whose event
/// ids lie below the id counter, keeps both through any reconciliation.
pub proof fn lemma_no_duplicate_triples(
    m: StoreModel,
    p: Platform,
    events: Seq<RawEvent>,
    details: Seq<DetailResult>,
    now: i64,
)
    requires
        ids_bounded(m),
        triples_unique(m),
        m.next_event_id + events.len() <= u64::MAX,
    ensures
        ids_bounded(spec_reconcile(m, p, events, details, now).0),
        triples_unique(spec_reconcile(m, p, events, details, now).0),
{
    let m0 = spec_ensure_platform(m, p, now);
    lemma_fold_keeps_triples_unique(m0, p, events, details);
}

} // verus!
