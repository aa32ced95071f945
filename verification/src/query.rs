//! The read API over the accumulated history: the stored platform events
//! since a given instant, joined with their action and project rows.
//!
//! The join is defensive: a platform-event row whose event, action or
//! project cannot be resolved is left out rather than guessed at.

use vstd::prelude::*;

use crate::git_platform::{CanonicalAction, Platform};
use crate::store::{ActionRow, EventRow, GitEventRow, ProjectRow, Store, StoreModel};

verus! {

/// One joined history entry, as the query endpoint reports it.
#[derive(Clone, Debug)]
pub struct GitEvents {
    pub timestamp: i64,
    pub platform: Platform,
    pub action: CanonicalAction,
    pub project_name: String,
    pub project_url: String,
}

/// The timestamp of the first event row with this id, if any.
pub open spec fn event_ts_of(rows: Seq<EventRow>, id: u64) -> Option<i64>
    decreases rows.len(),
{
    if rows.len() == 0 {
        None
    } else {
        let prefix = event_ts_of(rows.drop_last(), id);
        if prefix is Some {
            prefix
        } else if rows.last().id == id {
            Some(rows.last().timestamp)
        } else {
            None
        }
    }
}

/// The canonical action of the first action row with this id, if any.
pub open spec fn action_of(rows: Seq<ActionRow>, id: u64) -> Option<CanonicalAction>
    decreases rows.len(),
{
    if rows.len() == 0 {
        None
    } else {
        let prefix = action_of(rows.drop_last(), id);
        if prefix is Some {
            prefix
        } else if rows.last().id == id {
            Some(rows.last().action)
        } else {
            None
        }
    }
}

/// The first project row whose store id is this, if any.
pub open spec fn project_row_of(rows: Seq<ProjectRow>, id: u64) -> Option<ProjectRow>
    decreases rows.len(),
{
    if rows.len() == 0 {
        None
    } else {
        let prefix = project_row_of(rows.drop_last(), id);
        if prefix is Some {
            prefix
        } else if rows.last().project.id == id {
            Some(rows.last())
        } else {
            None
        }
    }
}

/// What one platform-event row joins to, if everything resolves.
pub open spec fn spec_join_row(m: StoreModel, ge: GitEventRow) -> Option<GitEvents> {
    match event_ts_of(m.events, ge.id) {
        None => None,
        Some(ts) => match action_of(m.actions, ge.action_id) {
            None => None,
            Some(a) => match project_row_of(m.projects, ge.project_id) {
                None => None,
                Some(pr) => Some(
                    GitEvents {
                        timestamp: ts,
                        platform: pr.platform,
                        action: a,
                        project_name: pr.project.name,
                        project_url: pr.project.url,
                    },
                ),
            },
        },
    }
}

/// The joined history over a prefix of the platform-event table, keeping
/// the rows at or after `since`.
pub open spec fn spec_events_since(m: StoreModel, rows: Seq<GitEventRow>, since: i64) -> Seq<
    GitEvents,
>
    decreases rows.len(),
{
    if rows.len() == 0 {
        Seq::empty()
    } else {
        let prefix = spec_events_since(m, rows.drop_last(), since);
        match spec_join_row(m, rows.last()) {
            Some(entry) => if entry.timestamp >= since {
                prefix.push(entry)
            } else {
                prefix
            },
            None => prefix,
        }
    }
}

fn find_event_ts(rows: &Vec<EventRow>, id: u64) -> (r: Option<i64>)
    ensures
        r == event_ts_of(rows@, id),
{
    let n = rows.len();
    let mut i: usize = 0;
    let mut found: Option<i64> = None;
    while i < n
        invariant
            n == rows@.len(),
            i <= n,
            found == event_ts_of(rows@.take(i as int), id),
        decreases n - i,
    {
        proof {
            assert(rows@.take(i + 1).drop_last() =~= rows@.take(i as int));
            assert(rows@.take(i + 1).last() == rows@[i as int]);
        }
        if found.is_none() && rows[i].id == id {
            found = Some(rows[i].timestamp);
        }
        i = i + 1;
    }
    proof {
        assert(rows@.take(n as int) =~= rows@);
    }
    found
}

fn find_action(rows: &Vec<ActionRow>, id: u64) -> (r: Option<CanonicalAction>)
    ensures
        r == action_of(rows@, id),
{
    let n = rows.len();
    let mut i: usize = 0;
    let mut found: Option<CanonicalAction> = None;
    while i < n
        invariant
            n == rows@.len(),
            i <= n,
            found == action_of(rows@.take(i as int), id),
        decreases n - i,
    {
        proof {
            assert(rows@.take(i + 1).drop_last() =~= rows@.take(i as int));
            assert(rows@.take(i + 1).last() == rows@[i as int]);
        }
        if found.is_none() && rows[i].id == id {
            found = Some(rows[i].action);
        }
        i = i + 1;
    }
    proof {
        assert(rows@.take(n as int) =~= rows@);
    }
    found
}

fn find_project_row(rows: &Vec<ProjectRow>, id: u64) -> (r: Option<&ProjectRow>)
    ensures
        match r {
            Some(pr) => project_row_of(rows@, id) == Some(*pr),
            None => project_row_of(rows@, id) is None,
        },
{
    let n = rows.len();
    let mut i: usize = 0;
    while i < n
        invariant
            n == rows@.len(),
            i <= n,
            project_row_of(rows@.take(i as int), id) is None,
        decreases n - i,
    {
        proof {
            assert(rows@.take(i + 1).drop_last() =~= rows@.take(i as int));
            assert(rows@.take(i + 1).last() == rows@[i as int]);
        }
        if rows[i].project.id == id {
            proof {
                lemma_project_row_first(rows@, id, i as int);
            }
            return Some(&rows[i]);
        }
        i = i + 1;
    }
    proof {
        assert(rows@.take(n as int) =~= rows@);
    }
    None
}

proof fn lemma_project_row_first(rows: Seq<ProjectRow>, id: u64, i: int)
    requires
        0 <= i < rows.len(),
        project_row_of(rows.take(i), id) is None,
        rows[i].project.id == id,
    ensures
        project_row_of(rows, id) == Some(rows[i]),
    decreases rows.len(),
{
    if rows.len() - 1 == i {
        assert(rows.drop_last() =~= rows.take(i));
    } else {
        assert(rows.drop_last().take(i) =~= rows.take(i));
        lemma_project_row_first(rows.drop_last(), id, i);
    }
}

impl Store {
    /// The stored history at or after `since`, each platform event joined
    /// with its action and project.
    pub fn get_all_git_events(&self, since: i64) -> (r: Vec<GitEvents>)
        ensures
            r@ == spec_events_since(self@, self@.git_events, since),
    {
        let n = self.git_events.len();
        let mut out: Vec<GitEvents> = Vec::new();
        let mut i: usize = 0;
        while i < n
            invariant
                n == self.git_events@.len(),
                i <= n,
                out@ == spec_events_since(self@, self@.git_events.take(i as int), since),
            decreases n - i,
        {
            proof {
                assert(self@.git_events.take(i + 1).drop_last() =~= self@.git_events.take(
                    i as int,
                ));
                assert(self@.git_events.take(i + 1).last() == self@.git_events[i as int]);
            }
            let ge = self.git_events[i];
            match find_event_ts(&self.events, ge.id) {
                None => {},
                Some(ts) => match find_action(&self.actions, ge.action_id) {
                    None => {},
                    Some(a) => match find_project_row(&self.projects, ge.project_id) {
                        None => {},
                        Some(pr) => {
                            if ts >= since {
                                out.push(
                                    GitEvents {
                                        timestamp: ts,
                                        platform: pr.platform,
                                        action: a,
                                        project_name: pr.project.name.clone(),
                                        project_url: pr.project.url.clone(),
                                    },
                                );
                            }
                        },
                    },
                },
            }
            i = i + 1;
        }
        proof {
            assert(self@.git_events.take(n as int) =~= self@.git_events);
        }
        out
    }
}

} // verus!
