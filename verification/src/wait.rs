//! Waiting for a user's answer: pending actions per user.
use std::collections::HashMap;
use vstd::prelude::*;

verus! {

broadcast use vstd::std_specs::hash::group_hash_axioms;

/// What a user can be waited for.
#[derive(Clone, Copy, Debug, PartialEq, Eq, Structural)]
pub enum Action {
    DeleteFav,
}

/// An action awaited from a user, with the id it concerns and when it was asked for, in
/// milliseconds since the Unix epoch (UTC). Its view is these three, in this order.
pub struct WaitEvent {
    action: Action,
    action_id: i64,
    timestamp: i64,
}

impl View for WaitEvent {
    type V = (Action, i64, i64);

    closed spec fn view(&self) -> (Action, i64, i64) {
        (self.action, self.action_id, self.timestamp)
    }
}

impl WaitEvent {
    /// An awaited action.
    pub fn new(action: Action, action_id: i64, timestamp: i64) -> (e: WaitEvent)
        ensures
            e@ == (action, action_id, timestamp),
    {
        WaitEvent { action, action_id, timestamp }
    }

    /// When the action was asked for, in milliseconds since the Unix epoch.
    pub fn timestamp(&self) -> (t: i64)
        ensures
            t == self@.2,
    {
        self.timestamp
    }
}

/// The awaited actions of a list, by action, id and time.
pub open spec fn event_views(es: Seq<WaitEvent>) -> Seq<(Action, i64, i64)> {
    es.map_values(|e: WaitEvent| e@)
}

/// The id of the last awaited event for the action, if any.
pub open spec fn last_match(es: Seq<(Action, i64, i64)>, action: Action) -> Option<i64>
    decreases es.len(),
{
    if es.len() == 0 {
        None
    } else if es.last().0 == action {
        Some(es.last().1)
    } else {
        last_match(es.drop_last(), action)
    }
}

/// The awaited events that are not for the action, in order.
pub open spec fn without_action(es: Seq<(Action, i64, i64)>, action: Action) -> Seq<(Action, i64, i64)> {
    es.filter(not_for(action))
}

/// An awaited event is not for the action.
pub open spec fn not_for(action: Action) -> spec_fn((Action, i64, i64)) -> bool {
    |e: (Action, i64, i64)| e.0 != action
}

/// The awaited actions per user.
pub struct Wait(HashMap<u64, Vec<WaitEvent>>);

impl View for Wait {
    type V = Map<u64, Seq<(Action, i64, i64)>>;

    closed spec fn view(&self) -> Map<u64, Seq<(Action, i64, i64)>> {
        self.0@.map_values(|v: Vec<WaitEvent>| event_views(v@))
    }
}

/// The events awaited from a user, none when the user has no entry.
pub open spec fn events_of(m: Map<u64, Seq<(Action, i64, i64)>>, user: u64) -> Seq<(Action, i64, i64)> {
    if m.contains_key(user) {
        m[user]
    } else {
        Seq::empty()
    }
}

impl Wait {
    /// Nothing awaited.
    pub fn new() -> (w: Wait)
        ensures
            w@ == Map::<u64, Seq<(Action, i64, i64)>>::empty(),
    {
        let w = Wait(HashMap::new());
        assert(w@ =~= Map::<u64, Seq<(Action, i64, i64)>>::empty());
        w
    }

    /// Awaits the event from the user, after the events already awaited.
    pub fn wait(&mut self, user_id: u64, event: WaitEvent)
        ensures
            final(self)@ == old(self)@.insert(user_id, events_of(old(self)@, user_id).push(event@)),
    {
        let mut events = match self.0.remove(&user_id) {
            Some(v) => v,
            None => Vec::new(),
        };
        let ghost before = events@;
        assert(event_views(before) =~= events_of(old(self)@, user_id));
        events.push(event);
        assert(event_views(events@) =~= event_views(before).push(event@));
        self.0.insert(user_id, events);
        assert(self@ =~= old(self)@.insert(user_id, events_of(old(self)@, user_id).push(event@)));
    }

    /// Whether the user was waited for with the action: gives the id of the last such
    /// event, and drops all events for the action; the user's other events stay in order.
    pub fn waiting(&mut self, user_id: u64, action: Action) -> (r: Option<i64>)
        ensures
            r == last_match(events_of(old(self)@, user_id), action),
            final(self)@ == old(self)@.insert(user_id, without_action(events_of(old(self)@, user_id), action)),
    {
        let mut events = match self.0.remove(&user_id) {
            Some(v) => v,
            None => Vec::new(),
        };
        let ghost start = event_views(events@);
        assert(start =~= events_of(old(self)@, user_id));
        let ghost keep = not_for(action);
        let mut kept: Vec<WaitEvent> = Vec::new();
        let mut was_waiting: Option<i64> = None;
        let n = events.len();
        let mut k: usize = 0;
        assert(start.take(0).filter(keep) =~= Seq::<(Action, i64, i64)>::empty()) by {
            reveal_with_fuel(Seq::<_>::filter, 1);
        }
        assert(start.take(0) =~= Seq::<(Action, i64, i64)>::empty());
        while events.len() > 0
            invariant
                k <= n,
                n == start.len(),
                events@.len() == n - k,
                event_views(events@) == start.skip(k as int),
                event_views(kept@) == start.take(k as int).filter(keep),
                was_waiting == last_match(start.take(k as int), action),
                keep == not_for(action),
            decreases events@.len(),
        {
            let ghost rest = events@;
            assert(event_views(rest)[0] == rest[0]@);
            assert(start.skip(k as int)[0] == start[k as int]);
            let e = events.remove(0);
            assert(e@ == start[k as int]);
            assert(event_views(events@) =~= event_views(rest).drop_first());
            let ghost before = event_views(kept@);
            let ghost ev = e@;
            if e.action == action {
                was_waiting = Some(e.action_id);
                assert(event_views(kept@) =~= before);
            } else {
                kept.push(e);
                assert(event_views(kept@) =~= before.push(ev));
            }
            proof {
                let t1 = start.take(k + 1);
                assert(t1.drop_last() =~= start.take(k as int));
                assert(t1.last() == ev);
                reveal_with_fuel(Seq::<_>::filter, 1);
                assert(keep(ev) == (ev.0 != action));
                assert(event_views(kept@) =~= t1.filter(keep));
                assert(event_views(events@) =~= start.skip(k + 1));
            }
            k = k + 1;
        }
        assert(start.take(n as int) =~= start);
        let ghost kept_view = event_views(kept@);
        self.0.insert(user_id, kept);
        assert(self@ =~= old(self)@.insert(user_id, without_action(events_of(old(self)@, user_id), action)));
        was_waiting
    }
}

/// What a wait promises: once an event is awaited from a user, asking whether the user was
/// waited for with that action gives the event's id, and afterwards the user is no longer
/// waited for with it.
pub proof fn lemma_wait_then_waiting(m: Map<u64, Seq<(Action, i64, i64)>>, user: u64, e: (Action, i64, i64))
    ensures
        last_match(events_of(m.insert(user, events_of(m, user).push(e)), user), e.0) == Some(e.1),
        last_match(
            without_action(events_of(m.insert(user, events_of(m, user).push(e)), user), e.0),
            e.0,
        ) is None,
{
    let s = events_of(m, user).push(e);
    assert(events_of(m.insert(user, s), user) == s);
    lemma_no_match_after_removal(s, e.0);
}

/// After the events for an action are dropped, none is left for it.
pub proof fn lemma_no_match_after_removal(es: Seq<(Action, i64, i64)>, action: Action)
    ensures
        last_match(without_action(es, action), action) is None,
{
    let f = without_action(es, action);
    broadcast use vstd::seq_lib::group_filter_ensures;
    lemma_last_match_none(f, action);
}

/// A list without events for the action has no last match.
proof fn lemma_last_match_none(es: Seq<(Action, i64, i64)>, action: Action)
    requires
        forall|i: int| 0 <= i < es.len() ==> (#[trigger] es[i]).0 != action,
    ensures
        last_match(es, action) is None,
    decreases es.len(),
{
    if es.len() > 0 {
        assert(es.last() == es[es.len() - 1]);
        lemma_last_match_none(es.drop_last(), action);
    }
}

} // verus!
