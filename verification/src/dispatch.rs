//! Reaction listeners: actions waiting for a reaction on a message, until they expire.
use vstd::prelude::*;

verus! {

/// A reaction event: the message, the emoji, the channel and the user who reacted.
#[derive(Debug)]
pub enum Event {
    /// Any reaction with the emoji.
    React(u64, String, u64, u64),
    /// A reaction with the emoji on the message.
    ReactMsg(u64, String, u64, u64),
    /// A reaction with the emoji on the message by the user.
    ReactMsgOwner(u64, String, u64, u64),
}

/// Two events are the same for listening: of the same kind, with the same emoji, and for
/// the message kinds the same message, and for the owner kind the same user. The channel is
/// never compared.
pub open spec fn same_event(a: Event, b: Event) -> bool {
    match (a, b) {
        (Event::React(_, ar, _, _), Event::React(_, br, _, _)) => ar@ == br@,
        (Event::ReactMsg(am, ar, _, _), Event::ReactMsg(bm, br, _, _)) => am == bm && ar@ == br@,
        (Event::ReactMsgOwner(am, ar, _, au), Event::ReactMsgOwner(bm, br, _, bu)) =>
            am == bm && ar@ == br@ && au == bu,
        _ => false,
    }
}

impl PartialEq for Event {
    fn eq(&self, other: &Event) -> (r: bool) {
        match (self, other) {
            (Event::React(_, ar, _, _), Event::React(_, br, _, _)) => *ar == *br,
            (Event::ReactMsg(am, ar, _, _), Event::ReactMsg(bm, br, _, _)) => *am == *bm && *ar == *br,
            (Event::ReactMsgOwner(am, ar, _, au), Event::ReactMsgOwner(bm, br, _, bu)) =>
                *am == *bm && *ar == *br && *au == *bu,
            _ => false,
        }
    }
}

impl vstd::std_specs::cmp::PartialEqSpecImpl for Event {
    open spec fn obeys_eq_spec() -> bool {
        true
    }

    open spec fn eq_spec(&self, other: &Event) -> bool {
        same_event(*self, *other)
    }
}

/// An action waiting for an event, known by its id, until it expires (in milliseconds).
#[derive(Clone, Copy, Debug, PartialEq, Eq, Structural)]
pub struct Listener {
    pub action: u64,
    pub expiration: u64,
}

impl Listener {
    /// A listener for `duration` milliseconds from `now`.
    pub fn new(now: u64, duration: u64, action: u64) -> (l: Listener)
        requires
            now + duration <= u64::MAX,
        ensures
            l.action == action,
            l.expiration == now + duration,
    {
        Listener { action, expiration: now + duration }
    }
}

/// The listeners, grouped by the event they wait for.
pub struct Dispatcher {
    listener: Vec<(Event, Vec<Listener>)>,
}

/// The listeners of all entries whose event is the same as `e`, in order.
pub open spec fn listeners_for(entries: Seq<(Event, Seq<Listener>)>, e: Event) -> Seq<Listener>
    decreases entries.len(),
{
    if entries.len() == 0 {
        Seq::empty()
    } else {
        listeners_for(entries.drop_last(), e) + if same_event(entries.last().0, e) {
            entries.last().1
        } else {
            Seq::empty()
        }
    }
}

/// The actions of the listeners, in order.
pub open spec fn actions_of(ls: Seq<Listener>) -> Seq<u64> {
    ls.map_values(|l: Listener| l.action)
}

/// The listeners not yet expired at `now`.
pub open spec fn alive(ls: Seq<Listener>, now: u64) -> Seq<Listener> {
    ls.filter(alive_at(now))
}

/// A listener has not expired at `now`.
pub open spec fn alive_at(now: u64) -> spec_fn(Listener) -> bool {
    |l: Listener| now < l.expiration
}

impl View for Dispatcher {
    type V = Seq<(Event, Seq<Listener>)>;

    closed spec fn view(&self) -> Seq<(Event, Seq<Listener>)> {
        self.listener@.map_values(|e: (Event, Vec<Listener>)| (e.0, e.1@))
    }
}

impl Dispatcher {
    /// The well-formedness of the dispatcher: no two entries wait for the same event.
    pub open spec fn wf(&self) -> bool {
        forall|i: int, j: int| 0 <= i < j < self@.len() ==> !same_event(#[trigger] self@[i].0, #[trigger] self@[j].0)
    }

    /// No listeners.
    pub fn new() -> (d: Dispatcher)
        ensures
            d.wf(),
            d@ == Seq::<(Event, Seq<Listener>)>::empty(),
    {
        let d = Dispatcher { listener: Vec::new() };
        assert(d@ =~= Seq::<(Event, Seq<Listener>)>::empty());
        d
    }

    fn find(&self, id: &Event) -> (r: Option<usize>)
        ensures
            match r {
                Some(i) => i < self@.len() && same_event(self@[i as int].0, *id),
                None => forall|i: int| 0 <= i < self@.len() ==> !same_event(#[trigger] self@[i].0, *id),
            },
    {
        let mut i: usize = 0;
        while i < self.listener.len()
            invariant
                i <= self@.len(),
                self@.len() == self.listener@.len(),
                forall|j: int| 0 <= j < i ==> !same_event(#[trigger] self@[j].0, *id),
            decreases self@.len() - i,
        {
            assert(self@[i as int].0 == self.listener@[i as int].0);
            if self.listener[i].0 == *id {
                return Some(i);
            }
            i = i + 1;
        }
        None
    }

    /// Adds a listener for the event: to the entry of the same event, or as a new entry.
    pub fn add_listener(&mut self, id: Event, listener: Listener)
        requires
            old(self).wf(),
        ensures
            final(self).wf(),
            forall|e: Event| #[trigger] listeners_for(final(self)@, e) == if same_event(id, e) {
                listeners_for(old(self)@, e).push(listener)
            } else {
                listeners_for(old(self)@, e)
            },
    {
        let ghost before = self@;
        match self.find(&id) {
            Some(i) => {
                let (ev, mut ls) = self.listener.remove(i);
                ls.push(listener);
                self.listener.insert(i, (ev, ls));
                proof {
                    assert(self@ =~= before.update(i as int, (before[i as int].0, before[i as int].1.push(listener))));
                    assert forall|a: int, b: int| 0 <= a < b < self@.len() implies
                        !same_event(#[trigger] self@[a].0, #[trigger] self@[b].0) by {
                        assert(self@[a].0 == before[a].0 && self@[b].0 == before[b].0);
                    }
                    assert forall|e: Event| #[trigger] listeners_for(self@, e) == if same_event(id, e) {
                        listeners_for(before, e).push(listener)
                    } else {
                        listeners_for(before, e)
                    } by {
                        if !same_event(id, e) {
                            if same_event(before[i as int].0, e) {
                                assert(same_event(id, e));
                            }
                            lemma_update_entry(before, i as int, before[i as int].1.push(listener), e);
                        } else {
                            assert forall|j: int| 0 <= j < before.len() && j != i implies
                                !same_event(#[trigger] before[j].0, e) by {
                                if same_event(before[j].0, e) {
                                    assert(same_event(before[j].0, before[i as int].0));
                                    if j < i {
                                        assert(!same_event(before[j].0, before[i as int].0));
                                    } else {
                                        assert(!same_event(before[i as int].0, before[j].0));
                                    }
                                }
                            }
                            lemma_only_match(before, i as int, e);
                            assert forall|j: int| 0 <= j < self@.len() && j != i implies
                                !same_event(#[trigger] self@[j].0, e) by {
                                assert(self@[j].0 == before[j].0);
                            }
                            lemma_only_match(self@, i as int, e);
                        }
                    }
                }
            },
            None => {
                let mut ls: Vec<Listener> = Vec::new();
                ls.push(listener);
                let ghost ev = id;
                self.listener.push((id, ls));
                proof {
                    assert(self@ =~= before.push((ev, seq![listener])));
                    assert forall|a: int, b: int| 0 <= a < b < self@.len() implies
                        !same_event(#[trigger] self@[a].0, #[trigger] self@[b].0) by {
                        assert(self@[a].0 == before[a].0);
                        if b < before.len() {
                            assert(self@[b].0 == before[b].0);
                        } else {
                            assert(!same_event(before[a].0, ev));
                        }
                    }
                    assert forall|e: Event| #[trigger] listeners_for(self@, e) == if same_event(ev, e) {
                        listeners_for(before, e).push(listener)
                    } else {
                        listeners_for(before, e)
                    } by {
                        assert(self@.drop_last() =~= before);
                        if same_event(ev, e) {
                            assert forall|j: int| 0 <= j < before.len() implies
                                !same_event(#[trigger] before[j].0, e) by {
                                assert(!same_event(before[j].0, ev));
                            }
                            lemma_no_match(before, e);
                            assert(Seq::<Listener>::empty() + seq![listener] =~= Seq::<Listener>::empty().push(listener));
                        } else {
                            assert(listeners_for(before, e) + Seq::<Listener>::empty() =~= listeners_for(before, e));
                        }
                    }
                }
            },
        }
    }

    /// The actions of the listeners waiting for the event, in the order they were added.
    pub fn dispatch_event(&self, id: &Event) -> (actions: Vec<u64>)
        requires
            self.wf(),
        ensures
            actions@ == actions_of(listeners_for(self@, *id)),
    {
        let mut actions: Vec<u64> = Vec::new();
        match self.find(id) {
            Some(i) => {
                proof {
                    assert forall|j: int| 0 <= j < self@.len() && j != i implies
                        !same_event(#[trigger] self@[j].0, *id) by {
                        if same_event(self@[j].0, *id) {
                            assert(same_event(self@[j].0, self@[i as int].0));
                        }
                    }
                    lemma_only_match(self@, i as int, *id);
                }
                let ls = &self.listener[i].1;
                assert(ls@ == self@[i as int].1);
                let mut k: usize = 0;
                while k < ls.len()
                    invariant
                        k <= ls@.len(),
                        actions@ == actions_of(ls@.take(k as int)),
                    decreases ls@.len() - k,
                {
                    actions.push(ls[k].action);
                    k = k + 1;
                    assert(actions@ =~= actions_of(ls@.take(k as int)));
                }
                assert(ls@.take(ls@.len() as int) =~= ls@);
            },
            None => {
                proof {
                    lemma_no_match(self@, *id);
                }
                assert(actions@ =~= actions_of(Seq::<Listener>::empty()));
            },
        }
        actions
    }

    /// Drops the listeners that have expired at `now`; the entries stay, in order.
    pub fn check_expiration(&mut self, now: u64)
        requires
            old(self).wf(),
        ensures
            final(self).wf(),
            final(self)@.len() == old(self)@.len(),
            forall|i: int| 0 <= i < final(self)@.len() ==> (#[trigger] final(self)@[i]).0 == old(self)@[i].0
                && final(self)@[i].1 == alive(old(self)@[i].1, now),
    {
        let ghost before = self@;
        let mut i: usize = 0;
        while i < self.listener.len()
            invariant
                i <= self@.len(),
                self@.len() == before.len(),
                self@.len() == self.listener@.len(),
                forall|j: int| 0 <= j < self@.len() ==> (#[trigger] self@[j]).0 == before[j].0,
                forall|j: int| 0 <= j < i ==> (#[trigger] self@[j]).1 == alive(before[j].1, now),
                forall|j: int| i <= j < self@.len() ==> (#[trigger] self@[j]).1 == before[j].1,
            decreases self@.len() - i,
        {
            let ghost mid = self@;
            let (ev, ls) = self.listener.remove(i);
            let kept = keep_alive(&ls, now);
            self.listener.insert(i, (ev, kept));
            assert(self@ =~= mid.update(i as int, (mid[i as int].0, alive(mid[i as int].1, now))));
            i = i + 1;
        }
        assert forall|a: int, b: int| 0 <= a < b < self@.len() implies
            !same_event(#[trigger] self@[a].0, #[trigger] self@[b].0) by {
            assert(self@[a].0 == before[a].0 && self@[b].0 == before[b].0);
        }
    }
}

fn keep_alive(ls: &Vec<Listener>, now: u64) -> (kept: Vec<Listener>)
    ensures
        kept@ == alive(ls@, now),
{
    let mut kept: Vec<Listener> = Vec::new();
    let mut k: usize = 0;
    while k < ls.len()
        invariant
            k <= ls@.len(),
            kept@ == alive(ls@.take(k as int), now),
        decreases ls@.len() - k,
    {
        proof {
            reveal_with_fuel(Seq::<Listener>::filter, 1);
            assert(ls@.take(k + 1).drop_last() =~= ls@.take(k as int));
        }
        if now < ls[k].expiration {
            kept.push(ls[k]);
        }
        k = k + 1;
    }
    assert(ls@.take(ls@.len() as int) =~= ls@);
    kept
}

proof fn lemma_no_match(entries: Seq<(Event, Seq<Listener>)>, e: Event)
    requires
        forall|j: int| 0 <= j < entries.len() ==> !same_event(#[trigger] entries[j].0, e),
    ensures
        listeners_for(entries, e) == Seq::<Listener>::empty(),
    decreases entries.len(),
{
    if entries.len() > 0 {
        let rest = entries.drop_last();
        assert forall|j: int| 0 <= j < rest.len() implies !same_event(#[trigger] rest[j].0, e) by {
            assert(rest[j] == entries[j]);
        }
        lemma_no_match(rest, e);
        assert(!same_event(entries[entries.len() - 1].0, e));
        assert(Seq::<Listener>::empty() + Seq::<Listener>::empty() =~= Seq::<Listener>::empty());
    }
}

proof fn lemma_only_match(entries: Seq<(Event, Seq<Listener>)>, i: int, e: Event)
    requires
        0 <= i < entries.len(),
        same_event(entries[i].0, e),
        forall|j: int| 0 <= j < entries.len() && j != i ==> !same_event(#[trigger] entries[j].0, e),
    ensures
        listeners_for(entries, e) == entries[i].1,
    decreases entries.len(),
{
    let rest = entries.drop_last();
    if i == entries.len() - 1 {
        assert forall|j: int| 0 <= j < rest.len() implies !same_event(#[trigger] rest[j].0, e) by {
            assert(rest[j] == entries[j]);
        }
        lemma_no_match(rest, e);
        assert(Seq::<Listener>::empty() + entries[i].1 =~= entries[i].1);
    } else {
        assert forall|j: int| 0 <= j < rest.len() && j != i implies !same_event(#[trigger] rest[j].0, e) by {
            assert(rest[j] == entries[j]);
        }
        assert(rest[i] == entries[i]);
        lemma_only_match(rest, i, e);
        assert(!same_event(entries[entries.len() - 1].0, e));
        assert(entries[i].1 + Seq::<Listener>::empty() =~= entries[i].1);
    }
}

proof fn lemma_update_entry(entries: Seq<(Event, Seq<Listener>)>, i: int, ls: Seq<Listener>, e: Event)
    requires
        0 <= i < entries.len(),
        !same_event(entries[i].0, e),
    ensures
        listeners_for(entries.update(i, (entries[i].0, ls)), e) == listeners_for(entries, e),
    decreases entries.len(),
{
    let updated = entries.update(i, (entries[i].0, ls));
    if i == entries.len() - 1 {
        assert(updated.drop_last() =~= entries.drop_last());
    } else {
        assert(updated.drop_last() =~= entries.drop_last().update(i, (entries[i].0, ls)));
        lemma_update_entry(entries.drop_last(), i, ls, e);
    }
}

/// What a dispatcher waits for after an expiry check: for every event exactly the
/// listeners that had not expired, in the same order.
pub proof fn lemma_expiry_keeps_alive(
    before: Seq<(Event, Seq<Listener>)>,
    after: Seq<(Event, Seq<Listener>)>,
    now: u64,
    e: Event,
)
    requires
        after.len() == before.len(),
        forall|i: int| 0 <= i < after.len() ==> (#[trigger] after[i]).0 == before[i].0
            && after[i].1 == alive(before[i].1, now),
    ensures
        listeners_for(after, e) == alive(listeners_for(before, e), now),
    decreases before.len(),
{
    if before.len() == 0 {
        assert(alive(Seq::<Listener>::empty(), now) =~= Seq::<Listener>::empty()) by {
            reveal_with_fuel(Seq::<Listener>::filter, 1);
        }
    } else {
        let b = before.drop_last();
        let a = after.drop_last();
        assert forall|i: int| 0 <= i < a.len() implies (#[trigger] a[i]).0 == b[i].0
            && a[i].1 == alive(b[i].1, now) by {
            assert(a[i] == after[i]);
            assert(b[i] == before[i]);
        }
        lemma_expiry_keeps_alive(b, a, now, e);
        let last = before.last().1;
        let rest = listeners_for(b, e);
        assert(after.last() == after[after.len() - 1]);
        if same_event(before.last().0, e) {
            Seq::<Listener>::filter_distributes_over_add(rest, last, alive_at(now));
        } else {
            assert(alive(rest, now) + Seq::<Listener>::empty() =~= alive(rest, now));
            assert(rest + Seq::<Listener>::empty() =~= rest);
        }
    }
}

} // verus!
