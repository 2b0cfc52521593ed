//! The users who do not want to be quoted or to use favs and quotes.
use std::collections::HashSet;
use vstd::prelude::*;

verus! {

broadcast use vstd::std_specs::hash::group_hash_axioms;

/// The ids of the users who opted out.
pub struct OptOutStore {
    set: HashSet<u64>,
}

impl View for OptOutStore {
    type V = Set<u64>;

    closed spec fn view(&self) -> Set<u64> {
        self.set@
    }
}

/// The set after a user switches: in if they were out, out if they were in.
pub open spec fn toggled(users: Set<u64>, id: u64) -> Set<u64> {
    if users.contains(id) {
        users.remove(id)
    } else {
        users.insert(id)
    }
}

/// Switching twice leaves the set as it was.
pub proof fn lemma_toggle_twice(users: Set<u64>, id: u64)
    ensures
        toggled(toggled(users, id), id) == users,
{
    if users.contains(id) {
        assert(users.remove(id).insert(id) =~= users);
    } else {
        assert(users.insert(id).remove(id) =~= users);
    }
}

/// Whether a quote may be shown.
#[derive(Clone, Copy, Debug, PartialEq, Eq, Structural)]
pub enum QuoteCheck {
    /// Neither the user asking nor the author opted out.
    Allowed,
    /// The user asking opted out.
    RequesterOptedOut,
    /// The author of the quoted message opted out.
    AuthorOptedOut,
}

impl OptOutStore {
    /// No one has opted out.
    pub fn new() -> (s: OptOutStore)
        ensures
            s@ == Set::<u64>::empty(),
    {
        OptOutStore { set: HashSet::new() }
    }

    /// The store holding the given users.
    pub fn from_set(set: HashSet<u64>) -> (s: OptOutStore)
        ensures
            s@ == set@,
    {
        OptOutStore { set }
    }

    /// The users who opted out.
    pub fn into_set(self) -> (set: HashSet<u64>)
        ensures
            set@ == self@,
    {
        self.set
    }

    /// The user opted out.
    pub fn contains(&self, id: u64) -> (r: bool)
        ensures
            r == self@.contains(id),
    {
        self.set.contains(&id)
    }

    /// Switches the user: opted out if they were not, back in if they were. Returns whether
    /// the user is opted out afterwards.
    pub fn toggle(&mut self, id: u64) -> (now_out: bool)
        ensures
            final(self)@ == toggled(old(self)@, id),
            now_out == !old(self)@.contains(id),
            now_out == final(self)@.contains(id),
    {
        if !self.set.insert(id) {
            self.set.remove(&id);
            false
        } else {
            true
        }
    }

    /// Whether a quote of `author`'s message asked for by `requester` may be shown: the
    /// requester is checked first.
    pub fn quote_check(&self, requester: u64, author: u64) -> (r: QuoteCheck)
        ensures
            r == (if self@.contains(requester) {
                QuoteCheck::RequesterOptedOut
            } else if self@.contains(author) {
                QuoteCheck::AuthorOptedOut
            } else {
                QuoteCheck::Allowed
            }),
    {
        if self.contains(requester) {
            QuoteCheck::RequesterOptedOut
        } else if self.contains(author) {
            QuoteCheck::AuthorOptedOut
        } else {
            QuoteCheck::Allowed
        }
    }
}

} // verus!
