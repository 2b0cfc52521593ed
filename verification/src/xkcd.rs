//! xkcd comics: their links and the schedule of indexing them one by one.
use vstd::prelude::*;
use crate::text::{nat_text, u64_text};

verus! {

/// A comic as the xkcd JSON interface describes it.
#[derive(Debug)]
pub struct Comic {
    pub month: String,
    pub num: u64,
    pub link: String,
    pub year: String,
    pub news: String,
    pub safe_title: String,
    pub transcript: String,
    pub alt: String,
    pub img: String,
    pub title: String,
    pub day: String,
}

/// How far the comics have been indexed: all numbers below `indexed`.
#[derive(Clone, Copy, Debug, PartialEq, Eq, Structural)]
pub struct XkcdIndexStorage {
    pub indexed: u64,
}

/// The number that does not exist on xkcd (its page is a joke about "not found").
pub const MISSING_COMIC: u64 = 404;

/// The link to a comic's page.
pub open spec fn comic_link_text(num: u64) -> Seq<char> {
    "https://xkcd.com/"@ + nat_text(num as nat)
}

/// The link to a comic's page (see `comic_link_text`).
pub fn comic_link(num: u64) -> (t: String)
    ensures
        t@ == comic_link_text(num),
{
    let mut t = String::from_str("https://xkcd.com/");
    t.append(u64_text(num).as_str());
    t
}

/// The address of a comic's description in JSON.
pub open spec fn comic_info_url_text(num: u64) -> Seq<char> {
    "https://xkcd.com/"@ + nat_text(num as nat) + "/info.0.json"@
}

/// The address of a comic's description in JSON (see `comic_info_url_text`).
pub fn comic_info_url(num: u64) -> (t: String)
    ensures
        t@ == comic_info_url_text(num),
{
    let mut t = comic_link(num);
    t.append("/info.0.json");
    t
}

/// The next comic to index from `next` on, up to `newest`; 404 is skipped.
pub open spec fn next_comic(next: nat, newest: nat) -> Option<nat> {
    if next > newest {
        None
    } else if next == 404 {
        if 405 > newest { None } else { Some(405nat) }
    } else {
        Some(next)
    }
}

/// The comics to index from `next` on, in order: every number up to `newest` but 404.
pub open spec fn comics_to_index(next: nat, newest: nat) -> Seq<nat>
    decreases newest + 1 - next,
{
    if next > newest {
        Seq::empty()
    } else if next == 404 {
        comics_to_index(next + 1, newest)
    } else {
        seq![next] + comics_to_index(next + 1, newest)
    }
}

/// One step of indexing: the comic to fetch, the progress message to send before going on
/// (every hundredth comic) and how long to wait afterwards, in milliseconds.
pub struct IndexStep {
    pub number: u64,
    pub progress: Option<String>,
    pub pause_millis: u64,
}

/// The progress message after comic `i` of `newest`.
pub open spec fn progress_text(i: nat, newest: nat) -> Seq<char> {
    "Progess on xkcd indexing: "@ + nat_text(i) + " of "@ + nat_text(newest)
}

/// The pause after comic `i`: half a second, two more every fifth comic and ten more every
/// hundredth.
pub open spec fn pause_after(i: nat) -> nat {
    500 + (if i % 5 == 0 { 2000nat } else { 0nat }) + (if i % 100 == 0 { 10000nat } else { 0nat })
}

/// Indexing the comics from where the last run stopped up to the newest one.
pub struct XkcdIndexing {
    next: u64,
    newest: u64,
}

impl XkcdIndexing {
    /// The comic that indexing goes on with.
    pub closed spec fn next_spec(&self) -> nat {
        self.next as nat
    }

    /// The newest comic, where indexing ends.
    pub closed spec fn newest_spec(&self) -> nat {
        self.newest as nat
    }

    /// The comics still to index.
    pub open spec fn remaining(&self) -> Seq<nat> {
        comics_to_index(self.next_spec(), self.newest_spec())
    }

    /// The state is well formed: the number after the newest comic fits.
    pub closed spec fn wf(&self) -> bool {
        self.newest < u64::MAX && self.next <= self.newest + 1
            || self.next > self.newest
    }

    /// Starts indexing at the first comic not indexed yet.
    pub fn new(storage: XkcdIndexStorage, newest: u64) -> (s: XkcdIndexing)
        requires
            newest < u64::MAX,
        ensures
            s.wf(),
            s.next_spec() == storage.indexed,
            s.newest_spec() == newest,
    {
        XkcdIndexing { next: storage.indexed, newest }
    }

    /// The next comic to fetch and what to do around it; `None` when all are indexed.
    pub fn step(&mut self) -> (r: Option<IndexStep>)
        requires
            old(self).wf(),
        ensures
            final(self).wf(),
            final(self).newest_spec() == old(self).newest_spec(),
            match r {
                None => old(self).remaining() == Seq::<nat>::empty()
                    && final(self).remaining() == Seq::<nat>::empty(),
                Some(st) => {
                    &&& old(self).remaining().len() > 0
                    &&& st.number == old(self).remaining()[0]
                    &&& final(self).remaining() == old(self).remaining().drop_first()
                    &&& st.pause_millis == pause_after(st.number as nat)
                    &&& match st.progress {
                        Some(t) => st.number % 100 == 0
                            && t@ == progress_text(st.number as nat, old(self).newest_spec()),
                        None => st.number % 100 != 0,
                    }
                },
            },
    {
        if self.next > self.newest {
            return None;
        }
        let mut i = self.next;
        if i == MISSING_COMIC {
            if MISSING_COMIC + 1 > self.newest {
                self.next = MISSING_COMIC + 1;
                assert(comics_to_index(405, self.newest as nat) == Seq::<nat>::empty());
                return None;
            }
            i = MISSING_COMIC + 1;
            assert(comics_to_index(404, self.newest as nat) == comics_to_index(405, self.newest as nat));
        }
        self.next = i + 1;
        let progress = if i % 100 == 0 {
            let mut t = String::from_str("Progess on xkcd indexing: ");
            t.append(u64_text(i).as_str());
            t.append(" of ");
            t.append(u64_text(self.newest).as_str());
            Some(t)
        } else {
            None
        };
        let mut pause: u64 = 500;
        if i % 5 == 0 {
            pause = pause + 2000;
        }
        if i % 100 == 0 {
            pause = pause + 10000;
        }
        let ghost rest = comics_to_index(i as nat, self.newest as nat);
        assert(rest == seq![i as nat] + comics_to_index((i + 1) as nat, self.newest as nat));
        assert(rest.drop_first() =~= comics_to_index((i + 1) as nat, self.newest as nat));
        Some(IndexStep { number: i, progress, pause_millis: pause })
    }

    /// What is stored when indexing is complete: everything up to the newest comic.
    pub fn finish(&self) -> (storage: XkcdIndexStorage)
        requires
            self.wf(),
            self.remaining() == Seq::<nat>::empty(),
            self.newest_spec() < u64::MAX,
        ensures
            storage.indexed == self.newest_spec() + 1,
    {
        XkcdIndexStorage { indexed: self.newest + 1 }
    }
}

/// The message when indexing is complete.
pub open spec fn completed_text(newest: nat) -> Seq<char> {
    "completed indexing up to "@ + nat_text(newest)
}

/// The message when indexing is complete (see `completed_text`).
pub fn completed_message(newest: u64) -> (t: String)
    ensures
        t@ == completed_text(newest as nat),
{
    let mut t = String::from_str("completed indexing up to ");
    t.append(u64_text(newest).as_str());
    t
}

} // verus!
