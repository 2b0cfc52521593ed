//! Favourite messages ("favs") and their tags: choosing by tags, the tag summary, links.
use rand::seq::IteratorRandom;
use vstd::prelude::*;
use crate::order::{chars_less, text_less, lemma_text_less_irreflexive, lemma_text_less_total,
    lemma_text_less_transitive};
use crate::text::{chars_of, chunk_chars, chunked, i64_text, int_text, joined, nat_text, push_char,
    u64_text, views};

verus! {

/// A message that a user saved as a favourite.
#[derive(Clone, Copy, Debug, PartialEq, Eq, Structural)]
pub struct Fav {
    pub id: i64,
    pub server_id: i64,
    pub channel_id: i64,
    pub msg_id: i64,
    pub user_id: i64,
    pub author_id: i64,
}

/// A label on a fav.
#[derive(Debug)]
pub struct Tag {
    pub id: i64,
    pub fav_id: i64,
    pub label: String,
}

/// Every wanted label is among the tags.
pub open spec fn covers(tags: Seq<Tag>, labels: Seq<Seq<char>>) -> bool {
    forall|i: int| 0 <= i < labels.len() ==>
        exists|j: int| 0 <= j < tags.len() && #[trigger] tags[j].label@ == #[trigger] labels[i]
}

/// The favs, in order, whose tags cover all the labels.
pub open spec fn tagged_favs(cands: Seq<(Fav, Vec<Tag>)>, labels: Seq<Seq<char>>) -> Seq<Fav>
    decreases cands.len(),
{
    if cands.len() == 0 {
        Seq::empty()
    } else {
        let rest = tagged_favs(cands.drop_last(), labels);
        if covers(cands.last().1@, labels) {
            rest.push(cands.last().0)
        } else {
            rest
        }
    }
}

/// Some tag carries the label.
fn has_label(tags: &Vec<Tag>, label: &String) -> (r: bool)
    ensures
        r == exists|j: int| 0 <= j < tags@.len() && #[trigger] tags@[j].label@ == label@,
{
    let mut j: usize = 0;
    while j < tags.len()
        invariant
            j <= tags@.len(),
            forall|k: int| 0 <= k < j ==> #[trigger] tags@[k].label@ != label@,
        decreases tags@.len() - j,
    {
        if tags[j].label == *label {
            return true;
        }
        j = j + 1;
    }
    false
}

/// The tags carry every label.
fn covers_all(tags: &Vec<Tag>, labels: &Vec<String>) -> (r: bool)
    ensures
        r == covers(tags@, views(labels@)),
{
    let ghost lv = views(labels@);
    let mut i: usize = 0;
    while i < labels.len()
        invariant
            i <= labels@.len(),
            lv == views(labels@),
            covers(tags@, lv.take(i as int)),
        decreases labels@.len() - i,
    {
        assert(lv[i as int] == labels@[i as int]@);
        if !has_label(tags, &labels[i]) {
            assert(lv.take(i + 1)[i as int] == lv[i as int]);
            assert(!covers(tags@, lv.take(i + 1)));
            assert(!covers(tags@, lv)) by {
                assert(lv[i as int] == lv.take(i + 1)[i as int]);
            }
            return false;
        }
        assert forall|k: int| 0 <= k < i + 1 implies exists|j: int| 0 <= j < tags@.len()
            && #[trigger] tags@[j].label@ == #[trigger] lv.take(i + 1)[k] by {
            if k < i {
                assert(lv.take(i + 1)[k] == lv.take(i as int)[k]);
            }
        }
        i = i + 1;
    }
    assert(lv.take(labels@.len() as int) =~= lv);
    true
}

/// The favs whose tags carry every one of the labels, in their order (each label must be on
/// at least one tag of the fav).
pub fn tagged_with(cands: &Vec<(Fav, Vec<Tag>)>, labels: &Vec<String>) -> (favs: Vec<Fav>)
    ensures
        favs@ == tagged_favs(cands@, views(labels@)),
{
    let ghost lv = views(labels@);
    let mut favs: Vec<Fav> = Vec::new();
    let mut i: usize = 0;
    while i < cands.len()
        invariant
            i <= cands@.len(),
            lv == views(labels@),
            favs@ == tagged_favs(cands@.take(i as int), lv),
        decreases cands@.len() - i,
    {
        assert(cands@.take(i + 1).drop_last() =~= cands@.take(i as int));
        if covers_all(&cands[i].1, labels) {
            favs.push(cands[i].0);
        }
        i = i + 1;
    }
    assert(cands@.take(cands@.len() as int) =~= cands@);
    favs
}

/// rand's `IteratorRandom::choose` over the favs with the thread's random generator: one of
/// them, or `None` when there is none. Which one depends on chance.
#[verifier::external_body]
fn choose_fav(favs: &Vec<Fav>) -> (r: Option<Fav>)
    ensures
        favs@.len() == 0 <==> r is None,
        r matches Some(f) ==> favs@.contains(f),
{
    favs.iter().choose(&mut rand::thread_rng()).copied()
}

/// Picks the fav to post at random among the favs whose tags cover the labels (all favs
/// when no label is given); `None` when there is none.
pub fn fav_to_post(cands: &Vec<(Fav, Vec<Tag>)>, labels: &Vec<String>) -> (r: Option<Fav>)
    ensures
        tagged_favs(cands@, views(labels@)).len() == 0 <==> r is None,
        r matches Some(f) ==> tagged_favs(cands@, views(labels@)).contains(f),
{
    let possible = tagged_with(cands, labels);
    choose_fav(&possible)
}

/// How often `x` occurs among the labels.
pub open spec fn label_count(labels: Seq<Seq<char>>, x: Seq<char>) -> nat
    decreases labels.len(),
{
    if labels.len() == 0 {
        0
    } else {
        label_count(labels.drop_last(), x) + if labels.last() == x { 1nat } else { 0nat }
    }
}

/// The label summary of a list of labels: each distinct label once, in ascending order
/// (`text_less`), with the number of times it occurs.
pub open spec fn is_label_summary(labels: Seq<Seq<char>>, entries: Seq<(Seq<char>, nat)>) -> bool {
    &&& forall|i: int, j: int| 0 <= i < j < entries.len() ==>
        text_less(#[trigger] entries[i].0, #[trigger] entries[j].0)
    &&& forall|i: int| 0 <= i < entries.len() ==>
        #[trigger] entries[i].1 == label_count(labels, entries[i].0) && entries[i].1 > 0
    &&& forall|k: int| 0 <= k < labels.len() ==>
        exists|i: int| 0 <= i < entries.len() && #[trigger] entries[i].0 == #[trigger] labels[k]
}

/// The entries of a summary as plain values.
pub open spec fn entry_views(entries: Seq<(String, usize)>) -> Seq<(Seq<char>, nat)> {
    entries.map_values(|e: (String, usize)| (e.0@, e.1 as nat))
}

proof fn lemma_count_push(labels: Seq<Seq<char>>, l: Seq<char>, x: Seq<char>)
    ensures
        label_count(labels.push(l), x) == label_count(labels, x) + if l == x { 1nat } else { 0nat },
{
    assert(labels.push(l).drop_last() =~= labels);
}

proof fn lemma_count_bounds(labels: Seq<Seq<char>>, x: Seq<char>)
    ensures
        label_count(labels, x) <= labels.len(),
        label_count(labels, x) > 0 ==> exists|k: int| 0 <= k < labels.len() && #[trigger] labels[k] == x,
    decreases labels.len(),
{
    if labels.len() > 0 {
        lemma_count_bounds(labels.drop_last(), x);
        if label_count(labels.drop_last(), x) > 0 {
            let k = choose|k: int| 0 <= k < labels.drop_last().len() && #[trigger] labels.drop_last()[k] == x;
            assert(labels[k] == x);
        }
        if labels.last() == x {
            assert(labels[labels.len() - 1] == x);
        }
    }
}

/// Counts the labels: each distinct label once, in ascending order, with how often it occurs
/// (see `is_label_summary`).
pub fn label_counts(labels: &Vec<String>) -> (entries: Vec<(String, usize)>)
    ensures
        is_label_summary(views(labels@), entry_views(entries@)),
{
    let ghost lv = views(labels@);
    let mut entries: Vec<(String, usize)> = Vec::new();
    let mut k: usize = 0;
    while k < labels.len()
        invariant
            k <= labels@.len(),
            lv == views(labels@),
            is_label_summary(lv.take(k as int), entry_views(entries@)),
        decreases labels@.len() - k,
    {
        let ghost prefix = lv.take(k as int);
        let ghost ev = entry_views(entries@);
        let label = &labels[k];
        assert(lv[k as int] == label@);
        assert(lv.take(k + 1) =~= prefix.push(label@));
        let lc = chars_of(label.as_str());
        let mut i: usize = 0;
        while i < entries.len() && chars_less(&chars_of(entries[i].0.as_str()), &lc)
            invariant
                i <= entries@.len(),
                ev == entry_views(entries@),
                lc@ == label@,
                forall|j: int| 0 <= j < i ==> text_less(#[trigger] ev[j].0, label@),
            decreases entries@.len() - i,
        {
            assert(ev[i as int].0 == entries@[i as int].0@);
            i = i + 1;
        }
        proof {
            lemma_count_bounds(prefix, label@);
            assert forall|x: Seq<char>| #[trigger] label_count(prefix.push(label@), x)
                == label_count(prefix, x) + if label@ == x { 1nat } else { 0nat } by {
                lemma_count_push(prefix, label@, x);
            }
        }
        if i < entries.len() && entries[i].0 == *label {
            let count = entries[i].1;
            proof {
                assert(ev[i as int] == (entries@[i as int].0@, entries@[i as int].1 as nat));
                assert(ev[i as int].0 == label@);
                assert(ev[i as int].1 == count as nat);
                assert(count == label_count(prefix, label@));
            }
            let name = entries[i].0.clone();
            entries.set(i, (name, count + 1));
            proof {
                let nv = entry_views(entries@);
                assert(nv =~= ev.update(i as int, (label@, (count + 1) as nat)));
                assert forall|j: int| 0 <= j < nv.len() && j != i implies #[trigger] nv[j].0 != label@ by {
                    if j < i {
                        lemma_text_less_irreflexive(label@);
                        assert(text_less(ev[j].0, ev[i as int].0));
                    } else {
                        lemma_text_less_irreflexive(label@);
                        assert(text_less(ev[i as int].0, ev[j].0));
                    }
                }
                assert forall|m: int| 0 <= m < k + 1 implies exists|j: int| 0 <= j < nv.len()
                    && #[trigger] nv[j].0 == #[trigger] lv.take(k + 1)[m] by {
                    if m < k {
                        let j = choose|j: int| 0 <= j < ev.len() && #[trigger] ev[j].0 == #[trigger] prefix[m];
                        assert(nv[j].0 == ev[j].0);
                    } else {
                        assert(nv[i as int].0 == lv.take(k + 1)[m]);
                    }
                }
            }
        } else {
            proof {
                lemma_text_less_irreflexive(label@);
                if i < entries@.len() {
                    assert(ev[i as int].0 == entries@[i as int].0@);
                    lemma_text_less_total(ev[i as int].0, label@);
                    assert(text_less(label@, ev[i as int].0));
                }
                assert forall|j: int| 0 <= j < ev.len() implies #[trigger] ev[j].0 != label@ by {
                    if j < i {
                    } else if j > i {
                        lemma_text_less_transitive(label@, ev[i as int].0, ev[j].0);
                        lemma_text_less_irreflexive(ev[j].0);
                    }
                }
                if label_count(prefix, label@) > 0 {
                    let m = choose|m: int| 0 <= m < prefix.len() && #[trigger] prefix[m] == label@;
                    let j = choose|j: int| 0 <= j < ev.len() && #[trigger] ev[j].0 == #[trigger] prefix[m];
                    assert(false);
                }
            }
            entries.insert(i, (label.clone(), 1));
            proof {
                let nv = entry_views(entries@);
                assert(nv =~= ev.insert(i as int, (label@, 1nat)));
                assert forall|a: int, b: int| 0 <= a < b < nv.len() implies
                    text_less(#[trigger] nv[a].0, #[trigger] nv[b].0) by {
                    if b < i {
                    } else if b == i {
                    } else if a < i {
                        if b - 1 > i {
                            lemma_text_less_transitive(label@, ev[i as int].0, ev[b - 1].0);
                        }
                        lemma_text_less_transitive(ev[a].0, label@, ev[b - 1].0);
                    } else if a == i {
                        if b - 1 > i {
                            lemma_text_less_transitive(label@, ev[i as int].0, ev[b - 1].0);
                        }
                    } else {
                        assert(text_less(ev[a - 1].0, ev[b - 1].0));
                    }
                }
                assert forall|j: int| 0 <= j < nv.len() implies
                    #[trigger] nv[j].1 == label_count(lv.take(k + 1), nv[j].0) && nv[j].1 > 0 by {
                    if j < i {
                        assert(nv[j] == ev[j]);
                    } else if j > i {
                        assert(nv[j] == ev[j - 1]);
                    }
                }
                assert forall|m: int| 0 <= m < k + 1 implies exists|j: int| 0 <= j < nv.len()
                    && #[trigger] nv[j].0 == #[trigger] lv.take(k + 1)[m] by {
                    if m < k {
                        let j = choose|j: int| 0 <= j < ev.len() && #[trigger] ev[j].0 == #[trigger] prefix[m];
                        if j < i {
                            assert(nv[j].0 == ev[j].0);
                        } else {
                            assert(nv[j + 1].0 == ev[j].0);
                        }
                    } else {
                        assert(nv[i as int].0 == lv.take(k + 1)[m]);
                    }
                }
            }
        }
        k = k + 1;
    }
    assert(lv.take(labels@.len() as int) =~= lv);
    entries
}

/// The keys of the entries rise strictly.
pub open spec fn keys_rising(a: Seq<(Seq<char>, nat)>) -> bool {
    forall|i: int, j: int| 0 <= i < j < a.len() ==> text_less(#[trigger] a[i].0, #[trigger] a[j].0)
}

/// Every key of `a` is a key of `b`, with the same count.
pub open spec fn keys_within(a: Seq<(Seq<char>, nat)>, b: Seq<(Seq<char>, nat)>) -> bool {
    forall|i: int| 0 <= i < a.len() ==> #[trigger] b.contains(a[i])
}

proof fn lemma_rising_heads_equal(a: Seq<(Seq<char>, nat)>, b: Seq<(Seq<char>, nat)>)
    requires
        a.len() > 0,
        keys_rising(a),
        keys_rising(b),
        keys_within(a, b),
        keys_within(b, a),
    ensures
        b.len() > 0,
        a[0] == b[0],
{
    assert(b.contains(a[0]));
    let j = choose|j: int| 0 <= j < b.len() && b[j] == a[0];
    assert(a.contains(b[0]));
    let m = choose|m: int| 0 <= m < a.len() && a[m] == b[0];
    if j > 0 && m > 0 {
        assert(text_less(b[0].0, b[j].0));
        assert(text_less(a[0].0, a[m].0));
        lemma_text_less_transitive(a[0].0, b[0].0, a[0].0);
        lemma_text_less_irreflexive(a[0].0);
    } else if j > 0 {
        assert(text_less(b[0].0, b[j].0));
        lemma_text_less_irreflexive(b[0].0);
    } else if m > 0 {
        assert(text_less(a[0].0, a[m].0));
        lemma_text_less_irreflexive(a[0].0);
    }
}

proof fn lemma_rising_tails_within(a: Seq<(Seq<char>, nat)>, b: Seq<(Seq<char>, nat)>)
    requires
        a.len() > 0,
        b.len() > 0,
        a[0] == b[0],
        keys_rising(a),
        keys_within(a, b),
    ensures
        keys_within(a.drop_first(), b.drop_first()),
{
    let a1 = a.drop_first();
    let b1 = b.drop_first();
    assert forall|i: int| 0 <= i < a1.len() implies #[trigger] b1.contains(a1[i]) by {
        assert(a1[i] == a[i + 1]);
        assert(b.contains(a[i + 1]));
        let k = choose|k: int| 0 <= k < b.len() && b[k] == a[i + 1];
        assert(text_less(a[0].0, a[i + 1].0));
        if k == 0 {
            lemma_text_less_irreflexive(a[0].0);
        }
        assert(b1[k - 1] == a1[i]);
    }
}

proof fn lemma_rising_entries_equal(a: Seq<(Seq<char>, nat)>, b: Seq<(Seq<char>, nat)>)
    requires
        keys_rising(a),
        keys_rising(b),
        keys_within(a, b),
        keys_within(b, a),
    ensures
        a == b,
    decreases a.len(),
{
    if a.len() == 0 {
        if b.len() > 0 {
            assert(a.contains(b[0]));
        }
        assert(a =~= b);
    } else {
        lemma_rising_heads_equal(a, b);
        lemma_rising_tails_within(a, b);
        lemma_rising_tails_within(b, a);
        let a1 = a.drop_first();
        let b1 = b.drop_first();
        assert(keys_rising(a1)) by {
            assert forall|i: int, j: int| 0 <= i < j < a1.len() implies
                text_less(#[trigger] a1[i].0, #[trigger] a1[j].0) by {
                assert(a1[i] == a[i + 1] && a1[j] == a[j + 1]);
            }
        }
        assert(keys_rising(b1)) by {
            assert forall|i: int, j: int| 0 <= i < j < b1.len() implies
                text_less(#[trigger] b1[i].0, #[trigger] b1[j].0) by {
                assert(b1[i] == b[i + 1] && b1[j] == b[j + 1]);
            }
        }
        lemma_rising_entries_equal(a1, b1);
        assert(a =~= seq![a[0]] + a1);
        assert(b =~= seq![b[0]] + b1);
    }
}

/// A list of labels has exactly one summary: two summaries of the same labels are equal.
pub proof fn lemma_label_summary_unique(
    labels: Seq<Seq<char>>,
    a: Seq<(Seq<char>, nat)>,
    b: Seq<(Seq<char>, nat)>,
)
    requires
        is_label_summary(labels, a),
        is_label_summary(labels, b),
    ensures
        a == b,
{
    assert forall|i: int| 0 <= i < a.len() implies #[trigger] b.contains(a[i]) by {
        assert(a[i].1 == label_count(labels, a[i].0));
        lemma_count_bounds(labels, a[i].0);
        let k = choose|k: int| 0 <= k < labels.len() && #[trigger] labels[k] == a[i].0;
        let j = choose|j: int| 0 <= j < b.len() && #[trigger] b[j].0 == #[trigger] labels[k];
        assert(b[j].1 == label_count(labels, b[j].0));
        assert(b[j] == a[i]);
    }
    assert forall|i: int| 0 <= i < b.len() implies #[trigger] a.contains(b[i]) by {
        assert(b[i].1 == label_count(labels, b[i].0));
        lemma_count_bounds(labels, b[i].0);
        let k = choose|k: int| 0 <= k < labels.len() && #[trigger] labels[k] == b[i].0;
        let j = choose|j: int| 0 <= j < a.len() && #[trigger] a[j].0 == #[trigger] labels[k];
        assert(a[j].1 == label_count(labels, a[j].0));
        assert(a[j] == b[i]);
    }
    lemma_rising_entries_equal(a, b);
}

/// The summary as text: one line `label (count)` per entry.
pub open spec fn summary_text(entries: Seq<(Seq<char>, nat)>) -> Seq<char>
    decreases entries.len(),
{
    if entries.len() == 0 {
        Seq::empty()
    } else {
        summary_text(entries.drop_last()) + entries.last().0 + " ("@ + nat_text(entries.last().1)
            + ")\n"@
    }
}

/// The most characters that one message of the tag summary holds.
pub const TAGS_CHUNK: usize = 1500;

/// The labels of the tags, in order.
pub open spec fn tag_labels(tags: Seq<Tag>) -> Seq<Seq<char>> {
    tags.map_values(|t: Tag| t.label@)
}

/// The tag summary of a user, as the messages to send: the summary of the labels (each
/// distinct label once, ascending, with its count; see `is_label_summary`) as lines
/// `label (count)`, cut into pieces of at most `TAGS_CHUNK` characters.
pub fn tags(user_tags: &Vec<Tag>) -> (messages: Vec<String>)
    ensures
        exists|entries: Seq<(Seq<char>, nat)>| #[trigger] is_label_summary(tag_labels(user_tags@), entries)
            && views(messages@) == chunked(summary_text(entries), TAGS_CHUNK as nat),
{
    let mut labels: Vec<String> = Vec::new();
    let mut i: usize = 0;
    while i < user_tags.len()
        invariant
            i <= user_tags@.len(),
            views(labels@) == tag_labels(user_tags@).take(i as int),
        decreases user_tags@.len() - i,
    {
        let l = user_tags[i].label.clone();
        assert(l@ == user_tags@[i as int].label@);
        let ghost before = labels@;
        labels.push(l);
        assert(labels@ == before.push(l));
        assert(views(before).len() == before.len());
        i = i + 1;
        assert forall|j: int| 0 <= j < i implies #[trigger] views(labels@)[j]
            == tag_labels(user_tags@).take(i as int)[j] by {
            if j < i - 1 {
                assert(labels@[j] == before[j]);
                assert(views(before)[j] == tag_labels(user_tags@).take(i - 1)[j]);
            }
        }
        assert(views(labels@) =~= tag_labels(user_tags@).take(i as int));
    }
    assert(tag_labels(user_tags@).take(user_tags@.len() as int) =~= tag_labels(user_tags@));
    let entries = label_counts(&labels);
    let ghost ev = entry_views(entries@);
    let mut text = String::new();
    let mut k: usize = 0;
    while k < entries.len()
        invariant
            k <= entries@.len(),
            ev == entry_views(entries@),
            text@ == summary_text(ev.take(k as int)),
        decreases entries@.len() - k,
    {
        assert(ev.take(k + 1).drop_last() =~= ev.take(k as int));
        assert(ev[k as int] == (entries@[k as int].0@, entries@[k as int].1 as nat));
        text.append(entries[k].0.as_str());
        text.append(" (");
        let n = u64_text(entries[k].1 as u64);
        text.append(n.as_str());
        text.append(")\n");
        k = k + 1;
    }
    assert(ev.take(entries@.len() as int) =~= ev);
    chunk_chars(text.as_str(), TAGS_CHUNK)
}

/// The link to the message of a fav: `https://discordapp.com/channels/server/channel/message`.
pub open spec fn fav_link_text(fav: Fav) -> Seq<char> {
    "https://discordapp.com/channels/"@ + int_text(fav.server_id as int) + "/"@
        + int_text(fav.channel_id as int) + "/"@ + int_text(fav.msg_id as int)
}

/// The link to the message of a fav (see `fav_link_text`).
pub fn fav_link(fav: &Fav) -> (t: String)
    ensures
        t@ == fav_link_text(*fav),
{
    let mut t = String::new();
    t.append("https://discordapp.com/channels/");
    t.append(i64_text(fav.server_id).as_str());
    t.append("/");
    t.append(i64_text(fav.channel_id).as_str());
    t.append("/");
    t.append(i64_text(fav.msg_id).as_str());
    t
}

/// The ids of a fav's message as unsigned numbers, joined by `/`.
pub open spec fn fav_path_text(fav: Fav) -> Seq<char> {
    nat_text((fav.server_id as u64) as nat) + "/"@ + nat_text((fav.channel_id as u64) as nat) + "/"@
        + nat_text((fav.msg_id as u64) as nat)
}

fn fav_path(fav: &Fav) -> (t: String)
    ensures
        t@ == fav_path_text(*fav),
{
    let mut t = u64_text(fav.server_id as u64);
    t.append("/");
    t.append(u64_text(fav.channel_id as u64).as_str());
    t.append("/");
    t.append(u64_text(fav.msg_id as u64).as_str());
    t
}

/// The message to a user whose fav was just blocked.
pub open spec fn blocked_notice_text(fav: Fav) -> Seq<char> {
    "Es wurde gerade ein fav von dir geblockt. https://discordapp.com/channels/"@ + fav_path_text(fav)
}

/// Tells a user that one of their favs was blocked, with the link to it.
pub fn blocked_notice(fav: &Fav) -> (t: String)
    ensures
        t@ == blocked_notice_text(*fav),
{
    let mut t = String::new();
    t.append("Es wurde gerade ein fav von dir geblockt. https://discordapp.com/channels/");
    t.append(fav_path(fav).as_str());
    t
}

/// One line of the fav list of a server: the link and the message's text.
pub open spec fn fav_list_line_text(fav: Fav, content: Seq<char>) -> Seq<char> {
    "https://discord.com/channels/"@ + fav_path_text(fav) + " | "@ + content + "\n"@
}

/// One line of the fav list of a server (see `fav_list_line_text`).
pub fn fav_list_line(fav: &Fav, content: &str) -> (t: String)
    ensures
        t@ == fav_list_line_text(*fav, content@),
{
    let mut t = String::new();
    t.append("https://discord.com/channels/");
    t.append(fav_path(fav).as_str());
    t.append(" | ");
    t.append(content);
    t.append("\n");
    t
}

/// What a reaction on a posted fav asks for.
#[derive(Clone, Copy, Debug, PartialEq, Eq, Structural)]
pub enum FavReaction {
    /// Delete the fav (the wastebasket, by the user who posted it).
    Delete,
    /// Set the fav's labels (the label emoji, by the user who posted it).
    Label,
    /// Send the link to the saved message (the information sign, by anyone).
    Info,
}

/// The wastebasket emoji.
pub open spec fn wastebasket() -> char {
    '\u{1F5D1}'
}

/// The label emoji.
pub open spec fn label_emoji() -> char {
    '\u{1F3F7}'
}

/// What a reaction asks for: an emoji starting with the wastebasket or the label, by the
/// user who posted the fav, deletes or labels it; the information sign (with its variation
/// selector) asks for the link; anything else is ignored.
pub open spec fn fav_reaction_of(emoji: Seq<char>, by_poster: bool) -> Option<FavReaction> {
    if by_poster && emoji.len() > 0 && emoji[0] == wastebasket() {
        Some(FavReaction::Delete)
    } else if by_poster && emoji.len() > 0 && emoji[0] == label_emoji() {
        Some(FavReaction::Label)
    } else if emoji == seq!['\u{2139}', '\u{fe0f}'] {
        Some(FavReaction::Info)
    } else {
        None
    }
}

/// Classifies a reaction on a posted fav (see `fav_reaction_of`).
pub fn fav_reaction(emoji: &str, by_poster: bool) -> (r: Option<FavReaction>)
    ensures
        r == fav_reaction_of(emoji@, by_poster),
{
    let cs = chars_of(emoji);
    if by_poster && cs.len() > 0 && cs[0] == '\u{1F5D1}' {
        Some(FavReaction::Delete)
    } else if by_poster && cs.len() > 0 && cs[0] == '\u{1F3F7}' {
        Some(FavReaction::Label)
    } else if cs.len() == 2 && cs[0] == '\u{2139}' && cs[1] == '\u{fe0f}' {
        assert(cs@ =~= seq!['\u{2139}', '\u{fe0f}']);
        Some(FavReaction::Info)
    } else {
        assert(cs@.len() == 2 ==> cs@ != seq!['\u{2139}', '\u{fe0f}'] || (cs@[0] == '\u{2139}' && cs@[1] == '\u{fe0f}'));
        None
    }
}

/// The pieces of the text between single spaces: joined again with a space they give the
/// text back, and none of them holds a space. Two spaces in a row give an empty piece.
pub open spec fn space_pieces(text: Seq<char>, pieces: Seq<Seq<char>>) -> bool {
    &&& pieces.len() > 0
    &&& joined(pieces, seq![' ']) == text
    &&& forall|i: int, j: int| 0 <= i < pieces.len() && 0 <= j < pieces[i].len() ==> #[trigger] pieces[i][j] != ' '
}

proof fn lemma_no_space_joined_single(pieces: Seq<Seq<char>>)
    requires
        pieces.len() > 1,
    ensures
        joined(pieces, seq![' ']).contains(' '),
{
    let j = joined(pieces.drop_last(), seq![' ']);
    let whole = joined(pieces, seq![' ']);
    assert(whole == j + seq![' '] + pieces.last());
    assert(whole[j.len() as int] == ' ');
}

/// The pieces between single spaces are determined by the text: two lists of pieces of the
/// same text (see `space_pieces`) are equal.
pub proof fn lemma_space_pieces_unique(text: Seq<char>, p: Seq<Seq<char>>, q: Seq<Seq<char>>)
    requires
        space_pieces(text, p),
        space_pieces(text, q),
    ensures
        p == q,
    decreases p.len(),
{
    if p.len() == 1 || q.len() == 1 {
        if p.len() > 1 {
            lemma_no_space_joined_single(p);
            let k = choose|k: int| 0 <= k < text.len() && text[k] == ' ';
            assert(q[0][k] == ' ');
        } else if q.len() > 1 {
            lemma_no_space_joined_single(q);
            let k = choose|k: int| 0 <= k < text.len() && text[k] == ' ';
            assert(p[0][k] == ' ');
        } else {
            assert(p =~= seq![text]);
            assert(q =~= seq![text]);
        }
    } else {
        let pj = joined(p.drop_last(), seq![' ']);
        let qj = joined(q.drop_last(), seq![' ']);
        let pl = p.last();
        let ql = q.last();
        assert(text == pj + seq![' '] + pl);
        assert(text == qj + seq![' '] + ql);
        if pl.len() < ql.len() {
            let k = text.len() - pl.len() - 1;
            assert(text[k] == ' ');
            assert(ql[k - (text.len() - ql.len())] == text[k]);
            assert(ql[k - (text.len() - ql.len())] == q[q.len() - 1][k - (text.len() - ql.len())]);
        } else if ql.len() < pl.len() {
            let k = text.len() - ql.len() - 1;
            assert(text[k] == ' ');
            assert(pl[k - (text.len() - pl.len())] == text[k]);
            assert(pl[k - (text.len() - pl.len())] == p[p.len() - 1][k - (text.len() - pl.len())]);
        }
        assert(pl =~= ql) by {
            assert forall|i: int| 0 <= i < pl.len() implies pl[i] == ql[i] by {
                assert(pl[i] == text[text.len() - pl.len() + i]);
                assert(ql[i] == text[text.len() - ql.len() + i]);
            }
        }
        assert(pj =~= qj) by {
            assert(pj.len() == qj.len());
            assert forall|i: int| 0 <= i < pj.len() implies pj[i] == qj[i] by {
                assert(pj[i] == text[i]);
                assert(qj[i] == text[i]);
            }
        }
        let p1 = p.drop_last();
        let q1 = q.drop_last();
        assert forall|i: int, j: int| 0 <= i < p1.len() && 0 <= j < p1[i].len() implies #[trigger] p1[i][j] != ' ' by {
            assert(p1[i] == p[i]);
        }
        assert forall|i: int, j: int| 0 <= i < q1.len() && 0 <= j < q1[i].len() implies #[trigger] q1[i][j] != ' ' by {
            assert(q1[i] == q[i]);
        }
        lemma_space_pieces_unique(pj, p1, q1);
        assert(p =~= p1.push(pl));
        assert(q =~= q1.push(ql));
    }
}

/// Splits a reply into labels at each space (as `str::split(' ')` does).
pub fn split_labels(text: &str) -> (labels: Vec<String>)
    ensures
        space_pieces(text@, views(labels@)),
{
    let cs = chars_of(text);
    let mut labels: Vec<String> = Vec::new();
    let mut current = String::new();
    let mut i: usize = 0;
    while i < cs.len()
        invariant
            i <= cs@.len(),
            cs@ == text@,
            joined(views(labels@).push(current@), seq![' ']) == cs@.take(i as int),
            forall|a: int, b: int| 0 <= a < labels@.len() && 0 <= b < labels@[a]@.len()
                ==> #[trigger] labels@[a]@[b] != ' ',
            forall|b: int| 0 <= b < current@.len() ==> #[trigger] current@[b] != ' ',
        decreases cs@.len() - i,
    {
        let ghost before = views(labels@).push(current@);
        if cs[i] == ' ' {
            let ghost old_labels = labels@;
            labels.push(current);
            current = String::new();
            proof {
                assert(views(labels@) =~= before);
                let now = views(labels@).push(current@);
                assert(now.drop_last() =~= before);
                assert(now.last() =~= Seq::<char>::empty());
                assert forall|a: int, b: int| 0 <= a < labels@.len() && 0 <= b < labels@[a]@.len()
                    implies #[trigger] labels@[a]@[b] != ' ' by {
                    if a < old_labels.len() {
                        assert(labels@[a] == old_labels[a]);
                    }
                }
            }
        } else {
            push_char(&mut current, cs[i]);
            proof {
                let now = views(labels@).push(current@);
                if before.len() == 1 {
                    assert(now =~= seq![current@]);
                } else {
                    assert(now.drop_last() =~= before.drop_last());
                }
            }
        }
        assert(cs@.take(i + 1) =~= cs@.take(i as int).push(cs@[i as int]));
        i = i + 1;
    }
    let ghost old_labels = labels@;
    let ghost last = current@;
    labels.push(current);
    proof {
        assert(views(labels@) =~= views(old_labels).push(last));
        assert(cs@.take(cs@.len() as int) =~= cs@);
        let v = views(labels@);
        assert forall|a: int, b: int| 0 <= a < v.len() && 0 <= b < v[a].len() implies #[trigger] v[a][b] != ' ' by {
            if a < old_labels.len() {
                assert(labels@[a] == old_labels[a]);
            }
        }
    }
    labels
}

} // verus!
