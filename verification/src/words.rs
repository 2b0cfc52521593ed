//! Word games on text: spongebob case, splitting into words, choosing among words and uwu.
use rand::rngs::StdRng;
use rand::seq::SliceRandom;
use vstd::prelude::*;
use crate::text::{chars_of, push_char, joined, views, join};

verus! {

/// The characters that `char::to_uppercase` gives for `c`.
pub uninterp spec fn upper_case(c: char) -> Seq<char>;

/// The characters that `char::to_lowercase` gives for `c`.
pub uninterp spec fn lower_case(c: char) -> Seq<char>;

/// `char::to_uppercase`: the uppercase mapping of `c`, one or more characters.
#[verifier::external_body]
fn char_upper(c: char) -> (s: String)
    ensures
        s@ == upper_case(c),
{
    c.to_uppercase().collect()
}

/// `char::to_lowercase`: the lowercase mapping of `c`, one or more characters.
#[verifier::external_body]
fn char_lower(c: char) -> (s: String)
    ensures
        s@ == lower_case(c),
{
    c.to_lowercase().collect()
}

/// The first `k` characters in spongebob case: those at even positions upper case, those at
/// odd positions lower case.
pub open spec fn sponge_prefix(s: Seq<char>, k: int) -> Seq<char>
    decreases k,
{
    if k <= 0 {
        Seq::empty()
    } else if (k - 1) % 2 == 0 {
        sponge_prefix(s, k - 1) + upper_case(s[k - 1])
    } else {
        sponge_prefix(s, k - 1) + lower_case(s[k - 1])
    }
}

/// The text in spongebob case.
pub open spec fn spongified(s: Seq<char>) -> Seq<char> {
    sponge_prefix(s, s.len() as int)
}

/// Writes the text in spongebob case: characters at even positions upper case, those at
/// odd positions lower case.
pub fn spongify(text: &str) -> (s: String)
    ensures
        s@ == spongified(text@),
{
    let cs = chars_of(text);
    let mut s = String::new();
    let mut i: usize = 0;
    while i < cs.len()
        invariant
            i <= cs@.len(),
            cs@ == text@,
            s@ == sponge_prefix(cs@, i as int),
        decreases cs@.len() - i,
    {
        if i % 2 == 0 {
            let u = char_upper(cs[i]);
            s.append(u.as_str());
        } else {
            let l = char_lower(cs[i]);
            s.append(l.as_str());
        }
        i = i + 1;
    }
    s
}

/// A character with the Unicode White_Space property.
pub open spec fn is_white(c: char) -> bool {
    ('\u{9}' <= c && c <= '\u{d}') || c == ' ' || c == '\u{85}' || c == '\u{a0}' || c == '\u{1680}'
        || ('\u{2000}' <= c && c <= '\u{200a}') || c == '\u{2028}' || c == '\u{2029}' || c == '\u{202f}'
        || c == '\u{205f}' || c == '\u{3000}'
}

/// Whether the character is white space (see `is_white`).
pub fn is_whitespace(c: char) -> (b: bool)
    ensures
        b == is_white(c),
{
    ('\u{9}' <= c && c <= '\u{d}') || c == ' ' || c == '\u{85}' || c == '\u{a0}' || c == '\u{1680}'
        || ('\u{2000}' <= c && c <= '\u{200a}') || c == '\u{2028}' || c == '\u{2029}' || c == '\u{202f}'
        || c == '\u{205f}' || c == '\u{3000}'
}

/// The text without its leading white space.
pub open spec fn trim_start_of(s: Seq<char>) -> Seq<char>
    decreases s.len(),
{
    if s.len() > 0 && is_white(s[0]) { trim_start_of(s.drop_first()) } else { s }
}

/// The text without its trailing white space.
pub open spec fn trim_end_of(s: Seq<char>) -> Seq<char>
    decreases s.len(),
{
    if s.len() > 0 && is_white(s.last()) { trim_end_of(s.drop_last()) } else { s }
}

/// The text without leading and trailing white space (as `str::trim` gives it).
pub open spec fn trimmed(s: Seq<char>) -> Seq<char> {
    trim_end_of(trim_start_of(s))
}

/// Removes leading and trailing white space (see `trimmed`).
pub fn trim(text: &str) -> (t: String)
    ensures
        t@ == trimmed(text@),
{
    let cs = chars_of(text);
    let mut start: usize = 0;
    assert(cs@.skip(0) =~= cs@);
    while start < cs.len() && is_whitespace(cs[start])
        invariant
            start <= cs@.len(),
            trim_start_of(cs@) == trim_start_of(cs@.skip(start as int)),
        decreases cs@.len() - start,
    {
        assert(cs@.skip(start as int).drop_first() =~= cs@.skip(start + 1));
        start = start + 1;
    }
    let ghost head = cs@.skip(start as int);
    assert(trim_start_of(cs@) == head);
    let mut end: usize = cs.len();
    assert(head.take((end - start) as int) =~= head);
    while end > start && is_whitespace(cs[end - 1])
        invariant
            start <= end <= cs@.len(),
            head == cs@.skip(start as int),
            trim_end_of(head) == trim_end_of(head.take((end - start) as int)),
        decreases end,
    {
        assert(head.take((end - start) as int).drop_last() =~= head.take((end - 1 - start) as int));
        assert(head.take((end - start) as int).last() == cs@[end - 1]);
        end = end - 1;
    }
    let mut t = String::new();
    let mut i: usize = start;
    while i < end
        invariant
            start <= i <= end <= cs@.len(),
            t@ == cs@.subrange(start as int, i as int),
        decreases end - i,
    {
        push_char(&mut t, cs[i]);
        i = i + 1;
        assert(cs@.subrange(start as int, i as int) =~= cs@.subrange(start as int, i - 1).push(cs@[i - 1]));
    }
    assert(head.take((end - start) as int) =~= cs@.subrange(start as int, end as int));
    t
}

/// The words of the first `k` characters, given the word being read so far: the maximal
/// runs of characters that are not white space.
pub open spec fn words_from(s: Seq<char>, k: int, current: Seq<char>, done: Seq<Seq<char>>) -> Seq<Seq<char>>
    decreases s.len() - k,
{
    if k >= s.len() {
        if current.len() > 0 { done.push(current) } else { done }
    } else if is_white(s[k]) {
        words_from(s, k + 1, Seq::empty(), if current.len() > 0 { done.push(current) } else { done })
    } else {
        words_from(s, k + 1, current.push(s[k]), done)
    }
}

/// The words of a text: its maximal runs of characters that are not white space, in order.
pub open spec fn words(s: Seq<char>) -> Seq<Seq<char>> {
    words_from(s, 0, Seq::empty(), Seq::empty())
}

/// Splits the text into its words (see `words`).
pub fn split_whitespace(text: &str) -> (ws: Vec<String>)
    ensures
        views(ws@) == words(text@),
{
    let cs = chars_of(text);
    let mut done: Vec<String> = Vec::new();
    let mut current = String::new();
    let mut i: usize = 0;
    assert(views(done@) =~= Seq::<Seq<char>>::empty());
    while i < cs.len()
        invariant
            i <= cs@.len(),
            cs@ == text@,
            words_from(cs@, i as int, current@, views(done@)) == words(text@),
        decreases cs@.len() - i,
    {
        let c = cs[i];
        if is_whitespace(c) {
            if !current.as_str().is_empty() {
                let ghost before = views(done@);
                let mut w = String::new();
                std::mem::swap(&mut w, &mut current);
                done.push(w);
                assert(views(done@) =~= before.push(w@));
            }
            assert(current@ =~= Seq::<char>::empty());
        } else {
            push_char(&mut current, c);
        }
        i = i + 1;
    }
    if !current.as_str().is_empty() {
        let ghost before = views(done@);
        done.push(current);
        assert(views(done@) =~= before.push(current@));
    }
    done
}

/// The seeded random number generator of the bot.
#[verifier::external_type_specification]
#[verifier::external_body]
pub struct ExStdRng(StdRng);

/// A random element of the options with the given generator, `None` when there is none.
#[verifier::external_body]
fn choose_one(options: &Vec<String>, rng: &mut StdRng) -> (c: Option<String>)
    ensures
        options@.len() == 0 <==> c is None,
        c matches Some(s) ==> exists|i: int| 0 <= i < options@.len() && s@ == #[trigger] options@[i]@,
{
    options.as_slice().choose(rng).cloned()
}

/// `how_many` random picks among the words of the text (repeats allowed), none when the
/// text has no words or `how_many` is not positive.
pub fn choose_words(text: &str, how_many: i64, rng: &mut StdRng) -> (chosen: Vec<String>)
    ensures
        chosen@.len() == if words(text@).len() == 0 || how_many <= 0 { 0 } else { how_many as int },
        forall|k: int| 0 <= k < chosen@.len() ==> words(text@).contains(#[trigger] chosen@[k]@),
{
    let options = split_whitespace(text);
    let mut chosen: Vec<String> = Vec::new();
    if how_many <= 0 {
        return chosen;
    }
    let mut n: i64 = 0;
    while n < how_many
        invariant
            0 <= n <= how_many,
            views(options@) == words(text@),
            chosen@.len() == if options@.len() == 0 { 0 } else { n as int },
            forall|k: int| 0 <= k < chosen@.len() ==> words(text@).contains(#[trigger] chosen@[k]@),
        decreases how_many - n,
    {
        match choose_one(&options, rng) {
            Some(s) => {
                proof {
                    let i = choose|i: int| 0 <= i < options@.len() && s@ == #[trigger] options@[i]@;
                    assert(views(options@)[i] == s@);
                }
                chosen.push(s);
            },
            None => {},
        }
        n = n + 1;
    }
    chosen
}

/// The answer to a choice: the picks joined by `, `.
pub fn choice_reply(chosen: &Vec<String>) -> (t: String)
    ensures
        t@ == joined(views(chosen@), ", "@),
{
    join(chosen, ", ")
}

/// The words of an optional text, none without it.
pub open spec fn option_words(text: Option<&str>) -> Seq<Seq<char>> {
    match text {
        Some(x) => words(x@),
        None => Seq::empty(),
    }
}

/// The number of picks asked for: one when none is given.
pub open spec fn pick_count(how_many: Option<i64>) -> int {
    match how_many {
        Some(k) => k as int,
        None => 1,
    }
}

/// `chosen` are `n` picks among the words (repeats allowed), none when there is no word or
/// `n` is not positive.
pub open spec fn picks_of(ws: Seq<Seq<char>>, n: int, chosen: Seq<Seq<char>>) -> bool {
    &&& chosen.len() == if ws.len() == 0 || n <= 0 { 0 } else { n }
    &&& forall|k: int| 0 <= k < chosen.len() ==> ws.contains(#[trigger] chosen[k])
}

/// Answers `choose`: the words are the text option's (none when it is missing or not
/// text), and the number of picks is the number option's, one when it is missing or not a
/// number; the picks are joined by `, `.
pub fn choose_command(text: Option<&str>, how_many: Option<i64>, rng: &mut StdRng) -> (t: String)
    ensures
        exists|chosen: Seq<Seq<char>>| #[trigger] picks_of(option_words(text), pick_count(how_many), chosen)
            && t@ == joined(chosen, ", "@),
{
    let words_text = match text {
        Some(x) => x,
        None => "",
    };
    let n = match how_many {
        Some(k) => k,
        None => 1,
    };
    let chosen = choose_words(words_text, n, rng);
    let t = choice_reply(&chosen);
    proof {
        if text is None {
            assert(words(""@) =~= Seq::<Seq<char>>::empty()) by {
                reveal_strlit("");
            }
        }
        let c = views(chosen@);
        assert forall|k: int| 0 <= k < c.len() implies option_words(text).contains(#[trigger] c[k]) by {
            assert(c[k] == chosen@[k]@);
        }
        assert(picks_of(option_words(text), pick_count(how_many), c));
    }
    t
}

/// The embed of `uwuify`: titled `UwU`, with the uwu text, the footer that names who asked
/// for it, and its colour.
pub struct UwuEmbed {
    pub author: String,
    pub description: String,
    pub footer: String,
    pub color: u32,
}

/// What uwuifier makes of a text.
pub uninterp spec fn uwuified(text: Seq<char>) -> Seq<char>;

/// uwuifier's `uwuify_str_sse`: the text uwuified. Its result depends on the text alone (its
/// random choices start from a fixed seed). It needs the processor's SSE4.1 instructions
/// and panics on a processor without them; it is called only where the caller has said
/// that the processor has them (see `uwuify_message`).
#[verifier::external_body]
fn uwuify_text(text: &str) -> (r: String)
    ensures
        r@ == uwuified(text@),
{
    uwuifier::uwuify_str_sse(text)
}

/// Answers `uwuify`: the embed with the text uwuified (see `uwuified`) and the footer
/// `uwuified by: ` and the author. `sse41` says whether the processor has the SSE4.1
/// instructions that uwuifier needs (`is_x86_feature_detected!("sse4.1")`); without them
/// nothing is made (`None`).
pub fn uwuify_message(text: &str, author: &str, sse41: bool) -> (r: Option<UwuEmbed>)
    ensures
        sse41 <==> r is Some,
        r matches Some(e) ==> e.author@ == "UwU"@ && e.description@ == uwuified(text@)
            && e.footer@ == "uwuified by: "@ + author@ && e.color == 0xEF42F5,
{
    if !sse41 {
        return None;
    }
    let mut footer = String::from_str("uwuified by: ");
    footer.append(author);
    Some(UwuEmbed { author: String::from_str("UwU"), description: uwuify_text(text), footer, color: 0xEF42F5 })
}

/// The embed of `sponge`: by `Spongebob` with his picture, in yellow, with the text in
/// spongebob case.
pub struct SpongeEmbed {
    pub author: String,
    pub icon_url: String,
    pub color: u32,
    pub description: String,
}

/// Answers `sponge`: the embed for the text option; `None` where the option is missing or
/// not text, and nothing is sent.
pub fn sponge(text: Option<&str>) -> (r: Option<SpongeEmbed>)
    ensures
        match text {
            None => r is None,
            Some(t) => r matches Some(e) && e.author@ == "Spongebob"@
                && e.icon_url@ == "https://cdn.discordapp.com/emojis/598837367343808532.png?v=1"@
                && e.color == 0xFFFF00 && e.description@ == spongified(t@),
        },
{
    match text {
        None => None,
        Some(t) => Some(SpongeEmbed {
            author: String::from_str("Spongebob"),
            icon_url: String::from_str("https://cdn.discordapp.com/emojis/598837367343808532.png?v=1"),
            color: 0xFFFF00,
            description: spongify(t),
        }),
    }
}

} // verus!
