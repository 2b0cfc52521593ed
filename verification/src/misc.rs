//! Smaller commands: shiny counts, guild emojis, self-mutes and fixed texts.
use vstd::prelude::*;
use crate::text::{i64_text, int_text, join, joined, nat_text, u64_text, views};

verus! {

/// A user's shiny count: what is stored for it.
#[derive(Clone, Copy, Debug, PartialEq, Eq, Structural)]
pub enum ShinyWrite {
    /// The user's count is updated to this amount.
    Update(i64),
    /// A count is created for the user with this amount.
    Create(i64),
}

/// Adds to a user's shiny count: the stored count increased, or a new count in a guild;
/// outside a guild a user without a count gets none.
pub fn shiny(existing: Option<i64>, amount: i64, in_guild: bool) -> (w: Option<ShinyWrite>)
    requires
        existing matches Some(c) ==> i64::MIN <= c + amount <= i64::MAX,
    ensures
        w == (match existing {
            Some(c) => Some(ShinyWrite::Update((c + amount) as i64)),
            None => if in_guild { Some(ShinyWrite::Create(amount)) } else { None },
        }),
{
    match existing {
        Some(c) => Some(ShinyWrite::Update(c + amount)),
        None => if in_guild { Some(ShinyWrite::Create(amount)) } else { None },
    }
}

/// The answer after a shiny count changed.
pub open spec fn shiny_value_text(amount: i64) -> Seq<char> {
    "Shiny value: "@ + int_text(amount as int)
}

/// Writes the answer after a shiny count changed (see `shiny_value_text`).
pub fn respond(amount: i64) -> (t: String)
    ensures
        t@ == shiny_value_text(amount),
{
    let mut t = String::from_str("Shiny value: ");
    t.append(i64_text(amount).as_str());
    t
}

/// The list of shiny counts: a heading, then `name: amount` per user, each on its own line.
pub open spec fn shiny_list_text(rows: Seq<(String, i64)>) -> Seq<char>
    decreases rows.len(),
{
    if rows.len() == 0 {
        "Shinys Tracked\n"@
    } else {
        shiny_list_text(rows.drop_last()) + rows.last().0@ + ": "@ + int_text(rows.last().1 as int) + "\n"@
    }
}

/// Writes the list of shiny counts (see `shiny_list_text`).
pub fn list(rows: &Vec<(String, i64)>) -> (t: String)
    ensures
        t@ == shiny_list_text(rows@),
{
    let mut t = String::from_str("Shinys Tracked\n");
    let mut i: usize = 0;
    while i < rows.len()
        invariant
            i <= rows@.len(),
            t@ == shiny_list_text(rows@.take(i as int)),
        decreases rows@.len() - i,
    {
        assert(rows@.take(i + 1).drop_last() =~= rows@.take(i as int));
        t.append(rows[i].0.as_str());
        t.append(": ");
        t.append(i64_text(rows[i].1).as_str());
        t.append("\n");
        i = i + 1;
    }
    assert(rows@.take(rows@.len() as int) =~= rows@);
    t
}

/// The lines `name: amount` for the users whose count was set, joined by line breaks.
pub open spec fn setshiny_text(names: Seq<Seq<char>>, amount: i64) -> Seq<char> {
    joined(names.map_values(|n: Seq<char>| n + ": "@ + int_text(amount as int)), "\n"@)
}

/// Writes the answer after setting the counts of users (see `setshiny_text`).
pub fn setshiny(names: &Vec<String>, amount: i64) -> (t: String)
    ensures
        t@ == setshiny_text(views(names@), amount),
{
    let ghost want = views(names@).map_values(|n: Seq<char>| n + ": "@ + int_text(amount as int));
    let mut lines: Vec<String> = Vec::new();
    let mut i: usize = 0;
    while i < names.len()
        invariant
            i <= names@.len(),
            want == views(names@).map_values(|n: Seq<char>| n + ": "@ + int_text(amount as int)),
            views(lines@) == want.take(i as int),
        decreases names@.len() - i,
    {
        let mut l = String::new();
        l.append(names[i].as_str());
        l.append(": ");
        l.append(i64_text(amount).as_str());
        let ghost before = lines@;
        lines.push(l);
        assert(views(before).len() == before.len());
        assert(want[i as int] == l@);
        i = i + 1;
        assert forall|j: int| 0 <= j < i implies #[trigger] views(lines@)[j] == want.take(i as int)[j] by {
            if j < i - 1 {
                assert(lines@[j] == before[j]);
                assert(views(before)[j] == want.take(i - 1)[j]);
            }
        }
        assert(views(lines@) =~= want.take(i as int));
    }
    assert(want.take(names@.len() as int) =~= want);
    join(&lines, "\n")
}

/// The lines `Removed shinys for name` for the users whose counts were removed.
pub open spec fn removeshiny_text(names: Seq<Seq<char>>) -> Seq<char> {
    joined(names.map_values(|n: Seq<char>| "Removed shinys for "@ + n), "\n"@)
}

/// Writes the answer after removing the counts of users (see `removeshiny_text`).
pub fn removeshiny(names: &Vec<String>) -> (t: String)
    ensures
        t@ == removeshiny_text(views(names@)),
{
    let ghost want = views(names@).map_values(|n: Seq<char>| "Removed shinys for "@ + n);
    let mut lines: Vec<String> = Vec::new();
    let mut i: usize = 0;
    while i < names.len()
        invariant
            i <= names@.len(),
            want == views(names@).map_values(|n: Seq<char>| "Removed shinys for "@ + n),
            views(lines@) == want.take(i as int),
        decreases names@.len() - i,
    {
        let mut l = String::from_str("Removed shinys for ");
        l.append(names[i].as_str());
        let ghost before = lines@;
        lines.push(l);
        assert(views(before).len() == before.len());
        assert(want[i as int] == l@);
        i = i + 1;
        assert forall|j: int| 0 <= j < i implies #[trigger] views(lines@)[j] == want.take(i as int)[j] by {
            if j < i - 1 {
                assert(lines@[j] == before[j]);
                assert(views(before)[j] == want.take(i - 1)[j]);
            }
        }
        assert(views(lines@) =~= want.take(i as int));
    }
    assert(want.take(names@.len() as int) =~= want);
    join(&lines, "\n")
}

/// A custom emoji of a guild.
#[derive(Debug)]
pub struct GuildEmoji {
    pub id: u64,
    pub name: String,
    pub animated: bool,
}

/// How Discord writes a custom emoji in a message: `<:name:id>`, or `<a:name:id>` when
/// animated (as serenity's `Display` for `Emoji` writes it).
pub open spec fn emoji_text(e: GuildEmoji) -> Seq<char> {
    (if e.animated { "<a:"@ } else { "<:"@ }) + e.name@ + ":"@ + nat_text(e.id as nat) + ">"@
}

/// The first emoji with the name, as written in a message; `None` when there is none.
pub open spec fn find_emoji_of(emojis: Seq<GuildEmoji>, name: Seq<char>) -> Option<Seq<char>>
    decreases emojis.len(),
{
    if emojis.len() == 0 {
        None
    } else if emojis[0].name@ == name {
        Some(emoji_text(emojis[0]))
    } else {
        find_emoji_of(emojis.drop_first(), name)
    }
}

/// The answer to asking for an emoji: the emoji, or the note that there is none by the name.
pub open spec fn emoji_reply_text(emojis: Seq<GuildEmoji>, name: Seq<char>) -> Seq<char> {
    match find_emoji_of(emojis, name) {
        Some(t) => t,
        None => "Could not find the emoji you are looking for!"@,
    }
}

/// Answers asking for a guild emoji by name (see `emoji_reply_text`).
pub fn emoji(emojis: &Vec<GuildEmoji>, name: &str) -> (t: String)
    ensures
        t@ == emoji_reply_text(emojis@, name@),
{
    let wanted = String::from_str(name);
    let mut i: usize = 0;
    assert(emojis@.skip(0) =~= emojis@);
    while i < emojis.len()
        invariant
            i <= emojis@.len(),
            wanted@ == name@,
            find_emoji_of(emojis@, name@) == find_emoji_of(emojis@.skip(i as int), name@),
        decreases emojis@.len() - i,
    {
        let e = &emojis[i];
        assert(emojis@.skip(i as int)[0] == emojis@[i as int]);
        if e.name == wanted {
            let mut t = if e.animated { String::from_str("<a:") } else { String::from_str("<:") };
            t.append(e.name.as_str());
            t.append(":");
            t.append(u64_text(e.id).as_str());
            t.append(">");
            return t;
        }
        assert(emojis@.skip(i as int).drop_first() =~= emojis@.skip(i + 1));
        i = i + 1;
    }
    String::from_str("Could not find the emoji you are looking for!")
}

/// The shortest self-mute, in seconds.
pub const SELFMUTE_MIN_SECS: i64 = 60;

/// The longest self-mute, in seconds: a day.
pub const SELFMUTE_MAX_SECS: i64 = 86_400;

/// A self-mute may last from a minute to a day.
pub fn selfmute_allowed(duration_secs: i64) -> (ok: bool)
    ensures
        ok == (SELFMUTE_MIN_SECS <= duration_secs <= SELFMUTE_MAX_SECS),
{
    !(duration_secs > SELFMUTE_MAX_SECS || duration_secs < SELFMUTE_MIN_SECS)
}

/// The answer when a command is used again too soon: when it can be used again, written out.
pub open spec fn rate_limited_text(wait: Seq<char>) -> Seq<char> {
    "Try again in "@ + wait
}

/// Writes the answer when a command is used again too soon (see `rate_limited_text`).
pub fn rate_limited(wait: &str) -> (t: String)
    ensures
        t@ == rate_limited_text(wait@),
{
    let mut t = String::from_str("Try again in ");
    t.append(wait);
    t
}

/// The answer to `about`, with how long the bot has been running written out.
pub open spec fn about_text(running_for: Seq<char>) -> Seq<char> {
    "A really trashy bot!\nRunning for "@ + running_for + ".\nSource: https://github.com/HansTrashy/trashy_bot"@
}

/// Writes the answer to `about` (see `about_text`).
pub fn about(running_for: &str) -> (t: String)
    ensures
        t@ == about_text(running_for@),
{
    let mut t = String::from_str("A really trashy bot!\nRunning for ");
    t.append(running_for);
    t.append(".\nSource: https://github.com/HansTrashy/trashy_bot");
    t
}

/// The picture that `katzer` posts.
pub fn katzer() -> (url: String)
    ensures
        url@ == "https://cdn.discordapp.com/attachments/217015995385118721/632308780477972480/sinnbild.png"@,
{
    String::from_str("https://cdn.discordapp.com/attachments/217015995385118721/632308780477972480/sinnbild.png")
}

/// The quote that `goldt` posts.
pub fn goldt() -> (t: String)
    ensures
        t@ == "Diese Zeitung ist ein Organ der Niedertracht. Es ist falsch, sie zu lesen. Jemand, der zu dieser Zeitung beiträgt, ist gesellschaftlich absolut inakzeptabel. Es wäre verfehlt, zu einem ihrer Redakteure freundlich oder auch nur höflich zu sein. Man muß so unfreundlich zu ihnen sein, wie es das Gesetz gerade noch zuläßt. Es sind schlechte Menschen, die Falsches tun. - *Max Goldt*"@,
{
    String::from_str("Diese Zeitung ist ein Organ der Niedertracht. Es ist falsch, sie zu lesen. Jemand, der zu dieser Zeitung beiträgt, ist gesellschaftlich absolut inakzeptabel. Es wäre verfehlt, zu einem ihrer Redakteure freundlich oder auch nur höflich zu sein. Man muß so unfreundlich zu ihnen sein, wie es das Gesetz gerade noch zuläßt. Es sind schlechte Menschen, die Falsches tun. - *Max Goldt*")
}

} // verus!
