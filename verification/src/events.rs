//! What the bot posts on gateway events: members joining and leaving, the list of active
//! threads, quotes and the reactions that save favs.
use vstd::prelude::*;
use crate::text::{i64_text, int_text, nat_text, u64_text};
use crate::guild_config::Guild;
use crate::userinfo::{opt_text, utc_format, utc_format_of};

verus! {

/// The user log entry for a member who joined: when they joined Discord.
pub open spec fn member_join_text(created_at: Seq<char>, days_ago: i64) -> Seq<char> {
    "**Joined discord:** "@ + created_at + " ("@ + int_text(days_ago as int)
        + " days ago)\n\n**Has joined this server**"@
}

/// Writes the user log entry for a member who joined (see `member_join_text`).
pub fn member_join_body(created_at: &str, days_ago: i64) -> (t: String)
    ensures
        t@ == member_join_text(created_at@, days_ago),
{
    let mut t = String::from_str("**Joined discord:** ");
    t.append(created_at);
    t.append(" (");
    t.append(i64_text(days_ago).as_str());
    t.append(" days ago)\n\n**Has joined this server**");
    t
}

/// The user log entry for a member who left: when they joined Discord.
pub open spec fn member_leave_text(created_at: Seq<char>, days_ago: i64) -> Seq<char> {
    "**Joined discord:** "@ + created_at + " ("@ + int_text(days_ago as int)
        + " days ago)\n\n**Has left the server.**"@
}

/// Writes the user log entry for a member who left (see `member_leave_text`).
pub fn member_leave_body(created_at: &str, days_ago: i64) -> (t: String)
    ensures
        t@ == member_leave_text(created_at@, days_ago),
{
    let mut t = String::from_str("**Joined discord:** ");
    t.append(created_at);
    t.append(" (");
    t.append(i64_text(days_ago).as_str());
    t.append(" days ago)\n\n**Has left the server.**");
    t
}

/// What follows when a member joins a guild with stored settings: the entry in the user log
/// channel (if the guild has one), and the mute role given back to a member who was muted
/// when they left.
#[derive(Clone, Copy, Debug, PartialEq, Eq, Structural)]
pub struct JoinActions {
    pub log_channel: Option<u64>,
    pub restore_mute_role: Option<u64>,
}

/// Decides what follows a member joining: nothing without stored settings; else the user
/// log entry where a user log channel is set and the mute role where the member is still
/// muted and a mute role is set.
pub fn member_join_actions(config: Option<Guild>, still_muted: bool) -> (a: JoinActions)
    ensures
        a == (match config {
            None => JoinActions { log_channel: None, restore_mute_role: None },
            Some(g) => JoinActions {
                log_channel: g.userlog_channel,
                restore_mute_role: if still_muted { g.mute_role } else { None },
            },
        }),
{
    match config {
        None => JoinActions { log_channel: None, restore_mute_role: None },
        Some(g) => JoinActions {
            log_channel: g.userlog_channel,
            restore_mute_role: if still_muted { g.mute_role } else { None },
        },
    }
}

/// Where a member leaving is logged: the user log channel of the stored settings, if any.
pub fn member_leave_channel(config: Option<Guild>) -> (c: Option<u64>)
    ensures
        c == (match config {
            None => None,
            Some(g) => g.userlog_channel,
        }),
{
    match config {
        None => None,
        Some(g) => g.userlog_channel,
    }
}

/// A thread of the guild: whether it is public, whether it is archived and locked (where
/// Discord says), its member and message counts (where known) and its mention.
pub struct ThreadInfo {
    pub public: bool,
    pub archived_locked: Option<(bool, bool)>,
    pub member_count: Option<u8>,
    pub message_count: Option<u8>,
    pub mention: String,
}

/// A count written with at least two digits (zero-padded, as `{:02}` writes it).
pub open spec fn two_digits(n: u8) -> Seq<char> {
    if n < 10 { "0"@ + nat_text(n as nat) } else { nat_text(n as nat) }
}

fn two_digits_text(n: u8) -> (t: String)
    ensures
        t@ == two_digits(n),
{
    if n < 10 {
        let mut t = String::from_str("0");
        t.append(u64_text(n as u64).as_str());
        t
    } else {
        u64_text(n as u64)
    }
}

/// The thread is listed: public, with its metadata saying neither archived nor locked.
pub open spec fn is_active_thread(t: ThreadInfo) -> bool {
    &&& t.public
    &&& t.archived_locked matches Some((archived, locked)) && !archived && !locked
}

/// The line of an active thread: counts (zero when unknown) and its mention.
pub open spec fn thread_line(t: ThreadInfo) -> Seq<char> {
    let members = match t.member_count { Some(n) => n, None => 0u8 };
    let messages = match t.message_count { Some(n) => n, None => 0u8 };
    "User: "@ + two_digits(members) + "+ | Messages: "@ + two_digits(messages) + "+| "@ + t.mention@ + " \n"@
}

/// The list of active threads: a line per active thread, in order.
pub open spec fn active_threads_text(ts: Seq<ThreadInfo>) -> Seq<char>
    decreases ts.len(),
{
    if ts.len() == 0 {
        Seq::empty()
    } else if is_active_thread(ts.last()) {
        active_threads_text(ts.drop_last()) + thread_line(ts.last())
    } else {
        active_threads_text(ts.drop_last())
    }
}

/// Writes the list of active threads (see `active_threads_text`).
pub fn active_threads(ts: &Vec<ThreadInfo>) -> (text: String)
    ensures
        text@ == active_threads_text(ts@),
{
    let mut text = String::new();
    let mut i: usize = 0;
    while i < ts.len()
        invariant
            i <= ts@.len(),
            text@ == active_threads_text(ts@.take(i as int)),
        decreases ts@.len() - i,
    {
        assert(ts@.take(i + 1).drop_last() =~= ts@.take(i as int));
        let t = &ts[i];
        let active = match t.archived_locked {
            Some((archived, locked)) => t.public && !archived && !locked,
            None => false,
        };
        if active {
            let members = match t.member_count { Some(n) => n, None => 0u8 };
            let messages = match t.message_count { Some(n) => n, None => 0u8 };
            text.append("User: ");
            text.append(two_digits_text(members).as_str());
            text.append("+ | Messages: ");
            text.append(two_digits_text(messages).as_str());
            text.append("+| ");
            text.append(t.mention.as_str());
            text.append(" \n");
        }
        i = i + 1;
    }
    assert(ts@.take(ts@.len() as int) =~= ts@);
    text
}

/// The green book emoji.
pub open spec fn green_book() -> char {
    '\u{1F4D7}'
}

/// A reaction saves the message as a fav when its emoji starts with the green book.
pub fn is_fav_reaction(emoji: &str) -> (r: bool)
    ensures
        r == (emoji@.len() > 0 && emoji@[0] == green_book()),
{
    let cs = crate::text::chars_of(emoji);
    cs.len() > 0 && cs[0] == '\u{1F4D7}'
}

/// The question for the labels of a fav just saved, quoting its message.
pub open spec fn tags_request_text(content: Seq<char>) -> Seq<char> {
    "Tags please! (space-separated): "@ + content
}

/// Writes the question for the labels of a fav just saved (see `tags_request_text`).
pub fn tags_request(content: &str) -> (t: String)
    ensures
        t@ == tags_request_text(content@),
{
    let mut t = String::from_str("Tags please! (space-separated): ");
    t.append(content);
    t
}

/// How quotes and favs write when a message was sent: `day.month.year, hours:minutes:seconds`.
pub open spec fn quote_date_pattern() -> Seq<char> {
    "%d.%m.%Y, %H:%M:%S"@
}

/// Who shows a quoted message, and how the footer names them.
#[derive(Clone, Copy, Debug, PartialEq, Eq, Structural)]
pub enum QuoteKind {
    /// A quote by link: `Quoted by:`.
    Quote,
    /// A posted fav: `Fav by:`.
    Fav,
    /// A fav shown for labelling: `Zitiert von:`, without the channel.
    Untagged,
}

/// The footer of a quoted message: when it was sent (UTC), the channel (`-` when unknown)
/// and who shows it.
pub open spec fn quote_footer_text(kind: QuoteKind, sent: Seq<char>, channel: Option<Seq<char>>, by: Seq<char>) -> Seq<char> {
    let channel_name = match channel { Some(c) => c, None => "-"@ };
    match kind {
        QuoteKind::Quote => sent + " (UTC) | #"@ + channel_name + " | Quoted by: "@ + by,
        QuoteKind::Fav => sent + " (UTC) | #"@ + channel_name + " | Fav by: "@ + by,
        QuoteKind::Untagged => sent + " | Zitiert von: "@ + by,
    }
}

/// Writes the footer of a quoted message sent at `sent_millis` (milliseconds since the Unix
/// epoch): the date as chrono writes it (see `quote_footer_text`); `None` where chrono has
/// no such moment.
pub fn quote_footer(kind: QuoteKind, sent_millis: i64, channel: Option<String>, by: &str) -> (t: Option<String>)
    ensures
        match utc_format_of(sent_millis, quote_date_pattern()) {
            Some(sent) => opt_text(t) == Some(quote_footer_text(kind, sent, opt_text(channel), by@)),
            None => t is None,
        },
{
    let sent = match utc_format(sent_millis, "%d.%m.%Y, %H:%M:%S") {
        Some(s) => s,
        None => return None,
    };
    let mut t = sent;
    match kind {
        QuoteKind::Quote => {
            t.append(" (UTC) | #");
            match &channel { Some(c) => t.append(c.as_str()), None => t.append("-") }
            t.append(" | Quoted by: ");
        },
        QuoteKind::Fav => {
            t.append(" (UTC) | #");
            match &channel { Some(c) => t.append(c.as_str()), None => t.append("-") }
            t.append(" | Fav by: ");
        },
        QuoteKind::Untagged => {
            t.append(" | Zitiert von: ");
        },
    }
    t.append(by);
    Some(t)
}

/// The link to a quoted message.
pub open spec fn quote_link_text(server: u64, channel: u64, message: u64) -> Seq<char> {
    "https://discord.com/channels/"@ + nat_text(server as nat) + "/"@ + nat_text(channel as nat) + "/"@
        + nat_text(message as nat)
}

/// Writes the link to a quoted message (see `quote_link_text`).
pub fn quote_link(server: u64, channel: u64, message: u64) -> (t: String)
    ensures
        t@ == quote_link_text(server, channel, message),
{
    let mut t = String::from_str("https://discord.com/channels/");
    t.append(u64_text(server).as_str());
    t.append("/");
    t.append(u64_text(channel).as_str());
    t.append("/");
    t.append(u64_text(message).as_str());
    t
}

/// An attachment of a message: its width, where it is an image, and its address.
pub struct Attachment {
    pub width: Option<u64>,
    pub url: String,
}

/// The address of the first attachment that is an image (that has a width).
pub open spec fn first_image_of(atts: Seq<Attachment>) -> Option<Seq<char>>
    decreases atts.len(),
{
    if atts.len() == 0 {
        None
    } else if atts[0].width is Some {
        Some(atts[0].url@)
    } else {
        first_image_of(atts.drop_first())
    }
}

/// The image shown with a quote (see `first_image_of`).
pub fn first_image(atts: &Vec<Attachment>) -> (r: Option<String>)
    ensures
        opt_text(r) == first_image_of(atts@),
{
    let mut i: usize = 0;
    assert(atts@.skip(0) =~= atts@);
    while i < atts.len()
        invariant
            i <= atts@.len(),
            first_image_of(atts@) == first_image_of(atts@.skip(i as int)),
        decreases atts@.len() - i,
    {
        assert(atts@.skip(i as int)[0] == atts@[i as int]);
        if atts[i].width.is_some() {
            return Some(atts[i].url.clone());
        }
        assert(atts@.skip(i as int).drop_first() =~= atts@.skip(i + 1));
        i = i + 1;
    }
    None
}

} // verus!
