//! The steps of commands that talk to Discord and the database in between: each step takes
//! what happened and says what to do next.
use vstd::prelude::*;
use crate::events::quote_link_text;
use crate::remind::CommandError;
use crate::text::{chars_of, nat_text};

verus! {

/// How long the information reaction on a quote is listened for, in milliseconds.
pub const QUOTE_INFO_WINDOW_MILLIS: u64 = 3_600_000;

/// Where a quote stands.
#[derive(Clone, Copy, Debug, PartialEq, Eq, Structural)]
pub enum QuoteState {
    Start,
    /// The link is read from the command's text.
    Linking,
    /// The linked message is being fetched.
    Fetching { server: u64, channel: u64, message: u64 },
    /// The quote is shown and the information reaction is listened for.
    Shown { server: u64, channel: u64, message: u64 },
    Done,
}

/// What happened during a quote.
#[derive(Debug)]
pub enum QuoteEvent {
    /// The command was used; whether its user opted out.
    Invoked { requester_opted_out: bool },
    /// The command's text, which should hold a link to the message (see
    /// `links::message_link`).
    LinkText(String),
    /// The message was fetched (with whether its author opted out), or it could not be.
    Fetched(Option<bool>),
    /// A reaction on the quote, with its emoji, this long after the quote was shown.
    Reacted { emoji: String, after_millis: u64 },
}

/// What to do during a quote.
#[derive(Debug)]
pub enum QuoteAction {
    /// Send `OptOut is used by you or the quoted`, delete the command's message and fail
    /// with `Fav/Quote OptOut is active`.
    OptedOut,
    /// Read the link from the command's text.
    ReadLink,
    /// The text holds no link that can be read: fail, with nothing sent.
    NoLink,
    /// Fetch the message.
    Fetch { channel: u64, message: u64 },
    /// Answer this and stop.
    Reply(String),
    /// Show the quote, delete the command's message and listen for the information sign.
    Show,
    /// Send the user this link to the quoted message.
    SendLink(String),
    /// Do nothing.
    Ignore,
}

/// The notice when the user or the quoted author opted out.
pub open spec fn optout_notice() -> Seq<char> {
    "OptOut is used by you or the quoted"@
}

/// The error when the user or the quoted author opted out.
pub open spec fn optout_error() -> Seq<char> {
    "Fav/Quote OptOut is active"@
}

/// The notice and the error of an opted-out quote.
pub fn optout_texts() -> (r: (String, String))
    ensures
        r.0@ == optout_notice(),
        r.1@ == optout_error(),
{
    (String::from_str("OptOut is used by you or the quoted"), String::from_str("Fav/Quote OptOut is active"))
}

/// The plain values of a quote action: kind (0 opted out, 1 read link, 2 fetch, 3 reply,
/// 4 show, 5 send link, 6 ignore, 7 no link), text, channel and message.
pub open spec fn quote_action_view(a: QuoteAction) -> (u8, Seq<char>, u64, u64) {
    match a {
        QuoteAction::OptedOut => (0u8, Seq::empty(), 0, 0),
        QuoteAction::ReadLink => (1u8, Seq::empty(), 0, 0),
        QuoteAction::Fetch { channel, message } => (2u8, Seq::empty(), channel, message),
        QuoteAction::Reply(t) => (3u8, t@, 0, 0),
        QuoteAction::Show => (4u8, Seq::empty(), 0, 0),
        QuoteAction::SendLink(t) => (5u8, t@, 0, 0),
        QuoteAction::Ignore => (6u8, Seq::empty(), 0, 0),
        QuoteAction::NoLink => (7u8, Seq::empty(), 0, 0),
    }
}

/// A step of a quote: an opted-out user, or an opted-out author of the fetched message,
/// gets the opt-out notice and error; a text without a readable link fails; a message that cannot be fetched gets `Sorry, I can
/// not find this message.` and nothing else; otherwise the quote is shown, and within an
/// hour the information sign by anyone sends the link.
pub open spec fn quote_step_of(state: QuoteState, event: QuoteEvent) -> (QuoteState, (u8, Seq<char>, u64, u64)) {
    match (state, event) {
        (QuoteState::Start, QuoteEvent::Invoked { requester_opted_out }) => if requester_opted_out {
            (QuoteState::Done, (0u8, Seq::empty(), 0, 0))
        } else {
            (QuoteState::Linking, (1u8, Seq::empty(), 0, 0))
        },
        (QuoteState::Linking, QuoteEvent::LinkText(t)) => match crate::links::message_link(t@) {
            Some((server, channel, message)) =>
                (QuoteState::Fetching { server, channel, message }, (2u8, Seq::empty(), channel, message)),
            None => (QuoteState::Done, (7u8, Seq::empty(), 0, 0)),
        },
        (QuoteState::Fetching { server, channel, message }, QuoteEvent::Fetched(found)) => match found {
            None => (QuoteState::Done, (3u8, "Sorry, I can not find this message."@, 0, 0)),
            Some(true) => (QuoteState::Done, (0u8, Seq::empty(), 0, 0)),
            Some(false) => (QuoteState::Shown { server, channel, message }, (4u8, Seq::empty(), 0, 0)),
        },
        (QuoteState::Shown { server, channel, message }, QuoteEvent::Reacted { emoji, after_millis }) =>
            if emoji@ == seq!['\u{2139}', '\u{fe0f}'] && after_millis < QUOTE_INFO_WINDOW_MILLIS {
                (state, (5u8, quote_link_text(server, channel, message), 0, 0))
            } else {
                (state, (6u8, Seq::empty(), 0, 0))
            },
        (s, _) => (s, (6u8, Seq::empty(), 0, 0)),
    }
}

/// One step of a quote (see `quote_step_of`).
pub fn quote_step(state: QuoteState, event: QuoteEvent) -> (r: (QuoteState, QuoteAction))
    ensures
        quote_step_of(state, event) == (r.0, quote_action_view(r.1)),
{
    match (state, event) {
        (QuoteState::Start, QuoteEvent::Invoked { requester_opted_out }) => if requester_opted_out {
            (QuoteState::Done, QuoteAction::OptedOut)
        } else {
            (QuoteState::Linking, QuoteAction::ReadLink)
        },
        (QuoteState::Linking, QuoteEvent::LinkText(t)) => match crate::links::parse_message_link(t.as_str()) {
            Some((server, channel, message)) =>
                (QuoteState::Fetching { server, channel, message }, QuoteAction::Fetch { channel, message }),
            None => (QuoteState::Done, QuoteAction::NoLink),
        },
        (QuoteState::Fetching { server, channel, message }, QuoteEvent::Fetched(found)) => match found {
            None => (QuoteState::Done, QuoteAction::Reply(String::from_str("Sorry, I can not find this message."))),
            Some(true) => (QuoteState::Done, QuoteAction::OptedOut),
            Some(false) => (QuoteState::Shown { server, channel, message }, QuoteAction::Show),
        },
        (QuoteState::Shown { server, channel, message }, QuoteEvent::Reacted { emoji, after_millis }) => {
            let cs = chars_of(emoji.as_str());
            let info = cs.len() == 2 && cs[0] == '\u{2139}' && cs[1] == '\u{fe0f}';
            assert(info == (cs@ == seq!['\u{2139}', '\u{fe0f}'])) by {
                if cs@.len() == 2 && cs@[0] == '\u{2139}' && cs@[1] == '\u{fe0f}' {
                    assert(cs@ =~= seq!['\u{2139}', '\u{fe0f}']);
                }
            }
            if info && after_millis < QUOTE_INFO_WINDOW_MILLIS {
                (state, QuoteAction::SendLink(crate::events::quote_link(server, channel, message)))
            } else {
                (state, QuoteAction::Ignore)
            }
        },
        (s, _) => (s, QuoteAction::Ignore),
    }
}

/// The user that `userinfo` describes: the first one mentioned; with no mention it fails
/// with `No user mentioned` and sends nothing.
pub fn userinfo_target(mentions: &Vec<u64>) -> (r: Result<u64, String>)
    ensures
        match r {
            Ok(u) => mentions@.len() > 0 && u == mentions@[0],
            Err(e) => mentions@.len() == 0 && e@ == "No user mentioned"@,
        },
{
    if mentions.len() == 0 {
        Err(String::from_str("No user mentioned"))
    } else {
        Ok(mentions[0])
    }
}

/// The value of a decimal text as `str::parse::<u64>` reads it: an optional `+`, then one
/// or more digits, with the value in the range of `u64`; `None` otherwise.
pub open spec fn parsed_u64(s: Seq<char>) -> Option<int> {
    let digits = if s.len() > 0 && s[0] == '+' { s.drop_first() } else { s };
    if digits.len() == 0 || !crate::lastfm::all_digits(digits) {
        None
    } else if crate::lastfm::digits_value(digits) <= u64::MAX {
        Some(crate::lastfm::digits_value(digits))
    } else {
        None
    }
}

/// Reads a number as `str::parse::<u64>` does (see `parsed_u64`).
pub fn parse_u64(text: &str) -> (r: Option<u64>)
    ensures
        match r {
            Some(v) => parsed_u64(text@) == Some(v as int),
            None => parsed_u64(text@) is None,
        },
{
    let cs = chars_of(text);
    let start: usize = if cs.len() > 0 && cs[0] == '+' { 1 } else { 0 };
    let ghost digits = cs@.skip(start as int);
    assert(start == 1 ==> digits =~= cs@.drop_first());
    assert(start == 0 ==> digits =~= cs@);
    if start == cs.len() {
        return None;
    }
    let mut value: u64 = 0;
    let mut i: usize = start;
    while i < cs.len()
        invariant
            start <= i <= cs@.len(),
            start <= 1,
            cs@ == text@,
            digits == cs@.skip(start as int),
            start == 1 ==> digits == cs@.drop_first(),
            start == 0 ==> digits == cs@,
            (start == 1) == (cs@.len() > 0 && cs@[0] == '+'),
            crate::lastfm::all_digits(digits.take(i - start)),
            value == crate::lastfm::digits_value(digits.take(i - start)),
        decreases cs@.len() - i,
    {
        let c = cs[i];
        if c < '0' || c > '9' {
            assert(digits[i - start] == c);
            assert(!crate::lastfm::all_digits(digits));
            return None;
        }
        let d = (c as u32 - '0' as u32) as u64;
        assert(digits.take(i + 1 - start).drop_last() =~= digits.take(i - start));
        assert(digits.take(i + 1 - start).last() == c);
        if value > (u64::MAX - d) / 10 {
            proof {
                assert(value * 10 + d > u64::MAX) by (nonlinear_arith)
                    requires
                        value > (u64::MAX - d) / 10,
                        d <= 9;
                if crate::lastfm::all_digits(digits) {
                    crate::lastfm::lemma_digits_value_grows(digits, i + 1 - start);
                }
            }
            return None;
        }
        assert(value * 10 + d <= u64::MAX) by (nonlinear_arith)
            requires
                value <= (u64::MAX - d) / 10,
                d <= 9;
        value = value * 10 + d;
        i = i + 1;
    }
    assert(digits.take(cs@.len() - start) =~= digits);
    Some(value)
}

/// What a settings command (`set_modlog`, `set_userlog`, `set_muterole`) does first.
#[derive(Clone, Copy, Debug, PartialEq, Eq, Structural)]
pub enum SettingStart {
    /// The argument is not a number: fail with the parse error, before any settings are
    /// read or written and without sending anything.
    InvalidArgument,
    /// Outside a guild: nothing.
    NotInGuild,
    /// Read the guild's settings, then set this value (see `guild_config`).
    LookUp(u64),
}

/// The first step of a settings command: the argument read as `str::parse::<u64>` reads it
/// (see `parsed_u64`), then whether it was used in a guild.
pub fn setting_start(arg: &str, in_guild: bool) -> (r: SettingStart)
    ensures
        r == (match parsed_u64(arg@) {
            None => SettingStart::InvalidArgument,
            Some(v) => if in_guild { SettingStart::LookUp(v as u64) } else { SettingStart::NotInGuild },
        }),
{
    match parse_u64(arg) {
        None => SettingStart::InvalidArgument,
        Some(v) => if in_guild { SettingStart::LookUp(v) } else { SettingStart::NotInGuild },
    }
}

/// The `when` option of `remindme`, the first: missing fails with `MissingOption`, and an
/// option that is not text fails with its name.
pub fn remind_when(opts: &Vec<crate::remind::CommandOption>) -> (r: Result<String, CommandError>)
    ensures
        match r {
            Ok(w) => opts@.len() > 0 && (opts@[0].value matches crate::remind::OptionValue::Text(v) && w@ == v@),
            Err(CommandError::MissingOption) => opts@.len() == 0,
            Err(CommandError::UnknownOption(n)) => opts@.len() > 0
                && opts@[0].value is Other && n@ == opts@[0].name@,
            Err(_) => false,
        },
{
    if opts.len() == 0 {
        return Err(CommandError::MissingOption);
    }
    match &opts[0].value {
        crate::remind::OptionValue::Text(w) => Ok(w.clone()),
        crate::remind::OptionValue::Other => Err(CommandError::UnknownOption(opts[0].name.clone())),
    }
}

/// How the `time` crate shows the moment this many nanoseconds after the Unix epoch, in
/// UTC.
pub uninterp spec fn utc_moment_text(nanos: i128) -> Seq<char>;

/// The last nanosecond that the `time` crate can hold: the end of the year 9999, UTC.
pub open spec fn last_moment_nanos() -> int {
    253_402_300_799_999_999_999
}

/// The moment `nanos` nanoseconds after the Unix epoch as `time::OffsetDateTime` displays
/// it: `OffsetDateTime::from_unix_timestamp_nanos`, formatted with `Display`. That function
/// accepts every moment from the epoch to the end of the year 9999; `None` where it refuses
/// the moment.
#[verifier::external_body]
fn utc_moment(nanos: i128) -> (r: Option<String>)
    ensures
        r matches Some(t) ==> t@ == utc_moment_text(nanos),
        0 <= nanos <= last_moment_nanos() ==> r is Some,
{
    match time::OffsetDateTime::from_unix_timestamp_nanos(nanos) {
        Ok(moment) => Some(format!("{}", moment)),
        Err(_) => None,
    }
}

/// What a reminder needs once its options are read: how long to wait (in milliseconds), when
/// it is due (in nanoseconds since the Unix epoch), the message, the text of the anchor message that
/// the reminder answers later, and the confirmation that names the moment it is due
/// (`None` where the `time` crate cannot show that moment).
pub struct ReminderPlan {
    pub delay_millis: i64,
    pub remind_at_nanos: i128,
    pub message: String,
    pub anchor_text: String,
    pub confirmation: Option<String>,
}

/// The plan of a reminder, as plain values: the delay, the due time and the message; or
/// the error as its kind (0: a missing option, 1: an unknown option) and text.
pub open spec fn plan_of(opts: Seq<crate::remind::CommandOption>, duration: Option<i64>, now: i128)
    -> Result<(int, int, Seq<char>), (u8, Seq<char>)>
{
    if opts.len() == 0 {
        Err((0u8, Seq::empty()))
    } else {
        match opts[0].value {
            crate::remind::OptionValue::Other => Err((1u8, opts[0].name@)),
            crate::remind::OptionValue::Text(w) => match duration {
                None => Err((1u8, w@)),
                Some(d) => match crate::remind::remind_options_of(opts) {
                    Ok((_, m)) => Ok((d as int, now + d * 1_000_000, match m { Some(t) => t, None => Seq::empty() })),
                    Err(e) => Err(e),
                },
            },
        }
    }
}

/// The plain values of a planned reminder.
pub open spec fn plan_view(r: Result<ReminderPlan, CommandError>) -> Result<(int, int, Seq<char>), (u8, Seq<char>)> {
    match r {
        Ok(p) => Ok((p.delay_millis as int, p.remind_at_nanos as int, p.message@)),
        Err(CommandError::MissingOption) => Err((0u8, Seq::empty())),
        Err(CommandError::UnknownOption(o)) => Err((1u8, o@)),
        Err(CommandError::UnknownCommand(c)) => Err((2u8, c@)),
        Err(CommandError::MissingData(d)) => Err((3u8, d@)),
    }
}

/// Plans a reminder from the options and the duration read from the `when` option (`None`
/// where it could not be read, which fails with the option's text; in milliseconds): due
/// `duration` after `now` (in nanoseconds since the Unix epoch), with the message (empty when none is given); the anchor message reads
/// `Remindme Context`, and the confirmation `I will remind you @ ` and the moment it is due.
pub fn plan_reminder(opts: &Vec<crate::remind::CommandOption>, duration: Option<i64>, now_nanos: i128)
    -> (r: Result<ReminderPlan, CommandError>)
    requires
        duration matches Some(d) ==> 0 <= d && now_nanos + d * 1_000_000 <= i128::MAX,
    ensures
        plan_view(r) == plan_of(opts@, duration, now_nanos),
        r matches Ok(p) ==> p.anchor_text@ == "Remindme Context"@,
        r matches Ok(p) ==> (p.confirmation matches Some(c)
            ==> c@ == crate::remind::confirmation_text(utc_moment_text(p.remind_at_nanos))),
        r matches Ok(p) ==> (0 <= p.remind_at_nanos <= last_moment_nanos() ==> p.confirmation is Some),
{
    let when = match remind_when(opts) {
        Ok(w) => w,
        Err(e) => return Err(e),
    };
    let d = match duration {
        None => return Err(CommandError::UnknownOption(when)),
        Some(d) => d,
    };
    match crate::remind::remind_options(opts) {
        Ok((_, m)) => {
            let message = match m {
                Some(t) => t,
                None => String::new(),
            };
            let at = now_nanos + d as i128 * 1_000_000;
            let confirmation = match utc_moment(at) {
                Some(moment) => Some(crate::remind::confirmation(moment.as_str())),
                None => None,
            };
            Ok(ReminderPlan {
                delay_millis: d,
                remind_at_nanos: at,
                message,
                anchor_text: String::from_str("Remindme Context"),
                confirmation,
            })
        },
        Err(e) => Err(e),
    }
}

/// A reminder as stored: the channel, the user, the anchor message it answers, when it is
/// due (in nanoseconds since the Unix epoch) and the message.
pub struct StoredReminder {
    pub channel: u64,
    pub user: u64,
    pub anchor: u64,
    pub remind_at_nanos: i128,
    pub message: String,
}

/// The reminder to store once the anchor message is posted; without the user's id it
/// fails with `MissingData`, and nothing is stored.
pub fn store_reminder(plan: &ReminderPlan, channel: u64, anchor: u64, user: Option<u64>)
    -> (r: Result<StoredReminder, CommandError>)
    ensures
        match user {
            None => r matches Err(CommandError::MissingData(t)) && t@ == "missing member/user data for interaction"@,
            Some(u) => r matches Ok(s) && s.channel == channel && s.user == u && s.anchor == anchor
                && s.remind_at_nanos == plan.remind_at_nanos && s.message@ == plan.message@,
        },
{
    match user {
        None => Err(CommandError::MissingData(String::from_str("missing member/user data for interaction"))),
        Some(u) => Ok(StoredReminder {
            channel,
            user: u,
            anchor,
            remind_at_nanos: plan.remind_at_nanos,
            message: plan.message.clone(),
        }),
    }
}

/// What is done when a stored reminder is due: the reminder record is deleted, then the
/// anchor message is answered with the reminder.
pub struct DueReminder {
    pub delete_reminder: i64,
    pub reply_to: u64,
    pub text: String,
}

/// The reminder when it is due (see `remind::reminder_text`).
pub fn due_reminder(stored: &StoredReminder, reminder_id: i64) -> (d: DueReminder)
    ensures
        d.delete_reminder == reminder_id,
        d.reply_to == stored.anchor,
        d.text@ == crate::remind::reminder_text(stored.user, stored.message@),
{
    DueReminder {
        delete_reminder: reminder_id,
        reply_to: stored.anchor,
        text: crate::remind::reminder(stored.user, stored.message.as_str()),
    }
}

/// The answer to saving a fav by link: blocked, or saved.
pub fn fav_add_reply(blocked: bool) -> (t: String)
    ensures
        t@ == if blocked { "This fav is blocked"@ } else { "Fav saved!"@ },
{
    if blocked { String::from_str("This fav is blocked") } else { String::from_str("Fav saved!") }
}

/// The fav that saving by link creates: the message's place, who saved it and who wrote
/// it, each id as the database keeps it (the bits of the `u64` read as an `i64`).
#[derive(Clone, Copy, Debug, PartialEq, Eq, Structural)]
pub struct NewFav {
    pub server_id: i64,
    pub channel_id: i64,
    pub msg_id: i64,
    pub user_id: i64,
    pub author_id: i64,
}

/// What saving a fav by link does.
#[derive(Debug)]
pub enum FavAdd {
    /// The message is blocked: nothing is saved, and the user is told this.
    Blocked(String),
    /// The fav is created, and the user is told this.
    Saved { fav: NewFav, reply: String },
}

/// Saves the linked message (`server`, `channel`, `message`, written by `author`) as a fav of
/// `requester`, unless it is blocked.
pub fn fav_add(server: u64, channel: u64, message: u64, requester: u64, author: u64, blocked: bool)
    -> (r: FavAdd)
    ensures
        match r {
            FavAdd::Blocked(t) => blocked && t@ == "This fav is blocked"@,
            FavAdd::Saved { fav, reply } => !blocked && reply@ == "Fav saved!"@
                && fav == (NewFav {
                    server_id: server as i64,
                    channel_id: channel as i64,
                    msg_id: message as i64,
                    user_id: requester as i64,
                    author_id: author as i64,
                }),
        },
{
    if blocked {
        FavAdd::Blocked(fav_add_reply(true))
    } else {
        FavAdd::Saved {
            fav: NewFav {
                server_id: server as i64,
                channel_id: channel as i64,
                msg_id: message as i64,
                user_id: requester as i64,
                author_id: author as i64,
            },
            reply: fav_add_reply(false),
        }
    }
}

/// The answer after labelling a fav saved by a reaction.
pub fn tags_added_reply() -> (t: String)
    ensures
        t@ == "Tags added! To edit tags, react with \u{1F3F7}\u{fe0f} on the posted fav"@,
{
    String::from_str("Tags added! To edit tags, react with \u{1F3F7}\u{fe0f} on the posted fav")
}

/// The most answers a poll may have.
pub const POLL_MAX_ANSWERS: usize = 9;

/// A poll with more than nine answers is refused with `Only up to 9 answers are allowed`.
pub fn poll_check(answers: &Vec<String>) -> (r: Result<(), String>)
    ensures
        match r {
            Ok(()) => answers@.len() <= 9,
            Err(e) => answers@.len() > 9 && e@ == "Only up to 9 answers are allowed"@,
        },
{
    if answers.len() > POLL_MAX_ANSWERS {
        Err(String::from_str("Only up to 9 answers are allowed"))
    } else {
        Ok(())
    }
}

/// The refusal of a self-mute shorter than a minute or longer than a day.
pub fn selfmute_refusal(duration_secs: i64) -> (r: Option<String>)
    ensures
        match r {
            None => crate::misc::SELFMUTE_MIN_SECS <= duration_secs <= crate::misc::SELFMUTE_MAX_SECS,
            Some(t) => !(crate::misc::SELFMUTE_MIN_SECS <= duration_secs <= crate::misc::SELFMUTE_MAX_SECS)
                && t@ == "You can not mute yourself for less than 60 seconds or more than 24 hours!"@,
        },
{
    if crate::misc::selfmute_allowed(duration_secs) {
        None
    } else {
        Some(String::from_str("You can not mute yourself for less than 60 seconds or more than 24 hours!"))
    }
}

/// What `acc slot` does.
#[derive(Debug)]
pub enum SlotOutcome {
    /// Answer this refusal; nothing is played.
    Refused(String),
    /// The machine was played: the reels, the payout, the new balance and the message.
    Played { reels: Vec<Vec<i64>>, payout: i64, balance: i64, text: String },
    /// A number would not fit in an `i64`.
    Overflow,
}

/// Plays the slot machine for a player with `balance` (none without a bank) who bet
/// `bet` (none where the argument is not a number): a bet that is not positive is refused
/// with `Ungültiger Wetteinsatz!`, a missing bank or too small a balance with `Du besitzt
/// entweder keine Bank, oder nicht genügend credits!`; otherwise the reels are spun and the
/// balance becomes the balance plus the payout minus the bet. The spin is always played when
/// the balance plus 49 times the bet fits in an `i64` (the payout is at most 50 times the
/// bet); only beyond that may a number overflow.
pub fn slot(balance: Option<i64>, bet: Option<i64>) -> (r: SlotOutcome)
    ensures
        match bet {
            Some(b) if b > 0 => match balance {
                Some(m) if m >= b => match r {
                    SlotOutcome::Played { reels, payout, balance: updated, text } => {
                        &&& reels@.len() == 3
                        &&& forall|i: int| 0 <= i < 3 ==> crate::slot::is_reel(#[trigger] reels@[i]@)
                        &&& payout == crate::slot::payout_factor(crate::slot::reel_views(reels@), 50, 40, 20) * b
                        &&& updated == m + (payout - b)
                        &&& text@ == crate::slot::slot_text(crate::slot::reel_views(reels@), payout, updated)
                    },
                    SlotOutcome::Overflow => m + 49 * b > i64::MAX,
                    SlotOutcome::Refused(_) => false,
                },
                _ => r matches SlotOutcome::Refused(t)
                    && t@ == "Du besitzt entweder keine Bank, oder nicht genügend credits!"@,
            },
            _ => r matches SlotOutcome::Refused(t) && t@ == "Ungültiger Wetteinsatz!"@,
        },
{
    let b = match bet {
        Some(b) if b > 0 => b,
        _ => return SlotOutcome::Refused(String::from_str("Ungültiger Wetteinsatz!")),
    };
    let m = match balance {
        Some(m) if m >= b => m,
        _ => return SlotOutcome::Refused(String::from_str("Du besitzt entweder keine Bank, oder nicht genügend credits!")),
    };
    let reels = crate::slot::spin_reels();
    proof {
        let rv = crate::slot::reel_views(reels@);
        assert forall|i: int| 0 <= i < 3 implies (#[trigger] rv[i]).len() >= 3 by {
            assert(rv[i] == reels@[i]@);
            assert(crate::slot::is_reel(reels@[i]@));
        }
    }
    match crate::slot::settle_spin(m, b, reels.as_slice()) {
        Some((payout, updated)) => {
            let text = crate::slot::display_reels(reels.as_slice(), payout, updated);
            SlotOutcome::Played { reels, payout, balance: updated, text }
        },
        None => {
            proof {
                let f = crate::slot::payout_factor(crate::slot::reel_views(reels@), 50, 40, 20);
                assert(0 <= f <= 50);
                assert(0 <= f * b <= 50 * b) by (nonlinear_arith)
                    requires
                        0 <= f <= 50,
                        b > 0,
                ;
            }
            SlotOutcome::Overflow
        },
    }
}

/// The total of the balances of the accounts that exist.
pub open spec fn bank_total(bs: Seq<Option<i64>>) -> int
    decreases bs.len(),
{
    if bs.len() == 0 {
        0
    } else {
        bank_total(bs.drop_last()) + match bs.last() { Some(b) => b as int, None => 0 }
    }
}

/// The recipients' balances after each account that exists gained `amount`.
pub open spec fn credited(bs: Seq<Option<i64>>, amount: int) -> Seq<Option<int>> {
    bs.map_values(|b: Option<i64>| match b { Some(v) => Some(v + amount), None => None })
}

/// What `acc transfer` does.
#[derive(Debug)]
pub enum TransferOutcome {
    /// Answer this refusal; no balance changes.
    Refused(String),
    /// The sender's new balance and the recipients' (none where a recipient has no bank).
    Done { sender: i64, recipients: Vec<Option<i64>> },
    /// A recipient's balance would not fit in an `i64`.
    Overflow,
}

/// Transfers `amount` (none where the argument is not a number) from the sender (none
/// without a bank) to each recipient: an amount that is not positive is refused with
/// `Invalid credit amount!`, a sender without a bank with `Create your own bank first by
/// running 'acc create'`, and a sender whose balance does not cover the amount for every
/// recipient with `You cannot transfer more credits than you have in your bank!`; otherwise
/// the sender loses the amount once per recipient and each recipient with a bank gains it.
pub fn transfer(amount: Option<i64>, sender: Option<i64>, recipients: &Vec<Option<i64>>) -> (r: TransferOutcome)
    ensures
        match amount {
            Some(a) if a > 0 => match sender {
                None => r matches TransferOutcome::Refused(t)
                    && t@ == "Create your own bank first by running 'acc create'"@,
                Some(m) => if recipients@.len() * a > m {
                    r matches TransferOutcome::Refused(t)
                        && t@ == "You cannot transfer more credits than you have in your bank!"@
                } else {
                    match r {
                        TransferOutcome::Done { sender: s2, recipients: rs } => {
                            &&& s2 == m - recipients@.len() * a
                            &&& credited_view(rs@) == credited(recipients@, a as int)
                            &&& (forall|i: int| 0 <= i < recipients@.len() ==> #[trigger] recipients@[i] is Some)
                                ==> s2 + credited_total(credited_view(rs@)) == m + bank_total(recipients@)
                        },
                        TransferOutcome::Overflow => exists|i: int| 0 <= i < recipients@.len()
                            && (#[trigger] recipients@[i] matches Some(v) && v + a > i64::MAX),
                        TransferOutcome::Refused(_) => false,
                    }
                },
            },
            _ => r matches TransferOutcome::Refused(t) && t@ == "Invalid credit amount!"@,
        },
{
    let a = match amount {
        Some(a) if a > 0 => a,
        _ => return TransferOutcome::Refused(String::from_str("Invalid credit amount!")),
    };
    let m = match sender {
        None => return TransferOutcome::Refused(String::from_str("Create your own bank first by running 'acc create'")),
        Some(m) => m,
    };
    let n = recipients.len();
    assert(n as i128 * a as i128 <= 0x7fff_ffff_ffff_ffff_ffff_ffff_ffff_ffffi128) by (nonlinear_arith)
        requires
            0 <= n <= usize::MAX,
            usize::MAX <= 0xffff_ffff_ffff_ffff,
            0 < a <= 0x7fff_ffff_ffff_ffffi64;
    let total: i128 = n as i128 * a as i128;
    assert(total == recipients@.len() * a);
    if total > m as i128 {
        return TransferOutcome::Refused(String::from_str("You cannot transfer more credits than you have in your bank!"));
    }
    let mut rs: Vec<Option<i64>> = Vec::new();
    let mut i: usize = 0;
    while i < recipients.len()
        invariant
            i <= recipients@.len(),
            a > 0,
            amount == Some(a),
            sender == Some(m),
            recipients@.len() * a <= m,
            rs@.len() == i,
            forall|j: int| 0 <= j < i ==> (match #[trigger] rs@[j] {
                Some(v) => Some(v as int),
                None => None,
            }) == credited(recipients@, a as int)[j],
        decreases recipients@.len() - i,
    {
        match recipients[i] {
            Some(b) => match b.checked_add(a) {
                Some(v) => rs.push(Some(v)),
                None => {
                    assert(recipients@[i as int] matches Some(v) && v + a > i64::MAX);
                    return TransferOutcome::Overflow;
                },
            },
            None => rs.push(None),
        }
        i = i + 1;
    }
    proof {
        assert(credited_view(rs@) =~= credited(recipients@, a as int)) by {
            assert forall|j: int| 0 <= j < rs@.len() implies #[trigger] credited_view(rs@)[j] == credited(recipients@, a as int)[j] by {
                assert(credited_view(rs@)[j] == (match rs@[j] { Some(v) => Some(v as int), None => None }));
            }
        }
        if forall|i: int| 0 <= i < recipients@.len() ==> #[trigger] recipients@[i] is Some {
            lemma_transfer_conserves(recipients@, a as int);
        }
    }
    TransferOutcome::Done { sender: (m as i128 - total) as i64, recipients: rs }
}

/// The recipients credited, as plain values.
pub open spec fn credited_view(rs: Seq<Option<i64>>) -> Seq<Option<int>> {
    rs.map_values(|b: Option<i64>| match b { Some(v) => Some(v as int), None => None })
}

/// The total of credited balances.
pub open spec fn credited_total(bs: Seq<Option<int>>) -> int
    decreases bs.len(),
{
    if bs.len() == 0 {
        0
    } else {
        credited_total(bs.drop_last()) + match bs.last() { Some(b) => b, None => 0 }
    }
}

/// A transfer to recipients who all have a bank keeps the total: what the sender loses,
/// the amount once per recipient, the recipients gain.
pub proof fn lemma_transfer_conserves(recipients: Seq<Option<i64>>, amount: int)
    requires
        forall|i: int| 0 <= i < recipients.len() ==> #[trigger] recipients[i] is Some,
    ensures
        credited_total(credited(recipients, amount)) == bank_total(recipients) + recipients.len() * amount,
    decreases recipients.len(),
{
    if recipients.len() > 0 {
        let rest = recipients.drop_last();
        assert forall|i: int| 0 <= i < rest.len() implies #[trigger] rest[i] is Some by {
            assert(rest[i] == recipients[i]);
        }
        lemma_transfer_conserves(rest, amount);
        assert(credited(recipients, amount).drop_last() =~= credited(rest, amount));
        assert(recipients[recipients.len() - 1] is Some);
        assert((recipients.len() - 1) * amount + amount == recipients.len() * amount) by (nonlinear_arith);
    }
}

/// The answer after a transfer: the amount and the recipients' names as written in a list
/// (such as `["anna", "bob"]`).
pub fn transfer_reply(amount: i64, names: &str) -> (t: String)
    ensures
        t@ == "Transferred: "@ + crate::text::int_text(amount as int) + ", to: "@ + names@,
{
    let mut t = String::from_str("Transferred: ");
    t.append(crate::text::i64_text(amount).as_str());
    t.append(", to: ");
    t.append(names);
    t
}

} // verus!
