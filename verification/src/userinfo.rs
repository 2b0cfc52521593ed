//! Information about a user: when they joined Discord and the server, and their roles.
use chrono::DateTime;
use vstd::prelude::*;
use crate::text::{i64_text, int_text, join, joined, nat_text, u64_text, views};

verus! {

/// What is shown about a user.
pub struct UserInfo {
    pub created_at: String,
    pub created_at_ago: i64,
    pub member: Option<MemberInfo>,
}

/// What is shown about a user as a member of the server.
pub struct MemberInfo {
    pub nick: String,
    pub joined_at: String,
    pub joined_at_ago: String,
    pub roles: Vec<String>,
}

/// The text that chrono writes for the moment `millis` milliseconds after the Unix epoch
/// (UTC) in the given strftime pattern; `None` where chrono has no such moment.
pub uninterp spec fn utc_format_of(millis: i64, pattern: Seq<char>) -> Option<Seq<char>>;

/// The plain value of an optional string.
pub open spec fn opt_text(s: Option<String>) -> Option<Seq<char>> {
    match s {
        Some(t) => Some(t@),
        None => None,
    }
}

/// The pattern of dates in the user information: `day.month.year hours:minutes:seconds`.
pub open spec fn date_pattern() -> Seq<char> {
    "%d.%m.%Y %H:%M:%S"@
}

/// The latest moment this library writes dates for: the end of the year 9999, in
/// milliseconds since the Unix epoch.
pub open spec fn last_writable_millis() -> i64 {
    253402300799999
}

/// chrono's `DateTime::from_timestamp_millis` followed by `format` with the pattern and
/// `to_string`: the moment written in the pattern. The contract names the text; it claims
/// that a moment from the Unix epoch to the end of the year 9999 is within chrono's range,
/// as chrono's documented range of about 262,000 years on either side of year 0 shows.
#[verifier::external_body]
pub(crate) fn utc_format(millis: i64, pattern: &str) -> (r: Option<String>)
    requires
        pattern@ == date_pattern() || pattern@ == "%d.%m.%Y, %H:%M:%S"@,
    ensures
        opt_text(r) == utc_format_of(millis, pattern@),
        0 <= millis <= last_writable_millis() ==> r.is_some(),
{
    match DateTime::from_timestamp_millis(millis) {
        Some(d) => Some(d.format(pattern).to_string()),
        None => None,
    }
}

/// The start of Discord's epoch, in milliseconds since the Unix epoch.
pub const DISCORD_EPOCH: u64 = 1_420_070_400_000;

/// When the user (or anything else with this id) was created, in milliseconds since the
/// Unix epoch: the upper 42 bits of the id count milliseconds since Discord's epoch.
pub open spec fn created_at_millis_of(id: u64) -> int {
    (id >> 22u64) + DISCORD_EPOCH
}

/// When the user with this id was created (see `created_at_millis_of`).
pub fn created_at_millis(id: u64) -> (ms: i64)
    ensures
        ms == created_at_millis_of(id),
        0 <= ms <= last_writable_millis(),
{
    let high = id >> 22u64;
    assert(high <= 0x3ff_ffff_ffffu64) by (bit_vector)
        requires
            high == id >> 22u64;
    (high + DISCORD_EPOCH) as i64
}

/// Division rounding toward zero, as Rust's `/` on integers does.
pub open spec fn div_toward_zero(a: int, b: int) -> int {
    if a >= 0 { a / b } else { -((-a) / b) }
}

/// Whole days from `then` to `now` (milliseconds since the Unix epoch), rounded toward zero
/// as chrono's `TimeDelta::num_days` does.
pub fn days_between(now_millis: i64, then_millis: i64) -> (days: i64)
    ensures
        days == div_toward_zero(now_millis - then_millis, 86_400_000),
{
    let diff: i128 = now_millis as i128 - then_millis as i128;
    if diff >= 0 {
        (diff / 86_400_000) as i64
    } else {
        -((-diff) / 86_400_000) as i64
    }
}

/// The member for whom the server keeps a join date from before the bot knew them.
pub const SPECIAL_USER: u64 = 200_009_451_292_459_011;

/// The server of that member.
pub const SPECIAL_GUILD: u64 = 217_015_995_385_118_721;

/// That member's join date: 26 May 2017, 08:56:00 UTC, in milliseconds since the Unix epoch.
pub const SPECIAL_JOIN_MILLIS: i64 = 1_495_788_960_000;

/// When a member joined the server: the special member's fixed date, else the date Discord
/// gives, if any.
pub open spec fn join_millis(user_id: u64, guild_id: u64, joined_at: Option<i64>) -> Option<i64> {
    if user_id == SPECIAL_USER && guild_id == SPECIAL_GUILD {
        Some(SPECIAL_JOIN_MILLIS)
    } else {
        joined_at
    }
}

/// What Discord gives about a member: nickname, join date and the names of the roles found.
pub struct MemberData {
    pub nick: Option<String>,
    pub joined_at_millis: Option<i64>,
    pub roles: Vec<String>,
}

/// The join date as written, or `Unknown`.
pub open spec fn joined_text(joined: Option<i64>) -> Seq<char> {
    match joined {
        Some(ms) => match utc_format_of(ms, date_pattern()) {
            Some(t) => t,
            None => "Unknown"@,
        },
        None => "Unknown"@,
    }
}

/// The days since joining as written, or `Unknown`.
pub open spec fn joined_ago_text(joined: Option<i64>, now_millis: i64) -> Seq<char> {
    match joined {
        Some(ms) => int_text(div_toward_zero(now_millis - ms, 86_400_000)),
        None => "Unknown"@,
    }
}

/// `name#discriminator`.
pub open spec fn user_tag_text(name: Seq<char>, discriminator: u16) -> Seq<char> {
    name + "#"@ + nat_text(discriminator as nat)
}

fn user_tag(name: &str, discriminator: u16) -> (t: String)
    ensures
        t@ == user_tag_text(name@, discriminator),
{
    let mut t = String::from_str(name);
    t.append("#");
    t.append(u64_text(discriminator as u64).as_str());
    t
}

/// Gathers what is shown about a user at `now_millis`: the creation date from the id and
/// the days since; for a member, the nickname (or `name#discriminator`), the join date and
/// the days since (or `Unknown`) and the roles.
pub fn user_info(
    user_id: u64,
    name: &str,
    discriminator: u16,
    guild: Option<(u64, MemberData)>,
    now_millis: i64,
) -> (info: UserInfo)
    ensures
        Some(info.created_at@) == utc_format_of(created_at_millis_of(user_id) as i64, date_pattern()),
        info.created_at_ago == div_toward_zero(now_millis - created_at_millis_of(user_id), 86_400_000),
        match guild {
            None => info.member is None,
            Some((guild_id, data)) => {
                &&& info.member is Some
                &&& info.member.unwrap().nick@ == match data.nick {
                    Some(n) => n@,
                    None => user_tag_text(name@, discriminator),
                }
                &&& info.member.unwrap().joined_at@
                    == joined_text(join_millis(user_id, guild_id, data.joined_at_millis))
                &&& info.member.unwrap().joined_at_ago@
                    == joined_ago_text(join_millis(user_id, guild_id, data.joined_at_millis), now_millis)
                &&& views(info.member.unwrap().roles@) == views(data.roles@)
            },
        },
{
    let created = created_at_millis(user_id);
    let created_at = match utc_format(created, "%d.%m.%Y %H:%M:%S") {
        Some(t) => t,
        None => String::new(),
    };
    let created_at_ago = days_between(now_millis, created);
    let member = match guild {
        None => None,
        Some((guild_id, data)) => {
            let joined = if user_id == SPECIAL_USER && guild_id == SPECIAL_GUILD {
                Some(SPECIAL_JOIN_MILLIS)
            } else {
                data.joined_at_millis
            };
            let (joined_at, joined_at_ago) = match joined {
                Some(ms) => {
                    let text = match utc_format(ms, "%d.%m.%Y %H:%M:%S") {
                        Some(t) => t,
                        None => String::from_str("Unknown"),
                    };
                    (text, i64_text(days_between(now_millis, ms)))
                },
                None => (String::from_str("Unknown"), String::from_str("Unknown")),
            };
            let nick = match data.nick {
                Some(n) => n,
                None => user_tag(name, discriminator),
            };
            Some(MemberInfo { nick, joined_at, joined_at_ago, roles: data.roles })
        },
    };
    UserInfo { created_at, created_at_ago, member }
}

/// The shown text of an optional member field, or `Unknown`.
pub open spec fn or_unknown(t: Option<Seq<char>>) -> Seq<char> {
    match t {
        Some(s) => s,
        None => "Unknown"@,
    }
}

/// The body of the user information.
pub open spec fn information_body_text(info: UserInfo) -> Seq<char> {
    let (joined, ago, roles) = match info.member {
        Some(m) => (Some(m.joined_at@), Some(m.joined_at_ago@), Some(joined(views(m.roles@), ", "@))),
        None => (None, None, None),
    };
    "**Joined discord:** "@ + info.created_at@ + " ("@ + int_text(info.created_at_ago as int)
        + " days ago)\n\n**Joined this server:** "@ + or_unknown(joined) + " ("@ + or_unknown(ago)
        + " days ago)\n\n**Roles:** "@ + or_unknown(roles)
}

/// Writes the body of the user information (see `information_body_text`).
pub fn information_body(info: &UserInfo) -> (t: String)
    ensures
        t@ == information_body_text(*info),
{
    let mut t = String::from_str("**Joined discord:** ");
    t.append(info.created_at.as_str());
    t.append(" (");
    t.append(i64_text(info.created_at_ago).as_str());
    t.append(" days ago)\n\n**Joined this server:** ");
    match &info.member {
        Some(m) => {
            t.append(m.joined_at.as_str());
            t.append(" (");
            t.append(m.joined_at_ago.as_str());
            t.append(" days ago)\n\n**Roles:** ");
            t.append(join(&m.roles, ", ").as_str());
        },
        None => {
            t.append("Unknown");
            t.append(" (");
            t.append("Unknown");
            t.append(" days ago)\n\n**Roles:** ");
            t.append("Unknown");
        },
    }
    t
}

/// The footer of the user information: `name#discriminator | id: id`.
pub open spec fn footer_text(name: Seq<char>, discriminator: u16, id: u64) -> Seq<char> {
    user_tag_text(name, discriminator) + " | id: "@ + nat_text(id as nat)
}

/// Writes the footer of the user information (see `footer_text`).
pub fn userinfo_footer(name: &str, discriminator: u16, id: u64) -> (t: String)
    ensures
        t@ == footer_text(name@, discriminator, id),
{
    let mut t = user_tag(name, discriminator);
    t.append(" | id: ");
    t.append(u64_text(id).as_str());
    t
}

} // verus!
