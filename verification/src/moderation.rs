//! The moderation log: who was muted, unmuted, kicked or banned, and why.
use vstd::prelude::*;
use crate::guild_config::Guild;
use crate::text::{join, joined, nat_text, u64_text, views};

verus! {

/// A member of a guild as the moderation log names them.
#[derive(Debug)]
pub struct Member {
    pub nick: Option<String>,
    pub name: String,
    pub discriminator: u16,
}

/// `nick (name#discriminator)` for a member with a nickname, else `name#discriminator`.
pub open spec fn member_label_text(m: Member) -> Seq<char> {
    let tag = m.name@ + "#"@ + nat_text(m.discriminator as nat);
    match m.nick {
        Some(nick) => nick@ + " ("@ + tag + ")"@,
        None => tag,
    }
}

/// How the moderation log names a member (see `member_label_text`).
pub fn member_label(m: &Member) -> (t: String)
    ensures
        t@ == member_label_text(*m),
{
    let mut tag = String::new();
    tag.append(m.name.as_str());
    tag.append("#");
    tag.append(u64_text(m.discriminator as u64).as_str());
    match &m.nick {
        Some(nick) => {
            let mut t = String::new();
            t.append(nick.as_str());
            t.append(" (");
            t.append(tag.as_str());
            t.append(")");
            t
        },
        None => tag,
    }
}

/// The labels of the members, in order.
pub open spec fn member_labels(ms: Seq<Member>) -> Seq<Seq<char>> {
    ms.map_values(|m: Member| member_label_text(m))
}

/// The members' labels separated by `, `.
pub open spec fn members_text(ms: Seq<Member>) -> Seq<char> {
    joined(member_labels(ms), ", "@)
}

fn members_list(ms: &Vec<Member>) -> (t: String)
    ensures
        t@ == members_text(ms@),
{
    let mut labels: Vec<String> = Vec::new();
    let mut i: usize = 0;
    while i < ms.len()
        invariant
            i <= ms@.len(),
            views(labels@) == member_labels(ms@).take(i as int),
        decreases ms@.len() - i,
    {
        let l = member_label(&ms[i]);
        let ghost before = labels@;
        labels.push(l);
        assert(labels@ == before.push(l));
        assert(views(before).len() == before.len());
        i = i + 1;
        assert forall|j: int| 0 <= j < i implies #[trigger] views(labels@)[j]
            == member_labels(ms@).take(i as int)[j] by {
            if j < i - 1 {
                assert(labels@[j] == before[j]);
                assert(views(before)[j] == member_labels(ms@).take(i - 1)[j]);
            }
        }
        assert(views(labels@) =~= member_labels(ms@).take(i as int));
    }
    assert(member_labels(ms@).take(ms@.len() as int) =~= member_labels(ms@));
    join(&labels, ", ")
}

/// The first words of a log entry: the singular for one member, the plural for more.
pub open spec fn intro_text(count: nat, one: Seq<char>, many: Seq<char>) -> Seq<char> {
    if count > 1 { many } else { one }
}

/// The log entry of a mute: who, for how long (as the duration was written out) and why.
pub open spec fn mute_message_text(ms: Seq<Member>, duration: Seq<char>, reason: Seq<char>) -> Seq<char> {
    intro_text(ms.len(), "Muted user:"@, "Muted users:"@) + " **"@ + members_text(ms) + "** for **"@
        + duration + "**\nPlease note: *"@ + reason + "*"@
}

/// Writes the log entry of a mute (see `mute_message_text`).
pub fn create_mute_message(ms: &Vec<Member>, duration: &str, reason: &str) -> (t: String)
    ensures
        t@ == mute_message_text(ms@, duration@, reason@),
{
    let mut t = String::new();
    if ms.len() > 1 {
        t.append("Muted users:");
    } else {
        t.append("Muted user:");
    }
    t.append(" **");
    t.append(members_list(ms).as_str());
    t.append("** for **");
    t.append(duration);
    t.append("**\nPlease note: *");
    t.append(reason);
    t.append("*");
    t
}

/// The log entry of a ban: who and why.
pub open spec fn ban_message_text(ms: Seq<Member>, reason: Seq<char>) -> Seq<char> {
    intro_text(ms.len(), "Banned user:"@, "Banned users:"@) + " **"@ + members_text(ms)
        + "**\nPlease note: *"@ + reason + "*"@
}

/// Writes the log entry of a ban (see `ban_message_text`).
pub fn create_ban_message(ms: &Vec<Member>, reason: &str) -> (t: String)
    ensures
        t@ == ban_message_text(ms@, reason@),
{
    let mut t = String::new();
    if ms.len() > 1 {
        t.append("Banned users:");
    } else {
        t.append("Banned user:");
    }
    t.append(" **");
    t.append(members_list(ms).as_str());
    t.append("**\nPlease note: *");
    t.append(reason);
    t.append("*");
    t
}

/// The log entry of a kick: who and why.
pub open spec fn kick_message_text(ms: Seq<Member>, reason: Seq<char>) -> Seq<char> {
    intro_text(ms.len(), "Kicked user:"@, "Kicked users:"@) + " **"@ + members_text(ms)
        + "**\nPlease note: *"@ + reason + "*"@
}

/// Writes the log entry of a kick (see `kick_message_text`).
pub fn create_kick_message(ms: &Vec<Member>, reason: &str) -> (t: String)
    ensures
        t@ == kick_message_text(ms@, reason@),
{
    let mut t = String::new();
    if ms.len() > 1 {
        t.append("Kicked users:");
    } else {
        t.append("Kicked user:");
    }
    t.append(" **");
    t.append(members_list(ms).as_str());
    t.append("**\nPlease note: *");
    t.append(reason);
    t.append("*");
    t
}

/// The log entry of an unmute: who.
pub open spec fn unmute_message_text(ms: Seq<Member>) -> Seq<char> {
    intro_text(ms.len(), "Unmuted user:"@, "Unmuted users:"@) + " "@ + members_text(ms)
}

/// Writes the log entry of an unmute (see `unmute_message_text`).
pub fn create_unmute_message(ms: &Vec<Member>) -> (t: String)
    ensures
        t@ == unmute_message_text(ms@),
{
    let mut t = String::new();
    if ms.len() > 1 {
        t.append("Unmuted users:");
    } else {
        t.append("Unmuted user:");
    }
    t.append(" ");
    t.append(members_list(ms).as_str());
    t
}

/// Where a moderation action is logged: the guild's mod log channel, when it has one and
/// the action found at least one member; otherwise nowhere.
pub fn log_channel(modlog_channel: Option<u64>, found_members: usize) -> (r: Option<u64>)
    ensures
        r == (if found_members > 0 { modlog_channel } else { None }),
{
    if found_members > 0 { modlog_channel } else { None }
}

/// What a moderation command does once its input is read.
#[derive(Clone, Copy, Debug, PartialEq, Eq, Structural)]
pub enum ModPlan {
    /// Nothing (outside a guild, or a setting it needs is missing).
    Nothing,
    /// Answers that the guild has no stored settings.
    ConfigMissing,
    /// Acts on the mentioned members, with the role to give or take (for mutes) and the
    /// mod log channel.
    Act { role: Option<u64>, modlog: Option<u64> },
}

/// Plans a mute: it needs a valid duration, a guild, stored settings and a mute role.
pub fn mute_plan(duration_valid: bool, in_guild: bool, config: Option<Guild>) -> (p: ModPlan)
    ensures
        p == (if !duration_valid || !in_guild {
            ModPlan::Nothing
        } else {
            match config {
                None => ModPlan::ConfigMissing,
                Some(g) => match g.mute_role {
                    None => ModPlan::Nothing,
                    Some(r) => ModPlan::Act { role: Some(r), modlog: g.modlog_channel },
                },
            }
        }),
{
    if !duration_valid || !in_guild {
        return ModPlan::Nothing;
    }
    match config {
        None => ModPlan::ConfigMissing,
        Some(g) => match g.mute_role {
            None => ModPlan::Nothing,
            Some(r) => ModPlan::Act { role: Some(r), modlog: g.modlog_channel },
        },
    }
}

/// Plans an unmute: it needs a guild, stored settings and a mute role.
pub fn unmute_plan(in_guild: bool, config: Option<Guild>) -> (p: ModPlan)
    ensures
        p == (if !in_guild {
            ModPlan::Nothing
        } else {
            match config {
                None => ModPlan::ConfigMissing,
                Some(g) => match g.mute_role {
                    None => ModPlan::Nothing,
                    Some(r) => ModPlan::Act { role: Some(r), modlog: g.modlog_channel },
                },
            }
        }),
{
    mute_plan(true, in_guild, config)
}

/// Plans a kick or a ban: it needs a guild and stored settings.
pub fn removal_plan(in_guild: bool, config: Option<Guild>) -> (p: ModPlan)
    ensures
        p == (if !in_guild {
            ModPlan::Nothing
        } else {
            match config {
                None => ModPlan::ConfigMissing,
                Some(g) => ModPlan::Act { role: None, modlog: g.modlog_channel },
            }
        }),
{
    if !in_guild {
        return ModPlan::Nothing;
    }
    match config {
        None => ModPlan::ConfigMissing,
        Some(g) => ModPlan::Act { role: None, modlog: g.modlog_channel },
    }
}

/// The answer when the guild has no stored settings: lower case for a mute, capitalised
/// for the other commands.
pub fn config_missing_reply(for_mute: bool) -> (t: String)
    ensures
        t@ == if for_mute { "server config missing"@ } else { "Server config missing"@ },
{
    if for_mute {
        String::from_str("server config missing")
    } else {
        String::from_str("Server config missing")
    }
}

/// A mentioned user's mute: whether the mute role is given now (only to a user found as a
/// member), when the mute ends (recorded, in milliseconds since the Unix epoch), and after
/// how long the role is taken away again.
#[derive(Clone, Copy, Debug, PartialEq, Eq, Structural)]
pub struct MuteEntry {
    pub user: u64,
    pub role: u64,
    pub give_role: bool,
    pub ends_at_millis: i64,
    pub remove_after_millis: i64,
}

/// The mutes of the mentioned users (`found[i]` says whether `users[i]` is a member), in
/// order: each found member gets the mute role; every mentioned user gets a record of the
/// mute ending `duration` after `now`, and the role taken away after `duration`.
pub fn mute_entries(users: &Vec<u64>, found: &Vec<bool>, role: u64, now_millis: i64, duration_millis: i64)
    -> (es: Vec<MuteEntry>)
    requires
        found@.len() == users@.len(),
        i64::MIN <= now_millis + duration_millis <= i64::MAX,
    ensures
        es@.len() == users@.len(),
        forall|i: int| 0 <= i < es@.len() ==> #[trigger] es@[i] == (MuteEntry {
            user: users@[i],
            role,
            give_role: found@[i],
            ends_at_millis: (now_millis + duration_millis) as i64,
            remove_after_millis: duration_millis,
        }),
{
    let mut es: Vec<MuteEntry> = Vec::new();
    let mut i: usize = 0;
    while i < users.len()
        invariant
            i <= users@.len(),
            found@.len() == users@.len(),
            i64::MIN <= now_millis + duration_millis <= i64::MAX,
            es@.len() == i,
            forall|j: int| 0 <= j < i ==> #[trigger] es@[j] == (MuteEntry {
                user: users@[j],
                role,
                give_role: found@[j],
                ends_at_millis: (now_millis + duration_millis) as i64,
                remove_after_millis: duration_millis,
            }),
        decreases users@.len() - i,
    {
        es.push(MuteEntry {
            user: users[i],
            role,
            give_role: found[i],
            ends_at_millis: now_millis + duration_millis,
            remove_after_millis: duration_millis,
        });
        i = i + 1;
    }
    es
}

/// How far a kick or a ban gets: the members are handled in order, and the first one that
/// cannot be found stops the command with an error; the members before it are handled.
/// `None` when every member is found.
pub fn removal_stop(found: &Vec<bool>) -> (r: Option<usize>)
    ensures
        match r {
            Some(k) => k < found@.len() && !found@[k as int]
                && forall|j: int| 0 <= j < k ==> #[trigger] found@[j],
            None => forall|j: int| 0 <= j < found@.len() ==> #[trigger] found@[j],
        },
{
    let mut i: usize = 0;
    while i < found.len()
        invariant
            i <= found@.len(),
            forall|j: int| 0 <= j < i ==> #[trigger] found@[j],
        decreases found@.len() - i,
    {
        if !found[i] {
            return Some(i);
        }
        i = i + 1;
    }
    None
}

/// What `unmute` does for the mentioned users: every mentioned user's mute record is
/// deleted and the command is confirmed with a reaction. The mute role stays where it is
/// and nothing is sent to the mod log: the requests for both are made but never sent.
#[derive(Debug)]
pub struct Unmute {
    /// Whose mute records are deleted: every mentioned user, in order.
    pub delete_records_of: Vec<u64>,
    /// The reaction on the command's message.
    pub reaction: String,
}

/// Unmutes the mentioned users (see `Unmute`).
pub fn unmute_actions(users: &Vec<u64>) -> (u: Unmute)
    ensures
        u.delete_records_of@ == users@,
        u.reaction@ == "\u{2705}"@,
{
    Unmute { delete_records_of: users.clone(), reaction: String::from_str("\u{2705}") }
}

} // verus!
