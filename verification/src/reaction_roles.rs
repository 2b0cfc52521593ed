//! Roles that members give themselves by reacting: the list, the posted groups and which
//! role a reaction stands for.
use vstd::prelude::*;
use crate::fav::{entry_views, is_label_summary, label_counts};
use crate::text::views;

verus! {

/// A role that members get by reacting with the emoji; roles are shown in named groups.
#[derive(Debug)]
pub struct ReactionRole {
    pub id: i64,
    pub server_id: i64,
    pub role_id: i64,
    pub role_name: String,
    pub role_group: String,
    pub emoji: String,
}

/// The list of reaction roles: `emoji | group | role` per role.
pub open spec fn list_text(roles: Seq<ReactionRole>) -> Seq<char>
    decreases roles.len(),
{
    if roles.len() == 0 {
        Seq::empty()
    } else {
        let r = roles.last();
        list_text(roles.drop_last()) + r.emoji@ + " | "@ + r.role_group@ + " | "@ + r.role_name@ + "\n"@
    }
}

/// Writes the list of reaction roles (see `list_text`).
pub fn list(roles: &Vec<ReactionRole>) -> (t: String)
    ensures
        t@ == list_text(roles@),
{
    let mut t = String::new();
    let mut i: usize = 0;
    while i < roles.len()
        invariant
            i <= roles@.len(),
            t@ == list_text(roles@.take(i as int)),
        decreases roles@.len() - i,
    {
        assert(roles@.take(i + 1).drop_last() =~= roles@.take(i as int));
        let r = &roles[i];
        t.append(r.emoji.as_str());
        t.append(" | ");
        t.append(r.role_group.as_str());
        t.append(" | ");
        t.append(r.role_name.as_str());
        t.append("\n");
        i = i + 1;
    }
    assert(roles@.take(roles@.len() as int) =~= roles@);
    t
}

/// The roles of the group, in order.
pub open spec fn group_members(roles: Seq<ReactionRole>, group: Seq<char>) -> Seq<ReactionRole>
    decreases roles.len(),
{
    if roles.len() == 0 {
        Seq::empty()
    } else if roles.last().role_group@ == group {
        group_members(roles.drop_last(), group).push(roles.last())
    } else {
        group_members(roles.drop_last(), group)
    }
}

/// The lines of a group's message: `emoji | role` per role.
pub open spec fn group_body(members: Seq<ReactionRole>) -> Seq<char>
    decreases members.len(),
{
    if members.len() == 0 {
        Seq::empty()
    } else {
        group_body(members.drop_last()) + members.last().emoji@ + " | "@ + members.last().role_name@ + "\n"@
    }
}

/// The emojis of the roles, in order.
pub open spec fn emojis_of(members: Seq<ReactionRole>) -> Seq<Seq<char>> {
    members.map_values(|r: ReactionRole| r.emoji@)
}

/// The message posted for a group of roles, and the emojis reacted with under it.
pub struct GroupPost {
    pub title: String,
    pub body: String,
    pub emojis: Vec<String>,
}

/// The post of the group: titled `Rollengruppe: group`, its roles' lines and emojis.
pub open spec fn is_group_post(p: GroupPost, roles: Seq<ReactionRole>, group: Seq<char>) -> bool {
    &&& p.title@ == "Rollengruppe: "@ + group
    &&& p.body@ == group_body(group_members(roles, group))
    &&& views(p.emojis@) == emojis_of(group_members(roles, group))
}

/// The group names of the roles, in order.
pub open spec fn group_names(roles: Seq<ReactionRole>) -> Seq<Seq<char>> {
    roles.map_values(|r: ReactionRole| r.role_group@)
}

fn group_post(roles: &Vec<ReactionRole>, group: &String) -> (p: GroupPost)
    ensures
        is_group_post(p, roles@, group@),
{
    let mut title = String::from_str("Rollengruppe: ");
    title.append(group.as_str());
    let mut body = String::new();
    let mut emojis: Vec<String> = Vec::new();
    let mut i: usize = 0;
    while i < roles.len()
        invariant
            i <= roles@.len(),
            body@ == group_body(group_members(roles@.take(i as int), group@)),
            views(emojis@) == emojis_of(group_members(roles@.take(i as int), group@)),
        decreases roles@.len() - i,
    {
        let ghost before = group_members(roles@.take(i as int), group@);
        assert(roles@.take(i + 1).drop_last() =~= roles@.take(i as int));
        let r = &roles[i];
        if r.role_group == *group {
            body.append(r.emoji.as_str());
            body.append(" | ");
            body.append(r.role_name.as_str());
            body.append("\n");
            let e = r.emoji.clone();
            let ghost old_emojis = emojis@;
            emojis.push(e);
            proof {
                let now = group_members(roles@.take(i + 1), group@);
                assert(now == before.push(roles@[i as int]));
                assert(now.drop_last() =~= before);
                assert(views(emojis@) =~= views(old_emojis).push(e@));
                assert(emojis_of(now) =~= emojis_of(before).push(roles@[i as int].emoji@));
            }
        }
        i = i + 1;
    }
    assert(roles@.take(roles@.len() as int) =~= roles@);
    GroupPost { title, body, emojis }
}

/// The posts of the role groups: one per group, groups in ascending order of their names
/// (each distinct group name of the summary of the group names, see `is_label_summary`).
pub fn postgroups(roles: &Vec<ReactionRole>) -> (posts: Vec<GroupPost>)
    ensures
        exists|entries: Seq<(Seq<char>, nat)>| #[trigger] is_label_summary(group_names(roles@), entries)
            && posts@.len() == entries.len()
            && forall|i: int| 0 <= i < entries.len() ==> is_group_post(#[trigger] posts@[i], roles@, entries[i].0),
{
    let mut names: Vec<String> = Vec::new();
    let mut i: usize = 0;
    while i < roles.len()
        invariant
            i <= roles@.len(),
            views(names@) == group_names(roles@).take(i as int),
        decreases roles@.len() - i,
    {
        let g = roles[i].role_group.clone();
        let ghost before = names@;
        names.push(g);
        assert(views(before).len() == before.len());
        i = i + 1;
        assert forall|j: int| 0 <= j < i implies #[trigger] views(names@)[j] == group_names(roles@).take(i as int)[j] by {
            if j < i - 1 {
                assert(names@[j] == before[j]);
                assert(views(before)[j] == group_names(roles@).take(i - 1)[j]);
            }
        }
        assert(views(names@) =~= group_names(roles@).take(i as int));
    }
    assert(group_names(roles@).take(roles@.len() as int) =~= group_names(roles@));
    let entries = label_counts(&names);
    let ghost ev = entry_views(entries@);
    let mut posts: Vec<GroupPost> = Vec::new();
    let mut k: usize = 0;
    while k < entries.len()
        invariant
            k <= entries@.len(),
            ev == entry_views(entries@),
            posts@.len() == k,
            forall|j: int| 0 <= j < k ==> is_group_post(#[trigger] posts@[j], roles@, ev[j].0),
        decreases entries@.len() - k,
    {
        assert(ev[k as int].0 == entries@[k as int].0@);
        let p = group_post(roles, &entries[k].0);
        posts.push(p);
        k = k + 1;
    }
    posts
}

/// Which messages are watched for role reactions: the posted groups' messages, or none
/// before the groups were posted.
#[derive(Debug)]
pub enum State {
    Active(Vec<u64>),
    NotSet,
}

impl State {
    /// Watches the messages of the posted groups (posted in the channel).
    pub fn set(channel_id: u64, message_ids: Vec<u64>) -> (s: State)
        ensures
            s matches State::Active(ids) && ids@ == message_ids@,
    {
        State::Active(message_ids)
    }
}

/// The role that a reaction stands for: the first role registered for the emoji, where the
/// reaction is a Unicode emoji on a watched message.
pub open spec fn reaction_role_of(state: State, message_id: u64, unicode: bool, registered: Seq<i64>) -> Option<i64> {
    match state {
        State::Active(ids) => if ids@.contains(message_id) && unicode && registered.len() > 0 {
            Some(registered[0])
        } else {
            None
        },
        State::NotSet => None,
    }
}

fn reaction_role(state: &State, message_id: u64, unicode: bool, registered: &Vec<i64>) -> (r: Option<i64>)
    ensures
        r == reaction_role_of(*state, message_id, unicode, registered@),
{
    match state {
        State::Active(ids) => {
            let mut i: usize = 0;
            let mut found = false;
            while i < ids.len()
                invariant
                    i <= ids@.len(),
                    found == exists|j: int| 0 <= j < i && ids@[j] == message_id,
                decreases ids@.len() - i,
            {
                if ids[i] == message_id {
                    found = true;
                }
                i = i + 1;
            }
            if found && unicode && registered.len() > 0 {
                Some(registered[0])
            } else {
                None
            }
        },
        State::NotSet => None,
    }
}

/// The role to give for an added reaction (see `reaction_role_of`); `registered` holds the
/// ids of the roles registered for the emoji.
pub fn add_role(state: &State, message_id: u64, unicode: bool, registered: &Vec<i64>) -> (r: Option<i64>)
    ensures
        r == reaction_role_of(*state, message_id, unicode, registered@),
{
    reaction_role(state, message_id, unicode, registered)
}

/// The role to take away for a removed reaction (see `reaction_role_of`).
pub fn remove_role(state: &State, message_id: u64, unicode: bool, registered: &Vec<i64>) -> (r: Option<i64>)
    ensures
        r == reaction_role_of(*state, message_id, unicode, registered@),
{
    reaction_role(state, message_id, unicode, registered)
}

} // verus!
