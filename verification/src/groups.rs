//! The command groups of the bot: their names, prefixes and commands.
use vstd::prelude::*;
use crate::text::views;

verus! {

/// A command group: its name, the prefix its commands are called with (none: called
/// directly), the command run for the bare prefix and the names of its commands.
pub struct GroupOptions {
    pub name: String,
    pub prefix: Option<String>,
    pub default_command: Option<String>,
    pub commands: Vec<String>,
}

/// The plain values of an optional string.
pub open spec fn opt_view(s: Option<String>) -> Option<Seq<char>> {
    match s {
        Some(t) => Some(t@),
        None => None,
    }
}

fn names(list: &[&str]) -> (v: Vec<String>)
    ensures
        v@.len() == list@.len(),
        forall|i: int| 0 <= i < list@.len() ==> #[trigger] v@[i]@ == list@[i]@,
{
    let mut v: Vec<String> = Vec::new();
    let mut i: usize = 0;
    while i < list.len()
        invariant
            i <= list@.len(),
            v@.len() == i,
            forall|j: int| 0 <= j < i ==> #[trigger] v@[j]@ == list@[j]@,
        decreases list@.len() - i,
    {
        v.push(String::from_str(list[i]));
        i = i + 1;
    }
    v
}

/// General commands: dice, choices, quotes, polls and more.
pub struct General;

impl General {
    /// The group's options.
    pub fn options() -> (g: GroupOptions)
        ensures
            g.name@ == "general"@,
            opt_view(g.prefix) == None::<Seq<char>>,
            opt_view(g.default_command) == None::<Seq<char>>,
            views(g.commands@) == seq!["about"@, "roll"@, "choose"@, "xkcd"@, "quote"@, "userinfo"@, "remindme"@, "spongebob"@, "selfmute"@, "katzer"@, "poll"@],
    {
        let list: [&str; 11] = ["about", "roll", "choose", "xkcd", "quote", "userinfo", "remindme", "spongebob", "selfmute", "katzer", "poll"];
        let commands = names(&list);
        let g = GroupOptions {
            name: String::from_str("general"),
            prefix: None,
            default_command: None,
            commands,
        };
        assert(views(g.commands@) =~= seq!["about"@, "roll"@, "choose"@, "xkcd"@, "quote"@, "userinfo"@, "remindme"@, "spongebob"@, "selfmute"@, "katzer"@, "poll"@]);
        g
    }
}

/// Last.fm: what you listen to.
pub struct Lastfm;

impl Lastfm {
    /// The group's options.
    pub fn options() -> (g: GroupOptions)
        ensures
            g.name@ == "lastfm"@,
            opt_view(g.prefix) == Some("lastfm"@),
            opt_view(g.default_command) == None::<Seq<char>>,
            views(g.commands@) == seq!["register"@, "now"@, "recent"@, "artists"@, "albums"@, "tracks"@],
    {
        let list: [&str; 6] = ["register", "now", "recent", "artists", "albums", "tracks"];
        let commands = names(&list);
        let g = GroupOptions {
            name: String::from_str("lastfm"),
            prefix: Some(String::from_str("lastfm")),
            default_command: None,
            commands,
        };
        assert(views(g.commands@) =~= seq!["register"@, "now"@, "recent"@, "artists"@, "albums"@, "tracks"@]);
        g
    }
}

/// Miscellaneous commands.
pub struct Misc;

impl Misc {
    /// The group's options.
    pub fn options() -> (g: GroupOptions)
        ensures
            g.name@ == "misc"@,
            opt_view(g.prefix) == Some("misc"@),
            opt_view(g.default_command) == None::<Seq<char>>,
            views(g.commands@) == seq!["shiny"@, "list"@, "setshiny"@, "removeshiny"@, "goldt"@, "emoji"@, "optout"@],
    {
        let list: [&str; 7] = ["shiny", "list", "setshiny", "removeshiny", "goldt", "emoji", "optout"];
        let commands = names(&list);
        let g = GroupOptions {
            name: String::from_str("misc"),
            prefix: Some(String::from_str("misc")),
            default_command: None,
            commands,
        };
        assert(views(g.commands@) =~= seq!["shiny"@, "list"@, "setshiny"@, "removeshiny"@, "goldt"@, "emoji"@, "optout"@]);
        g
    }
}

/// The settings of the guild.
pub struct Config;

impl Config {
    /// The group's options.
    pub fn options() -> (g: GroupOptions)
        ensures
            g.name@ == "config"@,
            opt_view(g.prefix) == Some("cfg"@),
            opt_view(g.default_command) == None::<Seq<char>>,
            views(g.commands@) == seq!["show_config"@, "set_modlog"@, "set_muterole"@, "set_userlog"@],
    {
        let list: [&str; 4] = ["show_config", "set_modlog", "set_muterole", "set_userlog"];
        let commands = names(&list);
        let g = GroupOptions {
            name: String::from_str("config"),
            prefix: Some(String::from_str("cfg")),
            default_command: None,
            commands,
        };
        assert(views(g.commands@) =~= seq!["show_config"@, "set_modlog"@, "set_muterole"@, "set_userlog"@]);
        g
    }
}

/// Moderation of members.
pub struct Moderation;

impl Moderation {
    /// The group's options.
    pub fn options() -> (g: GroupOptions)
        ensures
            g.name@ == "moderation"@,
            opt_view(g.prefix) == Some("mod"@),
            opt_view(g.default_command) == None::<Seq<char>>,
            views(g.commands@) == seq!["mute"@, "unmute"@, "kick"@, "ban"@],
    {
        let list: [&str; 4] = ["mute", "unmute", "kick", "ban"];
        let commands = names(&list);
        let g = GroupOptions {
            name: String::from_str("moderation"),
            prefix: Some(String::from_str("mod")),
            default_command: None,
            commands,
        };
        assert(views(g.commands@) =~= seq!["mute"@, "unmute"@, "kick"@, "ban"@]);
        g
    }
}

/// Your account and its credits.
pub struct Account;

impl Account {
    /// The group's options.
    pub fn options() -> (g: GroupOptions)
        ensures
            g.name@ == "account"@,
            opt_view(g.prefix) == Some("acc"@),
            opt_view(g.default_command) == None::<Seq<char>>,
            views(g.commands@) == seq!["create"@, "payday"@, "leaderboard"@, "transfer"@, "slot"@],
    {
        let list: [&str; 5] = ["create", "payday", "leaderboard", "transfer", "slot"];
        let commands = names(&list);
        let g = GroupOptions {
            name: String::from_str("account"),
            prefix: Some(String::from_str("acc")),
            default_command: None,
            commands,
        };
        assert(views(g.commands@) =~= seq!["create"@, "payday"@, "leaderboard"@, "transfer"@, "slot"@]);
        g
    }
}

/// Saving your favourite messages.
pub struct Greenbook;

impl Greenbook {
    /// The group's options.
    pub fn options() -> (g: GroupOptions)
        ensures
            g.name@ == "greenbook"@,
            opt_view(g.prefix) == Some("fav"@),
            opt_view(g.default_command) == Some("post"@),
            views(g.commands@) == seq!["post"@, "untagged"@, "add"@, "tags"@],
    {
        let list: [&str; 4] = ["post", "untagged", "add", "tags"];
        let commands = names(&list);
        let g = GroupOptions {
            name: String::from_str("greenbook"),
            prefix: Some(String::from_str("fav")),
            default_command: Some(String::from_str("post")),
            commands,
        };
        assert(views(g.commands@) =~= seq!["post"@, "untagged"@, "add"@, "tags"@]);
        g
    }
}

/// Self-assignable roles by reaction.
pub struct Roles;

impl Roles {
    /// The group's options.
    pub fn options() -> (g: GroupOptions)
        ensures
            g.name@ == "roles"@,
            opt_view(g.prefix) == Some("roles"@),
            opt_view(g.default_command) == None::<Seq<char>>,
            views(g.commands@) == seq!["list"@, "create"@, "remove"@, "postgroups"@],
    {
        let list: [&str; 4] = ["list", "create", "remove", "postgroups"];
        let commands = names(&list);
        let g = GroupOptions {
            name: String::from_str("roles"),
            prefix: Some(String::from_str("roles")),
            default_command: None,
            commands,
        };
        assert(views(g.commands@) =~= seq!["list"@, "create"@, "remove"@, "postgroups"@]);
        g
    }
}

} // verus!
