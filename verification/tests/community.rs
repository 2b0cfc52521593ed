use std::collections::HashSet;
use trashy_bot::dispatch::{Dispatcher, Event, Listener};
use trashy_bot::guild_config::{set_modlog, set_muterole, set_userlog, ConfigWrite, Guild};
use trashy_bot::lockdown::{everyone_overwrite, lockdown_overwrite, Overwrite, OverwriteKind, State};
use trashy_bot::moderation::{
    config_missing_reply, create_ban_message, create_kick_message, create_mute_message,
    create_unmute_message, log_channel, member_label, mute_plan, removal_plan, unmute_plan, Member,
    ModPlan,
};
use trashy_bot::optout::{OptOutStore, QuoteCheck};
use trashy_bot::reaction_roles::{add_role, list, postgroups, remove_role, ReactionRole};
use trashy_bot::reaction_roles::State as RoleState;
use trashy_bot::rules::{addde, adden, de, en, post, setde, seten, RulesState};

fn member(nick: Option<&str>, name: &str, disc: u16) -> Member {
    Member { nick: nick.map(String::from), name: String::from(name), discriminator: disc }
}

#[test]
fn member_labels() {
    assert_eq!(member_label(&member(Some("Hansi"), "hans", 42)), "Hansi (hans#42)");
    assert_eq!(member_label(&member(None, "hans", 1234)), "hans#1234");
}

#[test]
fn moderation_log_entries() {
    let one = vec![member(None, "a", 1)];
    let two = vec![member(None, "a", 1), member(Some("B"), "b", 2)];
    assert_eq!(
        create_mute_message(&one, "1 hour", "spam"),
        "Muted user: **a#1** for **1 hour**\nPlease note: *spam*"
    );
    assert_eq!(
        create_mute_message(&two, "2 days", "x"),
        "Muted users: **a#1, B (b#2)** for **2 days**\nPlease note: *x*"
    );
    assert_eq!(create_ban_message(&two, "bye"), "Banned users: **a#1, B (b#2)**\nPlease note: *bye*");
    assert_eq!(create_kick_message(&one, "out"), "Kicked user: **a#1**\nPlease note: *out*");
    assert_eq!(create_unmute_message(&two), "Unmuted users: a#1, B (b#2)");
    assert_eq!(log_channel(Some(5), 2), Some(5));
    assert_eq!(log_channel(Some(5), 0), None);
    assert_eq!(log_channel(None, 3), None);
}

#[test]
fn guild_settings() {
    let g = Guild { modlog_channel: Some(1), mute_role: Some(2), userlog_channel: None };
    assert_eq!(
        set_modlog(Some(g), 9),
        ConfigWrite::Update(Guild { modlog_channel: Some(9), mute_role: Some(2), userlog_channel: None })
    );
    assert_eq!(
        set_userlog(Some(g), 9),
        ConfigWrite::Update(Guild { modlog_channel: Some(1), mute_role: Some(2), userlog_channel: Some(9) })
    );
    assert_eq!(
        set_muterole(None, 7),
        ConfigWrite::Create(Guild { modlog_channel: None, mute_role: Some(7), userlog_channel: None })
    );
    assert_eq!(
        set_userlog(None, 9),
        ConfigWrite::Create(Guild { modlog_channel: Some(9), mute_role: None, userlog_channel: None })
    );
    assert_eq!(Guild::default(), Guild { modlog_channel: None, mute_role: None, userlog_channel: None });
}

#[test]
fn opt_out_toggles() {
    let mut store = OptOutStore::new();
    assert!(store.toggle(5));
    assert!(store.contains(5));
    assert_eq!(store.quote_check(5, 6), QuoteCheck::RequesterOptedOut);
    assert_eq!(store.quote_check(6, 5), QuoteCheck::AuthorOptedOut);
    assert_eq!(store.quote_check(6, 7), QuoteCheck::Allowed);
    assert!(!store.toggle(5));
    assert!(!store.contains(5));
    let mut set = HashSet::new();
    set.insert(3);
    let store = OptOutStore::from_set(set.clone());
    assert!(store.contains(3));
    assert_eq!(store.into_set(), set);
}

#[test]
fn lockdown_state() {
    let ows = vec![
        Overwrite { allow: 1, deny: 2, kind: OverwriteKind::Member(10) },
        Overwrite { allow: 4, deny: 0x10, kind: OverwriteKind::Role(99) },
        Overwrite { allow: 0, deny: 0, kind: OverwriteKind::Role(99) },
    ];
    let everyone = everyone_overwrite(&ows, 99).unwrap();
    assert_eq!(everyone, ows[1]);
    assert_eq!(everyone_overwrite(&ows, 98), None);
    let locked = lockdown_overwrite(&everyone, 99);
    assert_eq!(locked, Overwrite { allow: 0, deny: 0x10 | 0x800 | 0x40, kind: OverwriteKind::Role(99) });
    assert_eq!(
        locked.deny,
        0x10 | (serenity::model::Permissions::SEND_MESSAGES | serenity::model::Permissions::ADD_REACTIONS).bits()
    );

    let mut state = State::new();
    assert!(!state.is_active(1));
    state.insert(1, ows.clone());
    assert!(state.is_active(1));
    state.remove(1);
    assert!(!state.is_active(1));
}

#[test]
fn rules_texts() {
    let mut state = RulesState { de: String::from("Regeln"), en: String::from("Rules") };
    addde(&mut state, "mehr");
    assert_eq!(state.de, "Regeln\n\nmehr");
    adden(&mut state, "more");
    assert_eq!(state.en, "Rules\n\nmore");
    assert_eq!(post(&state, "en"), vec![String::from("Rules\n\nmore")]);
    assert_eq!(post(&state, "fr"), vec![String::from("Regeln\n\nmehr")]);
    setde(&mut state, &"x".repeat(3100));
    let pieces = de(&state);
    assert_eq!(pieces.len(), 3);
    assert_eq!(pieces[0].len(), 1500);
    assert_eq!(pieces[2].len(), 100);
    seten(&mut state, "");
    assert!(en(&state).is_empty());
}

fn rr(role_id: i64, name: &str, group: &str, emoji: &str) -> ReactionRole {
    ReactionRole {
        id: role_id,
        server_id: 1,
        role_id,
        role_name: String::from(name),
        role_group: String::from(group),
        emoji: String::from(emoji),
    }
}

#[test]
fn reaction_role_lists() {
    let roles = vec![rr(1, "Rot", "Farben", "r"), rr(2, "Mage", "Klassen", "m"), rr(3, "Blau", "Farben", "b")];
    assert_eq!(list(&roles), "r | Farben | Rot\nm | Klassen | Mage\nb | Farben | Blau\n");
    let posts = postgroups(&roles);
    assert_eq!(posts.len(), 2);
    assert_eq!(posts[0].title, "Rollengruppe: Farben");
    assert_eq!(posts[0].body, "r | Rot\nb | Blau\n");
    assert_eq!(posts[0].emojis, vec!["r", "b"]);
    assert_eq!(posts[1].title, "Rollengruppe: Klassen");
    assert_eq!(posts[1].body, "m | Mage\n");
}

#[test]
fn reaction_role_targets() {
    let state = RoleState::set(5, vec![100, 200]);
    assert_eq!(add_role(&state, 200, true, &vec![7, 8]), Some(7));
    assert_eq!(remove_role(&state, 200, true, &vec![7]), Some(7));
    assert_eq!(add_role(&state, 300, true, &vec![7]), None);
    assert_eq!(add_role(&state, 100, false, &vec![7]), None);
    assert_eq!(add_role(&state, 100, true, &vec![]), None);
    assert_eq!(add_role(&RoleState::NotSet, 100, true, &vec![7]), None);
}

#[test]
fn dispatcher_listeners() {
    let mut d = Dispatcher::new();
    let ev = |m: u64, e: &str, c: u64, u: u64| Event::ReactMsg(m, String::from(e), c, u);
    d.add_listener(ev(1, "x", 10, 20), Listener::new(0, 100, 7));
    d.add_listener(ev(1, "x", 11, 21), Listener::new(0, 50, 8));
    d.add_listener(ev(2, "x", 10, 20), Listener::new(0, 100, 9));
    assert_eq!(d.dispatch_event(&ev(1, "x", 99, 99)), vec![7, 8]);
    assert_eq!(d.dispatch_event(&ev(1, "y", 10, 20)), Vec::<u64>::new());
    assert_eq!(d.dispatch_event(&Event::React(1, String::from("x"), 10, 20)), Vec::<u64>::new());
    d.check_expiration(60);
    assert_eq!(d.dispatch_event(&ev(1, "x", 10, 20)), vec![7]);
    d.check_expiration(100);
    assert_eq!(d.dispatch_event(&ev(1, "x", 10, 20)), Vec::<u64>::new());
    assert_eq!(d.dispatch_event(&ev(2, "x", 10, 20)), Vec::<u64>::new());
}

#[test]
fn event_equality() {
    let a = Event::React(1, String::from("x"), 2, 3);
    let b = Event::React(9, String::from("x"), 8, 7);
    assert!(a == b);
    let c = Event::ReactMsgOwner(1, String::from("x"), 2, 3);
    let d = Event::ReactMsgOwner(1, String::from("x"), 5, 3);
    let e = Event::ReactMsgOwner(1, String::from("x"), 2, 4);
    assert!(c == d);
    assert!(c != e);
    assert!(a != c);
}

#[test]
fn moderation_plans() {
    let g = Guild { modlog_channel: Some(1), mute_role: Some(2), userlog_channel: None };
    let no_role = Guild { modlog_channel: None, mute_role: None, userlog_channel: None };
    assert_eq!(mute_plan(true, true, Some(g)), ModPlan::Act { role: Some(2), modlog: Some(1) });
    assert_eq!(mute_plan(false, true, Some(g)), ModPlan::Nothing);
    assert_eq!(mute_plan(true, false, Some(g)), ModPlan::Nothing);
    assert_eq!(mute_plan(true, true, None), ModPlan::ConfigMissing);
    assert_eq!(mute_plan(true, true, Some(no_role)), ModPlan::Nothing);
    assert_eq!(unmute_plan(true, Some(g)), ModPlan::Act { role: Some(2), modlog: Some(1) });
    assert_eq!(removal_plan(true, Some(no_role)), ModPlan::Act { role: None, modlog: None });
    assert_eq!(removal_plan(true, None), ModPlan::ConfigMissing);
    assert_eq!(removal_plan(false, None), ModPlan::Nothing);
    assert_eq!(config_missing_reply(true), "server config missing");
    assert_eq!(config_missing_reply(false), "Server config missing");
}
