use trashy_bot::commands::{
    due_reminder, fav_add, fav_add_reply, FavAdd, NewFav, optout_texts, parse_u64, plan_reminder, poll_check, quote_step, selfmute_refusal,
    setting_start, store_reminder, tags_added_reply, userinfo_target, QuoteAction, QuoteEvent, QuoteState,
    SettingStart, POLL_MAX_ANSWERS,
};
use trashy_bot::fav::{Fav, Tag};
use trashy_bot::links::parse_message_link;
use trashy_bot::fav_flow::{relabel, show_step, ShowAction, ShowEvent, ShowKind, ShowState};
use trashy_bot::moderation::{mute_entries, removal_stop, unmute_actions, MuteEntry};
use trashy_bot::remind::{CommandError, CommandOption, OptionValue};

fn s(t: &str) -> String {
    String::from(t)
}

fn fav(id: i64) -> Fav {
    Fav { id, server_id: 1, channel_id: 2, msg_id: 3, user_id: 4, author_id: 5 }
}

fn tag(fav_id: i64, label: &str) -> Tag {
    Tag { id: fav_id * 10, fav_id, label: s(label) }
}

#[test]
fn fav_post_opted_out_user_is_told_and_nothing_is_looked_up() {
    let (state, action) = show_step(ShowKind::Post, ShowState::Start, ShowEvent::Invoked { requester_opted_out: true });
    assert_eq!(state, ShowState::Done);
    assert!(matches!(action, ShowAction::Say(t) if t == "You have opted out of the quote functionality"));
    let (state, action) = show_step(ShowKind::Post, ShowState::Start, ShowEvent::Invoked { requester_opted_out: false });
    assert_eq!(state, ShowState::Looking);
    assert!(matches!(action, ShowAction::LookUp));
}

#[test]
fn fav_post_without_candidates_fails() {
    let favs = vec![(fav(1), vec![tag(1, "cat")])];
    let (state, action) = show_step(
        ShowKind::Post,
        ShowState::Looking,
        ShowEvent::Candidates { favs, labels: vec![s("dog")] },
    );
    assert_eq!(state, ShowState::Done);
    assert!(matches!(action, ShowAction::Fail(t) if t == "possible favs empty"));
}

#[test]
fn fav_post_picks_a_matching_fav_and_shows_it() {
    let favs = vec![(fav(1), vec![tag(1, "cat")]), (fav(2), vec![tag(2, "dog")])];
    let (state, action) = show_step(
        ShowKind::Post,
        ShowState::Looking,
        ShowEvent::Candidates { favs, labels: vec![s("dog")] },
    );
    assert_eq!(state, ShowState::Fetching(fav(2)));
    assert!(matches!(action, ShowAction::Fetch { fav: f, delete_command: true } if f == fav(2)));
    let (state, action) = show_step(ShowKind::Post, state, ShowEvent::Fetched { author_opted_out: false });
    assert_eq!(state, ShowState::Shown(fav(2)));
    assert!(matches!(action, ShowAction::Show { fav: f, add_reactions: false } if f == fav(2)));
}

#[test]
fn fav_of_opted_out_author_is_not_shown() {
    let (state, action) =
        show_step(ShowKind::Post, ShowState::Fetching(fav(7)), ShowEvent::Fetched { author_opted_out: true });
    assert_eq!(state, ShowState::Done);
    assert!(matches!(action, ShowAction::Stop));
}

#[test]
fn only_the_posters_wastebasket_in_time_deletes_the_fav() {
    let shown = ShowState::Shown(fav(9));
    let react = |emoji: &str, by_poster: bool, after_millis: u64| {
        show_step(ShowKind::Post, shown, ShowEvent::Reacted { emoji: s(emoji), by_poster, after_millis }).1
    };
    assert!(matches!(react("\u{1F5D1}\u{fe0f}", true, 1_000), ShowAction::DeleteFav(9)));
    assert!(matches!(react("\u{1F5D1}\u{fe0f}", false, 1_000), ShowAction::Ignore));
    assert!(matches!(react("\u{1F5D1}\u{fe0f}", true, 120_000), ShowAction::Ignore));
    assert!(matches!(react("\u{1F3F7}\u{fe0f}", true, 119_999), ShowAction::AskLabels(9)));
    assert!(matches!(
        react("\u{2139}\u{fe0f}", false, 299_999),
        ShowAction::SendLink(t) if t == "https://discordapp.com/channels/1/2/3"
    ));
    assert!(matches!(react("\u{2139}\u{fe0f}", false, 300_000), ShowAction::Ignore));
    assert!(matches!(react("\u{1F44D}", true, 10), ShowAction::Ignore));
}

#[test]
fn untagged_shows_only_the_first_fav() {
    let (state, action) = show_step(
        ShowKind::Untagged,
        ShowState::Looking,
        ShowEvent::Candidates { favs: vec![], labels: vec![] },
    );
    assert_eq!(state, ShowState::Done);
    assert!(matches!(action, ShowAction::Say(t) if t == "Du hat keine untagged Favs!"));

    let favs = vec![(fav(4), vec![]), (fav(5), vec![])];
    let (state, action) =
        show_step(ShowKind::Untagged, ShowState::Looking, ShowEvent::Candidates { favs, labels: vec![] });
    assert_eq!(state, ShowState::Fetching(fav(4)));
    assert!(matches!(action, ShowAction::Fetch { fav: f, delete_command: false } if f == fav(4)));
    let (state, action) = show_step(ShowKind::Untagged, state, ShowEvent::Fetched { author_opted_out: false });
    assert_eq!(state, ShowState::Shown(fav(4)));
    assert!(matches!(action, ShowAction::Show { fav: f, add_reactions: true } if f == fav(4)));
    // the untagged command does not ask whether its user opted out
    let (state, _) = show_step(ShowKind::Untagged, ShowState::Start, ShowEvent::Invoked { requester_opted_out: true });
    assert_eq!(state, ShowState::Looking);
}

#[test]
fn relabelling_replaces_the_tags() {
    let r = relabel(4, "cat dog  fish");
    assert_eq!(r.fav_id, 4);
    assert_eq!(r.labels, vec![s("cat"), s("dog"), s(""), s("fish")]);
    assert_eq!(r.reply, "added the tags!");
}

#[test]
fn quote_flow() {
    let (state, action) = quote_step(QuoteState::Start, QuoteEvent::Invoked { requester_opted_out: true });
    assert_eq!(state, QuoteState::Done);
    assert!(matches!(action, QuoteAction::OptedOut));
    let (notice, error) = optout_texts();
    assert_eq!(notice, "OptOut is used by you or the quoted");
    assert_eq!(error, "Fav/Quote OptOut is active");

    let (state, action) = quote_step(QuoteState::Start, QuoteEvent::Invoked { requester_opted_out: false });
    assert_eq!(state, QuoteState::Linking);
    assert!(matches!(action, QuoteAction::ReadLink));
    let (done, action) = quote_step(state, QuoteEvent::LinkText(s("no link here")));
    assert_eq!(done, QuoteState::Done);
    assert!(matches!(action, QuoteAction::NoLink));
    let (state, action) = quote_step(state, QuoteEvent::LinkText(s("see https://discord.com/channels/1/2/3 ok")));
    assert_eq!(state, QuoteState::Fetching { server: 1, channel: 2, message: 3 });
    assert!(matches!(action, QuoteAction::Fetch { channel: 2, message: 3 }));

    let (done, action) = quote_step(state, QuoteEvent::Fetched(None));
    assert_eq!(done, QuoteState::Done);
    assert!(matches!(action, QuoteAction::Reply(t) if t == "Sorry, I can not find this message."));
    let (done, action) = quote_step(state, QuoteEvent::Fetched(Some(true)));
    assert_eq!(done, QuoteState::Done);
    assert!(matches!(action, QuoteAction::OptedOut));

    let (shown, action) = quote_step(state, QuoteEvent::Fetched(Some(false)));
    assert_eq!(shown, QuoteState::Shown { server: 1, channel: 2, message: 3 });
    assert!(matches!(action, QuoteAction::Show));
    let (_, action) = quote_step(shown, QuoteEvent::Reacted { emoji: s("\u{2139}\u{fe0f}"), after_millis: 5 });
    assert!(matches!(action, QuoteAction::SendLink(t) if t == "https://discord.com/channels/1/2/3"));
    let (_, action) = quote_step(shown, QuoteEvent::Reacted { emoji: s("\u{2139}\u{fe0f}"), after_millis: 3_600_000 });
    assert!(matches!(action, QuoteAction::Ignore));
}

#[test]
fn userinfo_needs_a_mention() {
    assert_eq!(userinfo_target(&vec![]), Err(s("No user mentioned")));
    assert_eq!(userinfo_target(&vec![7, 8]), Ok(7));
}

#[test]
fn numbers_read_as_std_reads_them() {
    for t in ["0", "42", "+7", "18446744073709551615", "18446744073709551616", "", "+", "-5", "abc", "1 2", " 1"] {
        assert_eq!(parse_u64(t), t.parse::<u64>().ok(), "{:?}", t);
    }
}

#[test]
fn settings_refuse_bad_arguments_first() {
    assert_eq!(setting_start("abc", true), SettingStart::InvalidArgument);
    assert_eq!(setting_start("-5", true), SettingStart::InvalidArgument);
    assert_eq!(setting_start("-5", false), SettingStart::InvalidArgument);
    assert_eq!(setting_start("123", false), SettingStart::NotInGuild);
    assert_eq!(setting_start("123", true), SettingStart::LookUp(123));
}

#[test]
fn reminders_are_planned_stored_and_answered() {
    let opts = vec![
        CommandOption { name: s("when"), value: OptionValue::Text(s("10m")) },
        CommandOption { name: s("message"), value: OptionValue::Text(s("tea")) },
    ];
    let plan = plan_reminder(&opts, Some(600_000), 1_000).unwrap();
    assert_eq!(plan.delay_millis, 600_000);
    assert_eq!(plan.remind_at_nanos, 600_000_001_000);
    assert_eq!(plan.message, "tea");
    assert_eq!(plan.anchor_text, "Remindme Context");
    let due_at = time::OffsetDateTime::from_unix_timestamp_nanos(600_000_001_000).unwrap();
    assert_eq!(plan.confirmation, Some(format!("I will remind you @ {}", due_at)));
    assert!(matches!(plan_reminder(&opts, None, 1_000), Err(CommandError::UnknownOption(w)) if w == "10m"));
    assert!(matches!(plan_reminder(&vec![], Some(5), 1_000), Err(CommandError::MissingOption)));
    let bare = vec![CommandOption { name: s("when"), value: OptionValue::Text(s("1h")) }];
    assert_eq!(plan_reminder(&bare, Some(1), 0).unwrap().message, "");
    // a moment past the year 9999 cannot be shown
    assert_eq!(plan_reminder(&bare, Some(0), i128::MAX / 2).unwrap().confirmation, None);

    assert!(matches!(
        store_reminder(&plan, 11, 12, None),
        Err(CommandError::MissingData(t)) if t == "missing member/user data for interaction"
    ));
    let stored = store_reminder(&plan, 11, 12, Some(99)).unwrap();
    assert_eq!((stored.channel, stored.user, stored.anchor, stored.remind_at_nanos), (11, 99, 12, 600_000_001_000));
    assert_eq!(stored.message, "tea");
    let due = due_reminder(&stored, 5);
    assert_eq!(due.delete_reminder, 5);
    assert_eq!(due.reply_to, 12);
    assert_eq!(due.text, "<@99> i should remind you that: tea");
}

#[test]
fn fav_and_poll_replies() {
    assert_eq!(fav_add_reply(true), "This fav is blocked");
    assert_eq!(fav_add_reply(false), "Fav saved!");
    assert!(matches!(fav_add(1, 2, 3, 4, 5, true), FavAdd::Blocked(t) if t == "This fav is blocked"));
    match fav_add(1, 2, u64::MAX, 4, 5, false) {
        FavAdd::Saved { fav, reply } => {
            assert_eq!(fav, NewFav { server_id: 1, channel_id: 2, msg_id: -1, user_id: 4, author_id: 5 });
            assert_eq!(reply, "Fav saved!");
        }
        other => panic!("unexpected {:?}", other),
    }
    assert_eq!(tags_added_reply(), "Tags added! To edit tags, react with \u{1F3F7}\u{fe0f} on the posted fav");
    let nine: Vec<String> = (1..=POLL_MAX_ANSWERS).map(|i| i.to_string()).collect();
    assert_eq!(poll_check(&nine), Ok(()));
    let ten: Vec<String> = (1..=10).map(|i| i.to_string()).collect();
    assert_eq!(poll_check(&ten), Err(s("Only up to 9 answers are allowed")));
}

#[test]
fn selfmute_bounds() {
    let refusal = "You can not mute yourself for less than 60 seconds or more than 24 hours!";
    assert_eq!(selfmute_refusal(59), Some(s(refusal)));
    assert_eq!(selfmute_refusal(60), None);
    assert_eq!(selfmute_refusal(86_400), None);
    assert_eq!(selfmute_refusal(86_401), Some(s(refusal)));
}

#[test]
fn mutes_for_each_member_and_removals_stop_at_the_first_missing() {
    let es = mute_entries(&vec![3, 4], &vec![true, false], 77, 1_000, 60_000);
    assert_eq!(
        es,
        vec![
            MuteEntry { user: 3, role: 77, give_role: true, ends_at_millis: 61_000, remove_after_millis: 60_000 },
            MuteEntry { user: 4, role: 77, give_role: false, ends_at_millis: 61_000, remove_after_millis: 60_000 },
        ]
    );
    assert!(mute_entries(&vec![], &vec![], 77, 0, 1).is_empty());
    assert_eq!(removal_stop(&vec![true, false, true]), Some(1));
    assert_eq!(removal_stop(&vec![true, true]), None);
    assert_eq!(removal_stop(&vec![]), None);
}

#[test]
fn unmute_deletes_every_record() {
    let u = unmute_actions(&vec![3, 4, 5]);
    assert_eq!(u.delete_records_of, vec![3, 4, 5]);
    assert_eq!(u.reaction, "\u{2705}");
    assert!(unmute_actions(&vec![]).delete_records_of.is_empty());
}

#[test]
fn message_links_are_found() {
    assert_eq!(parse_message_link("https://discord.com/channels/1/2/3"), Some((1, 2, 3)));
    assert_eq!(parse_message_link("look: https://discordapp.com/channels/10/20/30?x"), Some((10, 20, 30)));
    // the dot of the host matches any character, as in the pattern it comes from
    assert_eq!(parse_message_link("https://discordXcom/channels/4/5/6"), Some((4, 5, 6)));
    // the first link counts
    assert_eq!(
        parse_message_link("https://discord.com/channels/1/x https://discord.com/channels/7/8/9 https://discord.com/channels/1/1/1"),
        Some((7, 8, 9))
    );
    assert_eq!(parse_message_link("https://discord.com/channels/1/2/"), None);
    assert_eq!(parse_message_link("http://discord.com/channels/1/2/3"), None);
    assert_eq!(parse_message_link("https://discord.com/channels/99999999999999999999/2/3"), None);
    assert_eq!(parse_message_link(""), None);
}
