use twilight_gateway::EventTypeFlags;
use twilight_model::gateway::Intents;
use trashy_bot::bot::{
    handle_event, handle_interaction, CommandHandler, EventKind, InteractionAction, InteractionKind, LogLine,
    TrashyBot,
};
use trashy_bot::events::{
    active_threads, first_image, is_fav_reaction, member_join_body, member_leave_body, quote_footer,
    quote_link, tags_request, Attachment, QuoteKind, ThreadInfo,
};
use trashy_bot::groups::{Account, Config, General, Greenbook, Lastfm, Misc, Moderation, Roles};
use trashy_bot::lastfm::{
    listing_url, now_playing, parse_i32, period, ranked, recent, register, response_took, tracks,
    Listing, RankedEntry, RecentTrack, TopTrack,
};
use trashy_bot::misc::{
    about, emoji, goldt, katzer, list as shiny_list, rate_limited, removeshiny, respond, selfmute_allowed,
    setshiny, shiny, GuildEmoji, ShinyWrite,
};
use trashy_bot::remind::{confirmation, remind_options, reminder, CommandError, CommandOption, OptionValue};
use trashy_bot::userinfo::{
    created_at_millis, days_between, information_body, user_info, userinfo_footer, MemberData,
    MemberInfo, UserInfo, SPECIAL_GUILD, SPECIAL_USER,
};
use trashy_bot::xkcd::{comic_info_url, comic_link, completed_message, XkcdIndexStorage, XkcdIndexing};

fn s(t: &str) -> String {
    String::from(t)
}

#[test]
fn command_groups() {
    let g = General::options();
    assert_eq!(g.name, "general");
    assert_eq!(g.prefix, None);
    assert_eq!(g.commands.len(), 11);
    assert_eq!(g.commands[0], "about");
    let f = Greenbook::options();
    assert_eq!(f.prefix, Some(s("fav")));
    assert_eq!(f.default_command, Some(s("post")));
    assert_eq!(f.commands, vec!["post", "untagged", "add", "tags"]);
    assert_eq!(Lastfm::options().commands.len(), 6);
    assert_eq!(Misc::options().prefix, Some(s("misc")));
    assert_eq!(Config::options().prefix, Some(s("cfg")));
    assert_eq!(Moderation::options().commands, vec!["mute", "unmute", "kick", "ban"]);
    assert_eq!(Account::options().prefix, Some(s("acc")));
    assert_eq!(Roles::options().commands, vec!["list", "create", "remove", "postgroups"]);
}

#[test]
fn bot_gateway_settings() {
    assert_eq!(TrashyBot::intents(), (Intents::GUILD_MESSAGES | Intents::DIRECT_MESSAGES).bits());
    assert_eq!(
        TrashyBot::event_types(),
        (EventTypeFlags::MESSAGE_CREATE | EventTypeFlags::READY | EventTypeFlags::INTERACTION_CREATE).bits()
    );
    assert_eq!(TrashyBot::rng_seed(), 41237102);
}

#[test]
fn bot_event_logs() {
    let r = handle_event(EventKind::Ready(3));
    assert!(matches!(r.log, LogLine::Info(t) if t == "In 3 guilds!"));
    assert!(r.dispatch.is_none());
    let r = handle_event(EventKind::InteractionCreate(InteractionKind::Command(s("sponge"))));
    assert!(matches!(r.log, LogLine::Debug(t) if t == "Interaction"));
    assert!(matches!(r.dispatch, Some(InteractionAction::Run(CommandHandler::Sponge))));
    let r = handle_event(EventKind::Other);
    assert!(matches!(r.log, LogLine::Warn(t) if t == "unsupported event!"));
    assert!(r.dispatch.is_none());
}

#[test]
fn interactions_go_to_their_handlers() {
    assert!(matches!(handle_interaction(InteractionKind::Ping), InteractionAction::Pong));
    assert!(matches!(handle_interaction(InteractionKind::Command(s("roll"))), InteractionAction::Run(CommandHandler::Roll)));
    assert!(matches!(handle_interaction(InteractionKind::Command(s("choose"))), InteractionAction::Run(CommandHandler::Choose)));
    assert!(matches!(handle_interaction(InteractionKind::Command(s("sponge"))), InteractionAction::Run(CommandHandler::Sponge)));
    assert!(matches!(
        handle_interaction(InteractionKind::Command(s("remindme"))),
        InteractionAction::Run(CommandHandler::Remindme)
    ));
    assert!(matches!(
        handle_interaction(InteractionKind::Command(s("dance"))),
        InteractionAction::UnknownCommand(n) if n == "dance"
    ));
    assert!(matches!(handle_interaction(InteractionKind::Component), InteractionAction::ComponentNotSupported));
    assert!(matches!(handle_interaction(InteractionKind::Other), InteractionAction::UnknownInteraction));
}

#[test]
fn xkcd_links() {
    assert_eq!(comic_link(547), "https://xkcd.com/547");
    assert_eq!(comic_info_url(12), "https://xkcd.com/12/info.0.json");
    assert_eq!(completed_message(2500), "completed indexing up to 2500");
}

#[test]
fn xkcd_indexing_skips_404() {
    let mut run = XkcdIndexing::new(XkcdIndexStorage { indexed: 399 }, 405);
    let mut numbers = Vec::new();
    let mut pauses = Vec::new();
    let mut progress = Vec::new();
    while let Some(step) = run.step() {
        numbers.push(step.number);
        pauses.push(step.pause_millis);
        if let Some(p) = step.progress {
            progress.push(p);
        }
    }
    assert_eq!(numbers, vec![399, 400, 401, 402, 403, 405]);
    assert_eq!(pauses, vec![500, 12500, 500, 500, 500, 2500]);
    assert_eq!(progress, vec![s("Progess on xkcd indexing: 400 of 405")]);
    assert_eq!(run.finish(), XkcdIndexStorage { indexed: 406 });
    assert!(run.step().is_none());
}

#[test]
fn xkcd_nothing_new() {
    let mut run = XkcdIndexing::new(XkcdIndexStorage { indexed: 10 }, 9);
    assert!(run.step().is_none());
    assert_eq!(run.finish(), XkcdIndexStorage { indexed: 10 });
}

#[test]
fn user_creation_dates() {
    let id: u64 = 200_009_451_292_459_011;
    assert_eq!(created_at_millis(id), ((id >> 22) + 1_420_070_400_000) as i64);
    assert_eq!(days_between(86_400_000 * 3 + 5, 0), 3);
    assert_eq!(days_between(0, 86_400_000 * 3 - 1), -2);
}

#[test]
fn user_information() {
    let now = 1_600_000_000_000;
    let data = MemberData { nick: None, joined_at_millis: Some(1), roles: vec![s("Mods"), s("Fans")] };
    let info = user_info(SPECIAL_USER, "hans", 7, Some((SPECIAL_GUILD, data)), now);
    let m = info.member.as_ref().unwrap();
    assert_eq!(m.joined_at, "26.05.2017 08:56:00");
    assert_eq!(m.joined_at_ago, ((now - 1_495_788_960_000) / 86_400_000).to_string());
    assert_eq!(m.nick, "hans#7");
    let body = information_body(&info);
    assert!(body.starts_with("**Joined discord:** "));
    assert!(body.ends_with("\n\n**Roles:** Mods, Fans"));

    let plain = UserInfo { created_at: s("01.01.2020 00:00:00"), created_at_ago: 5, member: None };
    assert_eq!(
        information_body(&plain),
        "**Joined discord:** 01.01.2020 00:00:00 (5 days ago)\n\n**Joined this server:** Unknown (Unknown days ago)\n\n**Roles:** Unknown"
    );
    let with_member = UserInfo {
        created_at: s("c"),
        created_at_ago: -1,
        member: Some(MemberInfo { nick: s("n"), joined_at: s("j"), joined_at_ago: s("3"), roles: vec![] }),
    };
    assert_eq!(
        information_body(&with_member),
        "**Joined discord:** c (-1 days ago)\n\n**Joined this server:** j (3 days ago)\n\n**Roles:** "
    );
    assert_eq!(userinfo_footer("hans", 42, 99), "hans#42 | id: 99");
    let unknown = user_info(5, "x", 1, Some((1, MemberData { nick: Some(s("nick")), joined_at_millis: None, roles: vec![] })), now);
    let m = unknown.member.unwrap();
    assert_eq!(m.joined_at, "Unknown");
    assert_eq!(m.joined_at_ago, "Unknown");
    assert_eq!(m.nick, "nick");
    assert!(user_info(5, "x", 1, None, now).member.is_none());
}

#[test]
fn lastfm_periods_and_urls() {
    assert_eq!(period("7d"), "7day");
    assert_eq!(period("12m"), "12month");
    assert_eq!(period("all"), "overall");
    assert_eq!(period("nonsense"), "overall");
    assert_eq!(
        listing_url(Listing::Now, "u", "k", "overall"),
        "http://ws.audioscrobbler.com/2.0/?method=user.getrecenttracks&user=u&api_key=k&format=json"
    );
    assert_eq!(
        listing_url(Listing::Tracks, "u", "k", "3month"),
        "http://ws.audioscrobbler.com/2.0/?method=user.gettoptracks&user=u&api_key=k&format=json&limit=10&period=3month"
    );
    assert_eq!(response_took(42), "Lastfm response took: 42ms");
    assert_eq!(register(true, "x"), "Updated your lastfm username to x");
    assert_eq!(register(false, "x"), "Added x as your lastfm username!");
}

#[test]
fn lastfm_listings() {
    let ts = vec![
        RecentTrack { artist: Some(s("A")), name: Some(s("T")), now_playing: true },
        RecentTrack { artist: None, name: None, now_playing: false },
    ];
    assert_eq!(now_playing(&ts), vec![s("Artist: A - T")]);
    assert_eq!(recent(&ts), "Artist: A - T\nArtist: Unknown Artist - Unknown Title\n");
    let es = vec![RankedEntry { rank: Some(s("1")), name: Some(s("X")) }, RankedEntry { rank: None, name: None }];
    assert_eq!(ranked(&es), "Rank: 1 | X\nRank: Unknown Rank | Unknown Artist\n");
    let top = vec![
        TopTrack { rank: Some(s("1")), playcount: Some(s("10")), artist: Some(s("A")), name: Some(s("T")) },
        TopTrack { rank: None, playcount: Some(s("x")), artist: None, name: None },
        TopTrack { rank: None, playcount: None, artist: None, name: None },
    ];
    assert_eq!(
        tracks(&top),
        "Rank: 1 | Played: 10 | A - T\nRank: Unknown Rank | Played: x | Unknown Artist - Unknown Track\nRank: Unknown Rank | Played: - | Unknown Artist - Unknown Track\nOverall scrobbles: 10\n"
    );
}

#[test]
fn i32_parsing_matches_std() {
    for t in ["0", "+12", "-7", "2147483647", "-2147483648", "2147483648", "", "-", "+", "1a", " 1", "007", "99999999999"] {
        assert_eq!(parse_i32(t), t.parse::<i32>().ok(), "{}", t);
    }
}

#[test]
fn shiny_counts() {
    assert_eq!(shiny(Some(10), 5, true), Some(ShinyWrite::Update(15)));
    assert_eq!(shiny(None, 5, true), Some(ShinyWrite::Create(5)));
    assert_eq!(shiny(None, 5, false), None);
    assert_eq!(respond(15), "Shiny value: 15");
    assert_eq!(shiny_list(&vec![(s("a"), 3), (s("b"), -1)]), "Shinys Tracked\na: 3\nb: -1\n");
    assert_eq!(setshiny(&vec![s("a"), s("b")], 9), "a: 9\nb: 9");
    assert_eq!(removeshiny(&vec![s("a")]), "Removed shinys for a");
    assert_eq!(removeshiny(&vec![]), "");
}

#[test]
fn guild_emojis() {
    let es = vec![
        GuildEmoji { id: 1, name: s("kek"), animated: false },
        GuildEmoji { id: 2, name: s("party"), animated: true },
    ];
    assert_eq!(emoji(&es, "party"), "<a:party:2>");
    assert_eq!(emoji(&es, "kek"), "<:kek:1>");
    assert_eq!(emoji(&es, "nope"), "Could not find the emoji you are looking for!");
}

#[test]
fn small_commands() {
    assert!(selfmute_allowed(60));
    assert!(selfmute_allowed(86_400));
    assert!(!selfmute_allowed(59));
    assert!(!selfmute_allowed(86_401));
    assert_eq!(
        about("3 hours"),
        "A really trashy bot!\nRunning for 3 hours.\nSource: https://github.com/HansTrashy/trashy_bot"
    );
    assert!(katzer().ends_with("sinnbild.png"));
    assert!(goldt().ends_with("- *Max Goldt*"));
}

#[test]
fn member_events() {
    assert_eq!(
        member_join_body("01.01.2020 00:00:00", 12),
        "**Joined discord:** 01.01.2020 00:00:00 (12 days ago)\n\n**Has joined this server**"
    );
    assert_eq!(member_leave_body("d", 0), "**Joined discord:** d (0 days ago)\n\n**Has left the server.**");
    assert!(is_fav_reaction("\u{1F4D7}"));
    assert!(!is_fav_reaction("\u{1F4D8}"));
    assert_eq!(tags_request("hi"), "Tags please! (space-separated): hi");
}

#[test]
fn thread_list() {
    let th = |public: bool, meta: Option<(bool, bool)>, members: Option<u8>, m: &str| ThreadInfo {
        public,
        archived_locked: meta,
        member_count: members,
        message_count: Some(12),
        mention: s(m),
    };
    let ts = vec![
        th(true, Some((false, false)), Some(3), "<#1>"),
        th(true, Some((true, false)), Some(3), "<#2>"),
        th(false, Some((false, false)), Some(3), "<#3>"),
        th(true, None, Some(3), "<#4>"),
        th(true, Some((false, false)), None, "<#5>"),
    ];
    assert_eq!(active_threads(&ts), "User: 03+ | Messages: 12+| <#1> \nUser: 00+ | Messages: 12+| <#5> \n");
}

#[test]
fn quote_pieces() {
    assert_eq!(
        quote_footer(QuoteKind::Quote, 1_495_788_960_000, Some(s("general")), "anna"),
        Some(s("26.05.2017, 08:56:00 (UTC) | #general | Quoted by: anna"))
    );
    assert_eq!(
        quote_footer(QuoteKind::Fav, 0, None, "anna"),
        Some(s("01.01.1970, 00:00:00 (UTC) | #- | Fav by: anna"))
    );
    assert_eq!(
        quote_footer(QuoteKind::Untagged, 0, None, "anna"),
        Some(s("01.01.1970, 00:00:00 | Zitiert von: anna"))
    );
    assert_eq!(quote_footer(QuoteKind::Quote, i64::MAX, None, "a"), None);
    assert_eq!(quote_link(1, 2, 3), "https://discord.com/channels/1/2/3");
    let atts = vec![
        Attachment { width: None, url: s("a.txt") },
        Attachment { width: Some(10), url: s("b.png") },
        Attachment { width: Some(20), url: s("c.png") },
    ];
    assert_eq!(first_image(&atts), Some(s("b.png")));
    assert_eq!(first_image(&vec![]), None);
}

#[test]
fn reminders() {
    let text = |n: &str, v: &str| CommandOption { name: s(n), value: OptionValue::Text(s(v)) };
    let other = |n: &str| CommandOption { name: s(n), value: OptionValue::Other };
    assert!(matches!(remind_options(&vec![]), Err(CommandError::MissingOption)));
    assert!(matches!(remind_options(&vec![other("when")]), Err(CommandError::UnknownOption(n)) if n == "when"));
    assert!(matches!(remind_options(&vec![text("when", "1h")]), Ok((w, None)) if w == "1h"));
    assert!(matches!(remind_options(&vec![text("when", "1h"), text("message", "tee")]), Ok((w, Some(m))) if w == "1h" && m == "tee"));
    assert!(matches!(remind_options(&vec![text("when", "1h"), other("message")]), Err(CommandError::UnknownOption(n)) if n == "message"));
    assert_eq!(reminder(42, "tee"), "<@42> i should remind you that: tee");
    assert_eq!(confirmation("morgen"), "I will remind you @ morgen");
}

#[test]
fn rate_limit_answer() {
    assert_eq!(rate_limited("5 seconds"), "Try again in 5 seconds");
}

#[test]
fn member_join_and_leave_actions() {
    let g = trashy_bot::guild_config::Guild { modlog_channel: Some(1), mute_role: Some(2), userlog_channel: Some(3) };
    assert_eq!(
        trashy_bot::events::member_join_actions(Some(g), true),
        trashy_bot::events::JoinActions { log_channel: Some(3), restore_mute_role: Some(2) }
    );
    assert_eq!(
        trashy_bot::events::member_join_actions(Some(g), false),
        trashy_bot::events::JoinActions { log_channel: Some(3), restore_mute_role: None }
    );
    assert_eq!(
        trashy_bot::events::member_join_actions(None, true),
        trashy_bot::events::JoinActions { log_channel: None, restore_mute_role: None }
    );
    assert_eq!(trashy_bot::events::member_leave_channel(Some(g)), Some(3));
    assert_eq!(trashy_bot::events::member_leave_channel(None), None);
}
