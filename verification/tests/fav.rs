use trashy_bot::fav::fav_to_post;
use trashy_bot::fav::{
    blocked_notice, fav_link, fav_list_line, fav_reaction, label_counts, split_labels, tagged_with,
    tags, Fav, FavReaction, Tag,
};

fn fav(n: i64) -> Fav {
    Fav { id: n, server_id: n, channel_id: n, msg_id: n, user_id: n, author_id: n }
}

fn tag(id: i64, fav_id: i64, label: &str) -> Tag {
    Tag { id, fav_id, label: String::from(label) }
}

#[test]
fn test_filter() {
    let input = vec![
        (fav(1), vec![tag(1, 1, "Haus"), tag(2, 1, "Fenster")]),
        (fav(2), vec![tag(3, 2, "Auto"), tag(4, 2, "Haus")]),
        (fav(1), vec![tag(1, 1, "Haus"), tag(2, 1, "Haus")]),
        (fav(1), vec![tag(1, 1, "Haus"), tag(2, 1, "Turm")]),
    ];
    let labels: Vec<String> = vec!["Haus", "Turm", "Auto"].into_iter().map(String::from).collect();

    let possible_favs = tagged_with(&input, &labels);
    assert!(possible_favs.is_empty());
}

#[test]
fn tagged_with_keeps_covering_favs_in_order() {
    let input = vec![
        (fav(1), vec![tag(1, 1, "Haus"), tag(2, 1, "Fenster")]),
        (fav(2), vec![tag(3, 2, "Auto"), tag(4, 2, "Haus")]),
        (fav(3), vec![tag(5, 3, "Fenster")]),
        (fav(4), vec![tag(6, 4, "Haus"), tag(7, 4, "Haus")]),
    ];
    let labels = vec![String::from("Haus")];
    assert_eq!(tagged_with(&input, &labels), vec![fav(1), fav(2), fav(4)]);
    assert_eq!(tagged_with(&input, &Vec::new()), vec![fav(1), fav(2), fav(3), fav(4)]);
}

#[test]
fn labels_are_counted_in_order() {
    let labels: Vec<String> =
        vec!["b", "a", "b", "c", "ab", "b"].into_iter().map(String::from).collect();
    let counts = label_counts(&labels);
    let expected: Vec<(String, usize)> = vec![("a", 1), ("ab", 1), ("b", 3), ("c", 1)]
        .into_iter()
        .map(|(l, n)| (String::from(l), n))
        .collect();
    assert_eq!(counts, expected);
}

#[test]
fn tag_summary_lines() {
    let user_tags = vec![tag(1, 1, "Turm"), tag(2, 1, "Haus"), tag(3, 2, "Haus")];
    assert_eq!(tags(&user_tags), vec![String::from("Haus (2)\nTurm (1)\n")]);
    assert!(tags(&Vec::new()).is_empty());
}

#[test]
fn tag_summary_is_cut_into_messages() {
    let mut user_tags = Vec::new();
    for i in 0..200 {
        user_tags.push(tag(i, i, &format!("label{:04}", i)));
    }
    let messages = tags(&user_tags);
    let mut whole = String::new();
    for i in 0..200 {
        whole.push_str(&format!("label{:04} (1)\n", i));
    }
    assert!(messages.len() > 1);
    assert!(messages.iter().all(|m| m.chars().count() <= 1500));
    assert_eq!(messages.concat(), whole);
}

#[test]
fn fav_links() {
    let f = Fav { id: 9, server_id: 1, channel_id: 2, msg_id: 3, user_id: 4, author_id: 5 };
    assert_eq!(fav_link(&f), "https://discordapp.com/channels/1/2/3");
    assert_eq!(
        blocked_notice(&f),
        "Es wurde gerade ein fav von dir geblockt. https://discordapp.com/channels/1/2/3"
    );
    assert_eq!(fav_list_line(&f, "hallo"), "https://discord.com/channels/1/2/3 | hallo\n");
    let negative = Fav { id: 9, server_id: -1, channel_id: 2, msg_id: 3, user_id: 4, author_id: 5 };
    assert_eq!(fav_link(&negative), "https://discordapp.com/channels/-1/2/3");
    assert!(blocked_notice(&negative).ends_with("/18446744073709551615/2/3"));
}

#[test]
fn fav_reactions() {
    assert_eq!(fav_reaction("\u{1F5D1}", true), Some(FavReaction::Delete));
    assert_eq!(fav_reaction("\u{1F5D1}\u{fe0f}", true), Some(FavReaction::Delete));
    assert_eq!(fav_reaction("\u{1F5D1}", false), None);
    assert_eq!(fav_reaction("\u{1F3F7}\u{fe0f}", true), Some(FavReaction::Label));
    assert_eq!(fav_reaction("\u{2139}\u{fe0f}", false), Some(FavReaction::Info));
    assert_eq!(fav_reaction("\u{2139}", false), None);
    assert_eq!(fav_reaction("", true), None);
}

#[test]
fn labels_split_at_single_spaces() {
    assert_eq!(split_labels("a b"), vec!["a", "b"]);
    assert_eq!(split_labels("a  b"), vec!["a", "", "b"]);
    assert_eq!(split_labels(""), vec![""]);
    assert_eq!(split_labels(" x "), vec!["", "x", ""]);
    let text = "Haus  Turm Auto ";
    assert_eq!(split_labels(text), text.split(' ').collect::<Vec<_>>());
}

#[test]
fn fav_to_post_picks_a_covering_fav() {
    let input = vec![
        (fav(1), vec![tag(1, 1, "Haus")]),
        (fav(2), vec![tag(2, 2, "Auto")]),
        (fav(3), vec![tag(3, 3, "Haus"), tag(4, 3, "Auto")]),
    ];
    for _ in 0..20 {
        let picked = fav_to_post(&input, &vec![String::from("Haus")]).unwrap();
        assert!(picked == fav(1) || picked == fav(3));
    }
    assert_eq!(fav_to_post(&input, &vec![String::from("Turm")]), None);
    assert!(fav_to_post(&input, &Vec::new()).is_some());
    assert_eq!(fav_to_post(&Vec::new(), &Vec::new()), None);
}
