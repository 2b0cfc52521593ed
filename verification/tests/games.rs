use rand::rngs::StdRng;
use rand::SeedableRng;
use trashy_bot::account::{
    apply_change, can_pay, create_reply, payday, payday_reply, render_leaderboard,
    Payday,
};
use trashy_bot::commands::{transfer, transfer_reply, TransferOutcome};
use trashy_bot::dice::{roll_command, RollAnswer, is_rollable, parse_multiple_dice_str, roll_dice, roll_reply, total_fits_check};
use trashy_bot::poll::{ask_question, reaction_to_num, render_poll_results, tally};
use trashy_bot::wait::{Action, Wait, WaitEvent};
use trashy_bot::words::{choice_reply, choose_command, choose_words, sponge, spongify, split_whitespace, uwuify_message};

#[test]
fn payday_pays_or_waits() {
    assert_eq!(payday(500, 24), Some(Payday::Paid(1500)));
    assert_eq!(payday(-20, 30), Some(Payday::Paid(1000)));
    assert_eq!(payday(500, 5), Some(Payday::Wait(19)));
    assert_eq!(payday(i64::MAX, 24), None);
    assert_eq!(payday_reply(Payday::Paid(1500)), "Your new balance: 1500");
    assert_eq!(payday_reply(Payday::Wait(3)), "Wait 3 hours for your next Payday!");
}

#[test]
fn account_replies() {
    assert_eq!(create_reply(Some(42)), "Your bank balance: 42");
    assert_eq!(create_reply(None), "Created bank!");
    assert!(can_pay(Some(100), 100));
    assert!(!can_pay(Some(99), 100));
    assert!(!can_pay(None, 1));
    assert_eq!(apply_change(10, -20), Some(-10));
    assert_eq!(apply_change(i64::MAX, 1), None);
    let rows = vec![(300, String::from("a")), (-5, String::from("b"))];
    assert_eq!(render_leaderboard(&rows), "Top Ten:\n\n1 | 300 | a\n2 | -5 | b");
}

#[test]
fn transfer_moves_credits() {
    let recipients = vec![Some(5), Some(-3)];
    match transfer(Some(10), Some(100), &recipients) {
        TransferOutcome::Done { sender, recipients: rs } => {
            assert_eq!(sender, 80);
            assert_eq!(rs, vec![Some(15), Some(7)]);
            // nothing is made or lost when every recipient has a bank
            assert_eq!(sender + rs.iter().map(|r| r.unwrap()).sum::<i64>(), 100 + 5 - 3);
        }
        other => panic!("unexpected outcome {:?}", other),
    }
    match transfer(Some(10), Some(100), &vec![Some(1), None]) {
        TransferOutcome::Done { sender, recipients: rs } => {
            assert_eq!(sender, 80);
            assert_eq!(rs, vec![Some(11), None]);
        }
        other => panic!("unexpected outcome {:?}", other),
    }
    assert_eq!(transfer_reply(10, "[\"anna\", \"bob\"]"), "Transferred: 10, to: [\"anna\", \"bob\"]");
}

#[test]
fn transfer_refusals() {
    let some = vec![Some(0), Some(0), Some(0)];
    assert!(matches!(transfer(Some(0), Some(100), &some), TransferOutcome::Refused(t) if t == "Invalid credit amount!"));
    assert!(matches!(transfer(None, Some(100), &some), TransferOutcome::Refused(t) if t == "Invalid credit amount!"));
    assert!(matches!(transfer(Some(5), None, &some),
        TransferOutcome::Refused(t) if t == "Create your own bank first by running 'acc create'"));
    assert!(matches!(transfer(Some(40), Some(100), &some),
        TransferOutcome::Refused(t) if t == "You cannot transfer more credits than you have in your bank!"));
    assert!(matches!(transfer(Some(1), Some(100), &vec![Some(i64::MAX)]), TransferOutcome::Overflow));
}

#[test]
fn dice_rolls_stay_in_range() {
    let (_, dice) = parse_multiple_dice_str("2d6+1 1d20-3").unwrap();
    assert!(is_rollable(&dice));
    let rolls = roll_dice(&dice);
    assert_eq!(rolls.len(), 2);
    assert_eq!(rolls[0].len(), 2);
    assert_eq!(rolls[1].len(), 1);
    assert!(rolls[0].iter().all(|r| (1..=6).contains(r)));
    assert!((1..=20).contains(&rolls[1][0]));
    assert!(total_fits_check(&dice, &rolls));
    let total = rolls[0][0] + rolls[0][1] + 1 + rolls[1][0] - 3;
    let reply = roll_reply(&dice, &rolls);
    assert!(reply.starts_with("Your Roll ("));
    assert!(reply.ends_with(&format!("): {}", total)));
}

#[test]
fn fixed_rolls_reply() {
    let (_, dice) = parse_multiple_dice_str("2d6+1").unwrap();
    let rolls = vec![vec![3, 4]];
    assert_eq!(roll_reply(&dice, &rolls), "Your Roll (3+4+1): 8");
}

#[test]
fn poll_question_and_results() {
    let answers = vec![String::from("Ja"), String::from("Nein")];
    assert_eq!(
        ask_question("anna", "Pizza?", &answers),
        "anna asks: Pizza?\nPossible answers:\n1 | Ja\n2 | Nein\n"
    );
    assert_eq!(reaction_to_num("2\u{fe0f}\u{20e3}"), Some(2));
    assert_eq!(reaction_to_num("0\u{fe0f}\u{20e3}"), None);
    assert_eq!(reaction_to_num("\u{1F44D}"), None);
    let counts = tally(&vec![1, 2, 2, 7], 2);
    assert_eq!(counts, vec![1, 2]);
    let results = vec![(String::from("Ja"), 1), (String::from("Nein"), 2)];
    assert_eq!(
        render_poll_results("Pizza?", &results),
        "On the question of: Pizza?\npeople answered: \nJa with 1 vote(s)!\nNein with 2 vote(s)!\n**Nein** won with **2** vote(s)!"
    );
}

#[test]
fn waiting_for_an_answer() {
    let mut w = Wait::new();
    w.wait(7, WaitEvent::new(Action::DeleteFav, 11, 1000));
    w.wait(7, WaitEvent::new(Action::DeleteFav, 12, 2000));
    assert_eq!(w.waiting(7, Action::DeleteFav), Some(12));
    assert_eq!(w.waiting(7, Action::DeleteFav), None);
    assert_eq!(w.waiting(8, Action::DeleteFav), None);
}

#[test]
fn spongebob_case() {
    assert_eq!(spongify("hello world"), "HeLlO WoRlD");
    assert_eq!(spongify(""), "");
}

#[test]
fn words_and_choices() {
    assert_eq!(split_whitespace("  a b\tc\n"), vec!["a", "b", "c"]);
    let mut rng = StdRng::seed_from_u64(41237102);
    let chosen = choose_words("rot gruen blau", 5, &mut rng);
    assert_eq!(chosen.len(), 5);
    assert!(chosen.iter().all(|c| ["rot", "gruen", "blau"].contains(&c.as_str())));
    assert!(choose_words("", 3, &mut rng).is_empty());
    assert!(choose_words("a b", 0, &mut rng).is_empty());
    assert_eq!(choice_reply(&vec![String::from("a"), String::from("b")]), "a, b");
}

#[test]
fn uwu_message() {
    let e = uwuify_message("hello world", "anna", true).unwrap();
    assert_eq!(e.description, uwuifier::uwuify_str_sse("hello world"));
    assert_eq!(e.description, "hewwo wowwd");
    assert_eq!(e.author, "UwU");
    assert_eq!(e.footer, "uwuified by: anna");
    assert_eq!(e.color, 0xEF42F5);
    assert!(uwuify_message("hello world", "anna", false).is_none());
}

#[test]
fn sponge_embed() {
    let e = sponge(Some("hello world")).unwrap();
    assert_eq!(e.author, "Spongebob");
    assert_eq!(e.icon_url, "https://cdn.discordapp.com/emojis/598837367343808532.png?v=1");
    assert_eq!(e.color, 0xFFFF00);
    assert_eq!(e.description, "HeLlO WoRlD");
    assert!(sponge(None).is_none());
}

#[test]
fn roll_command_answers() {
    match roll_command("  2d6+1 ") {
        RollAnswer::Rolled { rolls, text } => {
            assert_eq!(rolls.len(), 1);
            assert_eq!(rolls[0].len(), 2);
            assert!(rolls[0].iter().all(|r| (1..=6).contains(r)));
            assert_eq!(text, format!("Your Roll ({}+{}+1): {}", rolls[0][0], rolls[0][1], rolls[0][0] + rolls[0][1] + 1));
        }
        other => panic!("unexpected answer {:?}", other),
    }
    assert!(matches!(roll_command("banana"), RollAnswer::Invalid(t) if t == "Sorry that is not a valid die roll!"));
    assert!(matches!(roll_command("1d0"), RollAnswer::CannotRoll));
}

#[test]
fn choose_command_defaults() {
    let mut rng = StdRng::seed_from_u64(7);
    let one = choose_command(Some("rot gruen blau"), None, &mut rng);
    assert!(["rot", "gruen", "blau"].contains(&one.as_str()));
    let three = choose_command(Some("a b"), Some(3), &mut rng);
    assert_eq!(three.split(", ").count(), 3);
    assert!(three.split(", ").all(|w| w == "a" || w == "b"));
    assert_eq!(choose_command(None, Some(2), &mut rng), "");
    assert_eq!(choose_command(Some("a b"), Some(0), &mut rng), "");
}
