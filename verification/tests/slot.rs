use trashy_bot::commands::{slot, SlotOutcome};
use trashy_bot::slot::{get_payout, reel_from_roll, spin_reels};

#[test]
fn slot_test_reels() {
    let full_reels = spin_reels();
    assert_eq!(full_reels.len(), 3);
    for reel in &full_reels {
        assert_eq!(reel.len(), 3);
        let roll = reel[1];
        assert!((0..7).contains(&roll));
        assert_eq!(reel[0], (roll + 6) % 7);
        assert_eq!(reel[2], (roll + 1) % 7);
    }
}

#[test]
fn slot_test_payout() {
    let full_reels_1 = vec![vec![0, 1, 2], vec![0, 1, 2], vec![0, 1, 2]];
    let full_reels_2 = vec![vec![0, 1, 2], vec![6, 0, 1], vec![5, 6, 0]];
    let full_reels_3 = vec![vec![0, 1, 2], vec![1, 2, 3], vec![2, 3, 4]];

    assert_eq!(get_payout(&full_reels_1, 10), 500);
    assert_eq!(get_payout(&full_reels_2, 20), 800);
    assert_eq!(get_payout(&full_reels_3, 30), 600);
}

#[test]
fn slot_losing_spin_pays_nothing() {
    let reels = vec![vec![0, 1, 2], vec![2, 3, 4], vec![4, 5, 6]];
    assert_eq!(get_payout(&reels, 100), 0);
}

#[test]
fn reels_wrap_around() {
    assert_eq!(reel_from_roll(0), vec![6, 0, 1]);
    assert_eq!(reel_from_roll(6), vec![5, 6, 0]);
    assert_eq!(reel_from_roll(3), vec![2, 3, 4]);
}

#[test]
fn slot_plays_and_settles_balance() {
    match slot(Some(1000), Some(10)) {
        SlotOutcome::Played { reels, payout, balance, text } => {
            assert_eq!(reels.len(), 3);
            assert_eq!(payout, get_payout(&reels, 10));
            assert_eq!(balance, 1000 + payout - 10);
            assert!(text.ends_with(&format!("\n\n Gewonnen: {}\nBank: {}", payout, balance)));
        }
        other => panic!("unexpected outcome {:?}", other),
    }
}

#[test]
fn slot_refuses_invalid_bets() {
    let bad_bet = "Ungültiger Wetteinsatz!";
    let no_bank = "Du besitzt entweder keine Bank, oder nicht genügend credits!";
    assert!(matches!(slot(Some(100), Some(0)), SlotOutcome::Refused(t) if t == bad_bet));
    assert!(matches!(slot(Some(100), Some(-5)), SlotOutcome::Refused(t) if t == bad_bet));
    assert!(matches!(slot(Some(100), None), SlotOutcome::Refused(t) if t == bad_bet));
    assert!(matches!(slot(None, Some(10)), SlotOutcome::Refused(t) if t == no_bank));
    assert!(matches!(slot(Some(9), Some(10)), SlotOutcome::Refused(t) if t == no_bank));
}
