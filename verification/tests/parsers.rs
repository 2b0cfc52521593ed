use trashy_bot::combo::{combo, combo_text};
use trashy_bot::words::trim;
use trashy_bot::combo::{parse_combo_str, Button, ComboErrorKind, Directional};
use trashy_bot::dice::{parse_dice_str, parse_multiple_dice_str, Die, ParseErrorKind};

#[test]
fn fighting_test_nom_parser() {
    let combo_str = "623,623P 5P 5P";
    let (rest, combo) = parse_combo_str(combo_str).unwrap();
    assert_eq!(rest, "");
    assert_eq!(combo.moves.len(), 3);
    assert_eq!(
        combo.moves[0].directionals,
        vec![Directional::DragonPunchRight, Directional::DragonPunchRight]
    );
    assert_eq!(combo.moves[0].buttons, vec![Button::Punch]);
    assert_eq!(combo.moves[1].directionals, vec![Directional::Neutral]);
    assert_eq!(combo.moves[1].buttons, vec![Button::Punch]);
    assert_eq!(combo.moves[2].directionals, vec![Directional::Neutral]);
    assert_eq!(combo.moves[2].buttons, vec![Button::Punch]);
}

#[test]
fn roll_test_nom_parser() {
    let die_str = "1d6+2";
    let (rest, die) = parse_dice_str(die_str).unwrap();
    assert_eq!(rest, "");
    assert_eq!(die, Die { number: 1, sides: 6, flat: 2 });
}

#[test]
fn test_nom_parser_multi() {
    let die_str = "1d6+2 2d20-3";
    let (rest, dice) = parse_multiple_dice_str(die_str).unwrap();
    assert_eq!(rest, "");
    assert_eq!(
        dice,
        vec![Die { number: 1, sides: 6, flat: 2 }, Die { number: 2, sides: 20, flat: -3 }]
    );
}

#[test]
fn dice_without_flat_part() {
    let (rest, die) = parse_dice_str("3d8 rest").unwrap();
    assert_eq!(rest, " rest");
    assert_eq!(die, Die { number: 3, sides: 8, flat: 0 });
}

#[test]
fn dice_errors() {
    assert_eq!(parse_dice_str("d6").unwrap_err(), ParseErrorKind::Digit);
    assert_eq!(parse_dice_str("2x6").unwrap_err(), ParseErrorKind::Tag);
}

#[test]
fn combo_errors() {
    assert_eq!(parse_combo_str("P").err(), Some(ComboErrorKind::Digit));
    assert_eq!(parse_combo_str("6").err(), Some(ComboErrorKind::Alpha));
    assert_eq!(parse_combo_str("0P").err(), Some(ComboErrorKind::MapRes));
    assert_eq!(parse_combo_str("6X").err(), Some(ComboErrorKind::MapRes));
}

#[test]
fn directional_and_button_names() {
    assert_eq!(Directional::from_str("632147896"), Some(Directional::FullCircle));
    assert_eq!(Directional::from_str("22"), None);
    assert_eq!(Button::from_str("D"), Some(Button::Dust));
    assert_eq!(Button::from_str("PK"), None);
}

#[test]
fn combo_reply_matches_debug() {
    let (_, c) = parse_combo_str("623,623P 5P 5P").unwrap();
    assert_eq!(combo_text(&c), format!("{:?}", c));
    assert_eq!(
        combo("  632146H 2K\n"),
        "Combo { moves: [Move { directionals: [HalfCircleRight], buttons: [HeavySlash] }, Move { directionals: [Down], buttons: [Kick] }] }"
    );
    assert_eq!(combo("xyz"), "Sorry that is not a valid combo sequence!");
}

#[test]
fn trimming_like_std() {
    for t in ["", "   ", " a b ", "\u{3000}x\t", "x", "\n\ny z\u{85}"] {
        assert_eq!(trim(t), t.trim());
    }
}
