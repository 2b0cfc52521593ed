use trashy_bot::blackjack::{Card, Deck, Game, PlayerAction, Rank, SavedGame, Stack, State, Suit};

#[test]
fn test_deck_creation() {
    let deck = Deck::new();
    assert_eq!(deck.size(), 52);
}

#[test]
fn test_deck_draw() {
    let mut deck = Deck::new();
    let card = deck.draw();
    assert!(card.is_some());
}

#[test]
fn test_deck_draw_multiple() {
    let mut deck = Deck::new();
    let stack = deck.draw_multiple(52);
    assert_eq!(stack.len(), 52);
    assert!(deck.is_empty());
}

#[test]
fn test_deck_overdraw_multiple() {
    let mut deck = Deck::new();
    let stack = deck.draw_multiple(55);
    assert_eq!(stack.len(), 52);
    assert!(deck.is_empty());
}

#[test]
fn deck_cards_are_distinct() {
    let mut deck = Deck::new();
    let cards = deck.draw_multiple(52);
    for i in 0..cards.len() {
        for j in (i + 1)..cards.len() {
            assert!(cards[i] != cards[j]);
        }
    }
}

#[test]
fn shuffled_deck_keeps_its_cards() {
    let mut deck = Deck::new();
    deck.shuffle();
    assert_eq!(deck.size(), 52);
    let mut cards = deck.draw_multiple(52);
    let mut fresh = Deck::new().draw_multiple(52);
    let key = |c: &Card| format!("{:?}", c);
    cards.sort_by_key(key);
    fresh.sort_by_key(key);
    assert_eq!(cards, fresh);
}

#[test]
fn ace_counts_high_unless_bust() {
    let mut s = Stack::new();
    s.add(Card::new(Suit::Hearts, Rank::Ace));
    s.add(Card::new(Suit::Spades, Rank::King));
    assert_eq!(s.value(), 21);
    assert!(s.is_blackjack());
    s.add(Card::new(Suit::Clubs, Rank::Five));
    assert_eq!(s.value(), 16);
    assert!(!s.is_blackjack());
}

#[test]
fn two_aces_make_twelve() {
    let mut s = Stack::new();
    s.add(Card::new(Suit::Hearts, Rank::Ace));
    s.add(Card::new(Suit::Spades, Rank::Ace));
    assert_eq!(s.value(), 12);
}

fn pile(cards: &[Card]) -> Vec<String> {
    cards.iter().map(|c| format!("{:?}", c)).collect()
}

#[test]
fn saved_games_load_back() {
    let mut state = State::new();
    state.add_game(1, 10, 100, 1000, Some(500));
    state.add_game(2, 20, 200, 2000, Some(5));
    let saved = state.save();
    assert_eq!(saved.len(), 2);
    let summary: Vec<(u64, i64, Vec<String>, Vec<String>)> =
        saved.iter().map(|g| (g.player, g.bet, pile(&g.deck), pile(&g.hand))).collect();
    let loaded = State::load(saved).expect("saved games load");
    let again: Vec<(u64, i64, Vec<String>, Vec<String>)> = loaded
        .save()
        .iter()
        .map(|g| (g.player, g.bet, pile(&g.deck), pile(&g.hand)))
        .collect();
    assert_eq!(summary, again);
}

#[test]
fn broken_saved_game_is_refused() {
    let mut state = State::new();
    state.add_game(1, 10, 100, 1000, Some(500));
    let mut saved = state.save();
    let lost = saved[0].deck.pop();
    assert!(lost.is_some());
    assert!(State::load(saved).is_none());
    let mut saved = state.save();
    let extra = saved[0].deck[0];
    saved[0].deck.push(extra);
    assert!(State::load(saved).is_none());
    let saved = state.save();
    assert!(Game::restore(SavedGame { bet: i64::MAX, ..copy_saved(&saved[0]) }).is_none());
}

fn copy_saved(g: &SavedGame) -> SavedGame {
    SavedGame {
        deck: g.deck.clone(),
        removed: g.removed.clone(),
        player: g.player,
        bet: g.bet,
        bank: g.bank.clone(),
        hand: g.hand.clone(),
        channel_id: g.channel_id,
        message_id: g.message_id,
        state: g.state,
    }
}

#[test]
fn deck_is_restocked_only_when_low() {
    let mut g = Game::new(1, 10, 100, 1000);
    g.update(PlayerAction::Init, Some(1000));
    g.update(PlayerAction::Stay, Some(1000));
    let before = g.save();
    let in_hands = before.hand.len() + before.bank.len();
    assert!(before.deck.len() >= 15);
    g.update(PlayerAction::Init, Some(1000));
    let after = g.save();
    assert_eq!(after.removed.len(), before.removed.len() + in_hands);
    assert_eq!(after.deck.len(), before.deck.len() - 2);

    // with fewer than 15 cards left, the removed cards go back before the deal
    let mut low = copy_saved(&before);
    while low.deck.len() > 10 {
        let c = low.deck.pop().unwrap();
        low.removed.push(c);
    }
    let mut g = Game::restore(low).expect("a valid game");
    g.update(PlayerAction::Init, Some(1000));
    let dealt = g.save();
    assert_eq!(dealt.removed.len(), in_hands);
    assert_eq!(dealt.deck.len(), 52 - in_hands - 2);
}
