//! Blackjack: cards, the deck, hands and the game played against the bank.
use rand::seq::SliceRandom;
use vstd::prelude::*;
use vstd::multiset::Multiset;
use crate::text::{i64_text, int_text};

verus! {

broadcast use {
    vstd::seq_lib::group_to_multiset_ensures,
    vstd::seq_lib::lemma_multiset_commutative,
    vstd::multiset::group_multiset_axioms,
};

/// The suit of a card.
#[derive(Clone, Copy, Debug, PartialEq, Eq, Structural)]
pub enum Suit {
    Spades,
    Hearts,
    Diamonds,
    Clubs,
}

/// The colour of a card.
#[derive(Clone, Copy, Debug, PartialEq, Eq, Structural)]
pub enum Color {
    Red,
    Black,
}

/// The rank of a card.
#[derive(Clone, Copy, Debug, PartialEq, Eq, Structural)]
pub enum Rank {
    Two,
    Three,
    Four,
    Five,
    Six,
    Seven,
    Eight,
    Nine,
    Ten,
    Jack,
    Queen,
    King,
    Ace,
}

/// A playing card.
#[derive(Clone, Copy, Debug, PartialEq, Eq, Structural)]
pub struct Card {
    pub suit: Suit,
    pub rank: Rank,
}

/// The symbol that shows a suit.
pub open spec fn suit_text(s: Suit) -> Seq<char> {
    match s {
        Suit::Spades => "♠"@,
        Suit::Hearts => "♥"@,
        Suit::Diamonds => "♦"@,
        Suit::Clubs => "♣"@,
    }
}

/// The label that shows a rank.
pub open spec fn rank_text(r: Rank) -> Seq<char> {
    match r {
        Rank::Two => "2"@,
        Rank::Three => "3"@,
        Rank::Four => "4"@,
        Rank::Five => "5"@,
        Rank::Six => "6"@,
        Rank::Seven => "7"@,
        Rank::Eight => "8"@,
        Rank::Nine => "9"@,
        Rank::Ten => "10"@,
        Rank::Jack => "J"@,
        Rank::Queen => "Q"@,
        Rank::King => "K"@,
        Rank::Ace => "A"@,
    }
}

/// How a card is shown: `|` suit rank `|`.
pub open spec fn card_text(c: Card) -> Seq<char> {
    "|"@ + suit_text(c.suit) + rank_text(c.rank) + "|"@
}

/// The value a card counts in blackjack; an ace counts 11 here.
pub open spec fn card_value(c: Card) -> nat {
    match c.rank {
        Rank::Two => 2,
        Rank::Three => 3,
        Rank::Four => 4,
        Rank::Five => 5,
        Rank::Six => 6,
        Rank::Seven => 7,
        Rank::Eight => 8,
        Rank::Nine => 9,
        Rank::Ten | Rank::Jack | Rank::Queen | Rank::King => 10,
        Rank::Ace => 11,
    }
}

/// The colour of a card's suit.
pub open spec fn card_color(c: Card) -> Color {
    match c.suit {
        Suit::Hearts | Suit::Diamonds => Color::Red,
        Suit::Clubs | Suit::Spades => Color::Black,
    }
}

impl Suit {
    /// The symbol of the suit.
    pub fn symbol(&self) -> (s: &'static str)
        ensures
            s@ == suit_text(*self),
    {
        match self {
            Suit::Spades => "♠",
            Suit::Hearts => "♥",
            Suit::Diamonds => "♦",
            Suit::Clubs => "♣",
        }
    }
}

impl Rank {
    /// The label of the rank.
    pub fn label(&self) -> (s: &'static str)
        ensures
            s@ == rank_text(*self),
    {
        match self {
            Rank::Two => "2",
            Rank::Three => "3",
            Rank::Four => "4",
            Rank::Five => "5",
            Rank::Six => "6",
            Rank::Seven => "7",
            Rank::Eight => "8",
            Rank::Nine => "9",
            Rank::Ten => "10",
            Rank::Jack => "J",
            Rank::Queen => "Q",
            Rank::King => "K",
            Rank::Ace => "A",
        }
    }
}

impl Card {
    /// A card of the given suit and rank.
    pub fn new(suit: Suit, rank: Rank) -> (c: Card)
        ensures
            c == (Card { suit, rank }),
    {
        Card { suit, rank }
    }

    /// Red for hearts and diamonds, black for clubs and spades.
    pub fn color(&self) -> (c: Color)
        ensures
            c == card_color(*self),
    {
        match self.suit {
            Suit::Hearts | Suit::Diamonds => Color::Red,
            Suit::Clubs | Suit::Spades => Color::Black,
        }
    }

    /// The blackjack value of the card, counting an ace as 11.
    pub fn value(&self) -> (v: usize)
        ensures
            v == card_value(*self),
    {
        match self.rank {
            Rank::Two => 2,
            Rank::Three => 3,
            Rank::Four => 4,
            Rank::Five => 5,
            Rank::Six => 6,
            Rank::Seven => 7,
            Rank::Eight => 8,
            Rank::Nine => 9,
            Rank::Ten => 10,
            Rank::Jack => 10,
            Rank::Queen => 10,
            Rank::King => 10,
            Rank::Ace => 11,
        }
    }

    /// The card as text, such as `|♠A|`.
    pub fn to_text(&self) -> (s: String)
        ensures
            s@ == card_text(*self),
    {
        let mut s = String::new();
        s.append("|");
        s.append(self.suit.symbol());
        s.append(self.rank.label());
        s.append("|");
        s
    }
}


/// The suit in position `i` of a fresh deck's suit order.
pub open spec fn suit_at(i: int) -> Suit {
    if i == 0 { Suit::Spades }
    else if i == 1 { Suit::Hearts }
    else if i == 2 { Suit::Diamonds }
    else { Suit::Clubs }
}

/// The rank in position `i` of a fresh deck's rank order.
pub open spec fn rank_at(i: int) -> Rank {
    if i == 0 { Rank::Two }
    else if i == 1 { Rank::Three }
    else if i == 2 { Rank::Four }
    else if i == 3 { Rank::Five }
    else if i == 4 { Rank::Six }
    else if i == 5 { Rank::Seven }
    else if i == 6 { Rank::Eight }
    else if i == 7 { Rank::Nine }
    else if i == 8 { Rank::Ten }
    else if i == 9 { Rank::Jack }
    else if i == 10 { Rank::Queen }
    else if i == 11 { Rank::King }
    else { Rank::Ace }
}

/// A fresh deck: for each suit in the order spades, hearts, diamonds, clubs, the
/// thirteen ranks from two to ace.
pub open spec fn full_deck() -> Seq<Card> {
    Seq::new(52, |i: int| Card { suit: suit_at(i / 13), rank: rank_at(i % 13) })
}

fn suit_of(i: usize) -> (s: Suit)
    requires
        i < 4,
    ensures
        s == suit_at(i as int),
{
    if i == 0 { Suit::Spades }
    else if i == 1 { Suit::Hearts }
    else if i == 2 { Suit::Diamonds }
    else { Suit::Clubs }
}

fn rank_of(i: usize) -> (r: Rank)
    requires
        i < 13,
    ensures
        r == rank_at(i as int),
{
    if i == 0 { Rank::Two }
    else if i == 1 { Rank::Three }
    else if i == 2 { Rank::Four }
    else if i == 3 { Rank::Five }
    else if i == 4 { Rank::Six }
    else if i == 5 { Rank::Seven }
    else if i == 6 { Rank::Eight }
    else if i == 7 { Rank::Nine }
    else if i == 8 { Rank::Ten }
    else if i == 9 { Rank::Jack }
    else if i == 10 { Rank::Queen }
    else if i == 11 { Rank::King }
    else { Rank::Ace }
}

/// Shuffles the cards in place with the thread's random number generator.
#[verifier::external_body]
fn shuffle_cards(cards: &mut Vec<Card>)
    ensures
        final(cards)@.to_multiset() == old(cards)@.to_multiset(),
{
    cards.shuffle(&mut rand::thread_rng())
}

/// The cards that `n` draws take from the top (the end) of a deck, in drawing order.
pub open spec fn drawn_cards(deck: Seq<Card>, n: nat) -> Seq<Card> {
    let k = if n <= deck.len() { n as int } else { deck.len() as int };
    deck.subrange(deck.len() - k, deck.len() as int).reverse()
}

/// What is left of a deck after `n` draws.
pub open spec fn deck_after(deck: Seq<Card>, n: nat) -> Seq<Card> {
    let k = if n <= deck.len() { n as int } else { deck.len() as int };
    deck.take(deck.len() - k)
}

/// The position of a suit in a fresh deck's suit order.
pub open spec fn suit_index(s: Suit) -> int {
    match s {
        Suit::Spades => 0,
        Suit::Hearts => 1,
        Suit::Diamonds => 2,
        Suit::Clubs => 3,
    }
}

/// The position of a rank in a fresh deck's rank order.
pub open spec fn rank_index(r: Rank) -> int {
    match r {
        Rank::Two => 0,
        Rank::Three => 1,
        Rank::Four => 2,
        Rank::Five => 3,
        Rank::Six => 4,
        Rank::Seven => 5,
        Rank::Eight => 6,
        Rank::Nine => 7,
        Rank::Ten => 8,
        Rank::Jack => 9,
        Rank::Queen => 10,
        Rank::King => 11,
        Rank::Ace => 12,
    }
}

/// A fresh deck holds each of the 52 cards exactly once.
pub proof fn lemma_full_deck_complete()
    ensures
        full_deck().len() == 52,
        forall|c: Card| #[trigger] full_deck().contains(c),
        forall|i: int, j: int| 0 <= i < j < 52 ==> #[trigger] full_deck()[i] != #[trigger] full_deck()[j],
{
    assert forall|c: Card| #[trigger] full_deck().contains(c) by {
        let k = suit_index(c.suit) * 13 + rank_index(c.rank);
        assert(k / 13 == suit_index(c.suit));
        assert(k % 13 == rank_index(c.rank));
        assert(full_deck()[k] == c);
    }
    assert forall|i: int, j: int| 0 <= i < j < 52 implies #[trigger] full_deck()[i] != #[trigger] full_deck()[j] by {
        if i / 13 == j / 13 {
            assert(i % 13 != j % 13);
        }
    }
}

/// Drawing keeps every card: `min(n, size)` cards are drawn, the rest stays, and together
/// they are the cards the deck held.
pub proof fn lemma_draw_keeps_cards(deck: Seq<Card>, n: nat)
    ensures
        drawn_cards(deck, n).len() == if n <= deck.len() { n } else { deck.len() },
        deck_after(deck, n).len() + drawn_cards(deck, n).len() == deck.len(),
        deck_after(deck, n).to_multiset().add(drawn_cards(deck, n).to_multiset()) == deck.to_multiset(),
{
    let k = if n <= deck.len() { n as int } else { deck.len() as int };
    let top = deck.subrange(deck.len() - k, deck.len() as int);
    top.lemma_reverse_to_multiset();
    assert(deck.take(deck.len() - k) + top =~= deck);
    vstd::seq_lib::lemma_multiset_commutative(deck.take(deck.len() - k), top);
}

/// A deck of cards; the top card is the last one.
pub struct Deck(Vec<Card>);

impl View for Deck {
    type V = Seq<Card>;

    closed spec fn view(&self) -> Seq<Card> {
        self.0@
    }
}

impl Deck {
    /// A fresh, unshuffled deck of all 52 cards.
    pub fn new() -> (d: Deck)
        ensures
            d@ == full_deck(),
    {
        let mut cards: Vec<Card> = Vec::with_capacity(52);
        let mut k: usize = 0;
        while k < 52
            invariant
                k <= 52,
                cards@ == full_deck().take(k as int),
            decreases 52 - k,
        {
            cards.push(Card::new(suit_of(k / 13), rank_of(k % 13)));
            k = k + 1;
            assert(cards@ =~= full_deck().take(k as int));
        }
        assert(full_deck().take(52) =~= full_deck());
        Deck(cards)
    }

    /// A deck holding the given cards, the last one on top.
    pub fn from_cards(cards: Vec<Card>) -> (d: Deck)
        ensures
            d@ == cards@,
    {
        Deck(cards)
    }

    /// The cards of the deck, the top card last.
    pub fn cards(&self) -> (cs: &Vec<Card>)
        ensures
            cs@ == self@,
    {
        &self.0
    }

    /// Puts the deck in a random order; the same cards stay in it.
    pub fn shuffle(&mut self)
        ensures
            final(self)@.to_multiset() == old(self)@.to_multiset(),
    {
        shuffle_cards(&mut self.0);
    }

    /// Takes the top card, or gives `None` when the deck is empty.
    pub fn draw(&mut self) -> (c: Option<Card>)
        ensures
            old(self)@.len() == 0 ==> c is None && final(self)@ == old(self)@,
            old(self)@.len() > 0 ==> c == Some(old(self)@.last()) && final(self)@ == old(self)@.drop_last(),
    {
        self.0.pop()
    }

    /// Draws up to `n` cards, fewer when the deck runs out.
    pub fn draw_multiple(&mut self, n: usize) -> (stack: Vec<Card>)
        ensures
            stack@ == drawn_cards(old(self)@, n as nat),
            final(self)@ == deck_after(old(self)@, n as nat),
    {
        let ghost start = self@;
        let mut stack: Vec<Card> = Vec::new();
        let mut i: usize = 0;
        while i < n
            invariant_except_break
                i <= n,
                i <= start.len(),
                stack@ == drawn_cards(start, i as nat),
                self@ == deck_after(start, i as nat),
            ensures
                stack@ == drawn_cards(start, n as nat),
                self@ == deck_after(start, n as nat),
            decreases n - i,
        {
            if let Some(c) = self.draw() {
                stack.push(c);
                i = i + 1;
                assert(stack@ =~= drawn_cards(start, i as nat));
                assert(self@ =~= deck_after(start, i as nat));
            } else {
                assert(drawn_cards(start, i as nat) =~= drawn_cards(start, n as nat));
                assert(deck_after(start, i as nat) =~= deck_after(start, n as nat));
                break;
            }
        }
        stack
    }

    /// Puts the given cards on top of the deck, in their order, and empties the list.
    pub fn add_cards(&mut self, cards: &mut Vec<Card>)
        ensures
            final(self)@ == old(self)@ + old(cards)@,
            final(cards)@.len() == 0,
    {
        self.0.append(cards);
    }

    /// Whether no card is left.
    pub fn is_empty(&self) -> (b: bool)
        ensures
            b == (self@.len() == 0),
    {
        self.0.len() == 0
    }

    /// The number of cards left.
    pub fn size(&self) -> (n: usize)
        ensures
            n == self@.len(),
    {
        self.0.len()
    }
}


/// The sum of the card values, aces counted as 11.
pub open spec fn cards_total(cs: Seq<Card>) -> nat
    decreases cs.len(),
{
    if cs.len() == 0 {
        0
    } else {
        cards_total(cs.drop_last()) + card_value(cs.last())
    }
}

/// The number of aces among the cards.
pub open spec fn ace_count(cs: Seq<Card>) -> nat
    decreases cs.len(),
{
    if cs.len() == 0 {
        0
    } else {
        ace_count(cs.drop_last()) + if cs.last().rank == Rank::Ace { 1nat } else { 0nat }
    }
}

/// How many aces count 1 in a hand: the fewest that bring the total to 21 or below, or all
/// of them when that is not possible.
pub open spec fn low_aces(cs: Seq<Card>) -> int {
    let t = cards_total(cs) as int;
    let a = ace_count(cs) as int;
    if t <= 21 {
        0
    } else if t - 10 * a > 21 {
        a
    } else {
        (t - 12) / 10
    }
}

/// The value of a hand. Each ace may count 11 or 1, so the candidates are the total minus
/// ten for each ace counted low; the value is the largest candidate of at most 21, or the
/// smallest candidate when all of them exceed 21.
pub open spec fn hand_value(cs: Seq<Card>) -> int {
    cards_total(cs) - 10 * low_aces(cs)
}

/// A hand of exactly two cards worth 21.
pub open spec fn is_blackjack_hand(cs: Seq<Card>) -> bool {
    hand_value(cs) == 21 && cs.len() == 2
}

/// The cards shown one after another, each followed by a space.
pub open spec fn cards_text(cs: Seq<Card>) -> Seq<char>
    decreases cs.len(),
{
    if cs.len() == 0 {
        Seq::empty()
    } else {
        cards_text(cs.drop_last()) + card_text(cs.last()) + " "@
    }
}

/// Every card counts at least 1 even with all aces counted low, so the smallest
/// candidate value is at least the number of cards.
pub proof fn lemma_low_total_bounds_count(cs: Seq<Card>)
    ensures
        cards_total(cs) >= 10 * ace_count(cs) + cs.len(),
        ace_count(cs) <= cs.len(),
    decreases cs.len(),
{
    if cs.len() > 0 {
        lemma_low_total_bounds_count(cs.drop_last());
    }
}

/// The value of a hand is never below its number of cards.
pub proof fn lemma_count_at_most_value(cs: Seq<Card>)
    ensures
        cs.len() <= hand_value(cs),
{
    lemma_low_total_bounds_count(cs);
}

/// The value is a candidate: the total minus ten for between none and all of the aces. When
/// it is at most 21, counting one ace fewer low would exceed 21; when it exceeds 21, every
/// ace is already counted low.
pub proof fn lemma_hand_value_is_best_candidate(cs: Seq<Card>)
    ensures
        0 <= low_aces(cs) <= ace_count(cs),
        hand_value(cs) == cards_total(cs) - 10 * low_aces(cs),
        hand_value(cs) <= 21 && low_aces(cs) > 0 ==> cards_total(cs) - 10 * (low_aces(cs) - 1) > 21,
        hand_value(cs) > 21 ==> low_aces(cs) == ace_count(cs),
{
}

/// A hand of cards, in the order they were dealt.
pub struct Stack(Vec<Card>);

impl View for Stack {
    type V = Seq<Card>;

    closed spec fn view(&self) -> Seq<Card> {
        self.0@
    }
}

impl Stack {
    /// An empty hand.
    pub fn new() -> (s: Stack)
        ensures
            s@ == Seq::<Card>::empty(),
    {
        Stack(Vec::new())
    }

    /// Adds a card to the hand.
    pub fn add(&mut self, card: Card)
        ensures
            final(self)@ == old(self)@.push(card),
    {
        self.0.push(card);
    }

    /// Empties the hand and gives back its cards.
    pub fn clear_stack(&mut self) -> (cards: Vec<Card>)
        ensures
            cards@ == old(self)@,
            final(self)@ == Seq::<Card>::empty(),
    {
        let mut cards: Vec<Card> = Vec::new();
        std::mem::swap(&mut cards, &mut self.0);
        cards
    }

    /// The cards of the hand.
    pub fn cards(&self) -> (cs: &Vec<Card>)
        ensures
            cs@ == self@,
    {
        &self.0
    }

    /// The blackjack value of the hand (see `hand_value`).
    pub fn value(&self) -> (v: usize)
        requires
            self@.len() * 11 <= usize::MAX,
        ensures
            v == hand_value(self@),
    {
        let mut total: usize = 0;
        let mut aces: usize = 0;
        let mut i: usize = 0;
        while i < self.0.len()
            invariant
                i <= self@.len(),
                self@.len() * 11 <= usize::MAX,
                total == cards_total(self@.take(i as int)),
                aces == ace_count(self@.take(i as int)),
                total <= 11 * i,
                aces <= i,
            decreases self@.len() - i,
        {
            let c = self.0[i];
            assert(self@.take(i + 1).drop_last() =~= self@.take(i as int));
            total = total + c.value();
            if c.rank == Rank::Ace {
                aces = aces + 1;
            }
            i = i + 1;
        }
        assert(self@.take(self@.len() as int) =~= self@);
        proof {
            lemma_low_total_bounds_count(self@);
        }
        let mut n: usize = 0;
        loop
            invariant
                n <= aces,
                total == cards_total(self@),
                aces == ace_count(self@),
                total >= 10 * aces,
                n == 0 || total - 10 * (n - 1) > 21,
            decreases aces - n,
        {
            if total - 10 * n <= 21 || n == aces {
                return total - 10 * n;
            }
            n = n + 1;
        }
    }

    /// Whether the hand is a blackjack: two cards worth 21.
    pub fn is_blackjack(&self) -> (b: bool)
        requires
            self@.len() * 11 <= usize::MAX,
        ensures
            b == is_blackjack_hand(self@),
    {
        self.value() == 21 && self.0.len() == 2
    }

    /// Whether every card of the hand is a seven.
    pub fn all_sevens(&self) -> (b: bool)
        ensures
            b == (forall|i: int| 0 <= i < self@.len() ==> #[trigger] self@[i].rank == Rank::Seven),
    {
        let mut i: usize = 0;
        while i < self.0.len()
            invariant
                i <= self@.len(),
                forall|j: int| 0 <= j < i ==> #[trigger] self@[j].rank == Rank::Seven,
            decreases self@.len() - i,
        {
            if self.0[i].rank != Rank::Seven {
                return false;
            }
            i = i + 1;
        }
        true
    }

    /// The hand as text: each card followed by a space.
    pub fn to_text(&self) -> (s: String)
        ensures
            s@ == cards_text(self@),
    {
        let mut s = String::new();
        let mut i: usize = 0;
        while i < self.0.len()
            invariant
                i <= self@.len(),
                s@ == cards_text(self@.take(i as int)),
            decreases self@.len() - i,
        {
            let t = self.0[i].to_text();
            s.append(t.as_str());
            s.append(" ");
            i = i + 1;
            assert(self@.take(i as int).drop_last() =~= self@.take(i - 1));
        }
        assert(self@.take(self@.len() as int) =~= self@);
        s
    }
}


/// Where a round stands.
#[derive(Clone, Copy, Debug, PartialEq, Eq, Structural)]
pub enum GameState {
    Playing,
    BankWins,
    PlayerWins,
    PlayerWinsThreeToTwo,
    Draw,
    NotEnoughMoney,
}

/// What the player asks for.
#[derive(Clone, Copy, Debug, PartialEq, Eq, Structural)]
pub enum PlayerAction {
    Init,
    Hit,
    Stay,
}

/// What an update asks of the caller: show the table as in `shown` (see `Game::visualize`),
/// and change the player's bank balance by `balance_change` when it is given.
#[derive(Clone, Copy, Debug, PartialEq, Eq, Structural)]
pub struct Outcome {
    pub shown: GameState,
    pub balance_change: Option<i64>,
}

/// The abstract state of a game: the piles of cards as sequences and the plain fields.
pub ghost struct GameModel {
    pub deck: Seq<Card>,
    pub removed: Seq<Card>,
    pub player: u64,
    pub bet: i64,
    pub bank: Seq<Card>,
    pub hand: Seq<Card>,
    pub channel_id: u64,
    pub message_id: u64,
    pub state: GameState,
}

/// All cards of the game, wherever they lie.
pub open spec fn all_cards(g: GameModel) -> Multiset<Card> {
    g.deck.to_multiset().add(g.removed.to_multiset()).add(g.bank.to_multiset()).add(
        g.hand.to_multiset(),
    )
}

/// The largest bet whose triple still fits in an `i64`.
pub open spec fn max_bet() -> int {
    i64::MAX / 3
}

/// A game that can be played on: the 52 cards of one deck are all there, each once; the
/// hands are no larger than play can make them; while playing, the bank holds its one open
/// card and the player's hand is worth at most 20; and the bet can be paid out three times.
pub open spec fn game_wf(g: GameModel) -> bool {
    &&& all_cards(g) == full_deck().to_multiset()
    &&& g.bank.len() <= 18
    &&& g.hand.len() <= 21
    &&& g.state == GameState::Playing ==> g.bank.len() == 1 && hand_value(g.hand) <= 20
    &&& -max_bet() <= g.bet <= max_bet()
}

/// A round has ended and a new one may start.
pub open spec fn round_over(s: GameState) -> bool {
    s == GameState::BankWins || s == GameState::Draw || s == GameState::PlayerWins
        || s == GameState::PlayerWinsThreeToTwo
}

/// The player can pay the bet: a bank account exists and holds at least the bet.
pub open spec fn can_pay_spec(balance: Option<i64>, bet: i64) -> bool {
    match balance {
        Some(b) => b >= bet,
        None => false,
    }
}

/// The fewest cards the deck keeps before a move: with fewer, it is restocked.
pub open spec fn restock_threshold() -> nat {
    15
}

/// The game after the restock check: when fewer than 15 cards remain on the deck, the
/// removed cards are put back on it and it is shuffled, into the order `d`; otherwise the
/// game is as it was.
pub open spec fn restocked(g: GameModel, d: Seq<Card>) -> GameModel {
    if g.deck.len() < restock_threshold() {
        GameModel { deck: d, removed: Seq::empty(), ..g }
    } else {
        g
    }
}

/// `d` is the deck after the restock check: an order of the cards of the deck and the
/// removed cards when fewer than 15 cards remain, and the deck itself otherwise.
pub open spec fn is_restock_order(g: GameModel, d: Seq<Card>) -> bool {
    if g.deck.len() < restock_threshold() {
        d.to_multiset() == (g.deck + g.removed).to_multiset()
    } else {
        d == g.deck
    }
}

/// The bank draws from the deck while its hand is worth 17 or less and a card is left.
pub open spec fn bank_draws(bank: Seq<Card>, deck: Seq<Card>) -> (Seq<Card>, Seq<Card>)
    decreases deck.len(),
{
    if hand_value(bank) <= 17 && deck.len() > 0 {
        bank_draws(bank.push(deck.last()), deck.drop_last())
    } else {
        (bank, deck)
    }
}

/// Who wins once the bank has finished drawing.
pub open spec fn showdown(bank: Seq<Card>, hand: Seq<Card>) -> GameState {
    if is_blackjack_hand(bank) && is_blackjack_hand(hand) {
        GameState::Draw
    } else if is_blackjack_hand(bank) && !is_blackjack_hand(hand) {
        GameState::BankWins
    } else if !is_blackjack_hand(bank) && is_blackjack_hand(hand) {
        GameState::PlayerWinsThreeToTwo
    } else if hand_value(bank) > 21 {
        GameState::PlayerWins
    } else if hand_value(bank) > hand_value(hand) {
        GameState::BankWins
    } else if hand_value(bank) < hand_value(hand) {
        GameState::PlayerWins
    } else {
        GameState::Draw
    }
}

/// What the player gets back at the end of a round: the bet for a tie, twice the bet for a
/// win, three times for a blackjack, nothing when the bank wins.
pub open spec fn payout(s: GameState, bet: i64) -> Option<i64> {
    match s {
        GameState::Draw => Some(bet),
        GameState::PlayerWins => Some((2 * bet) as i64),
        GameState::PlayerWinsThreeToTwo => Some((3 * bet) as i64),
        _ => None,
    }
}

/// The game after the player stays: the bank draws, then the hands are compared.
pub open spec fn stay_model(g: GameModel) -> GameModel {
    let (bank, deck) = bank_draws(g.bank, g.deck);
    GameModel { bank, deck, state: showdown(bank, g.hand), ..g }
}

/// The outcome of staying.
pub open spec fn stay_outcome(g: GameModel) -> Outcome {
    let s = stay_model(g).state;
    Outcome { shown: s, balance_change: payout(s, g.bet) }
}

/// The game after a new round is dealt: the hands go to the removed cards (the player's
/// first), then the bank and the player draw one card each.
pub open spec fn deal_model(g: GameModel) -> GameModel {
    let d = g.deck;
    GameModel {
        removed: g.removed + g.hand + g.bank,
        bank: seq![d.last()],
        hand: seq![d.drop_last().last()],
        deck: d.drop_last().drop_last(),
        state: GameState::Playing,
        ..g
    }
}

/// The game after the player draws one card, before the result is judged.
pub open spec fn hit_model(g: GameModel) -> GameModel {
    GameModel { hand: g.hand.push(g.deck.last()), deck: g.deck.drop_last(), ..g }
}

/// Every card of the hand is a seven.
pub open spec fn all_sevens(cs: Seq<Card>) -> bool {
    forall|i: int| 0 <= i < cs.len() ==> #[trigger] cs[i].rank == Rank::Seven
}

/// One move on a game after the restock check. A new round starts only when the last one
/// is over, and only when the player can pay the bet; a hit or a stay only counts while
/// playing. Reaching exactly 21 with a hit ends the round at three to two when every card is
/// a seven, and otherwise stays, after a second restock check (restocking into the order
/// `d2`). Any other move leaves the game as it was and asks for nothing.
pub open spec fn move_result(
    g: GameModel,
    action: PlayerAction,
    can_pay: bool,
    d2: Seq<Card>,
) -> (GameModel, Option<Outcome>) {
    match action {
        PlayerAction::Init => {
            if !round_over(g.state) {
                (g, None)
            } else if can_pay {
                (
                    deal_model(g),
                    Some(Outcome { shown: GameState::Playing, balance_change: Some((-g.bet) as i64) }),
                )
            } else {
                (
                    GameModel { state: GameState::NotEnoughMoney, ..g },
                    Some(Outcome { shown: GameState::NotEnoughMoney, balance_change: None }),
                )
            }
        },
        PlayerAction::Hit => {
            if g.state != GameState::Playing {
                (g, None)
            } else {
                let h = hit_model(g);
                if hand_value(h.hand) > 21 {
                    (
                        GameModel { state: GameState::BankWins, ..h },
                        Some(Outcome { shown: GameState::BankWins, balance_change: Some((-g.bet) as i64) }),
                    )
                } else if hand_value(h.hand) == 21 {
                    if all_sevens(h.hand) {
                        (
                            GameModel { state: GameState::PlayerWinsThreeToTwo, ..h },
                            Some(
                                Outcome {
                                    shown: GameState::PlayerWinsThreeToTwo,
                                    balance_change: Some((3 * g.bet) as i64),
                                },
                            ),
                        )
                    } else {
                        let h2 = restocked(h, d2);
                        (stay_model(h2), Some(stay_outcome(h2)))
                    }
                } else {
                    (h, Some(Outcome { shown: GameState::Playing, balance_change: None }))
                }
            }
        },
        PlayerAction::Stay => {
            if g.state != GameState::Playing {
                (g, None)
            } else {
                (stay_model(g), Some(stay_outcome(g)))
            }
        },
    }
}

/// A deck that the restock check may give: the removed cards laid on the deck unshuffled
/// when it is low, the deck itself otherwise.
pub open spec fn unshuffled_restock(g: GameModel) -> Seq<Card> {
    if g.deck.len() < restock_threshold() { g.deck + g.removed } else { g.deck }
}

/// Whether `d2` is an admissible deck for the second restock check, made on the game after
/// the hit (only a hit that reaches 21 uses it).
pub open spec fn second_shuffle_ok(g: GameModel, d2: Seq<Card>) -> bool {
    is_restock_order(hit_model(g), d2)
}

/// An update: the restock check (into the order `d`), then the move.
pub open spec fn update_result(
    g: GameModel,
    action: PlayerAction,
    balance: Option<i64>,
    d: Seq<Card>,
    d2: Seq<Card>,
) -> (GameModel, Option<Outcome>) {
    move_result(restocked(g, d), action, can_pay_spec(balance, g.bet), d2)
}


/// Taking the top card off a non-empty deck keeps the cards: the rest of the deck plus the
/// card are the deck.
proof fn lemma_take_top(d: Seq<Card>)
    requires
        d.len() > 0,
    ensures
        d.to_multiset() == d.drop_last().to_multiset().insert(d.last()),
{
    assert(d =~= d.drop_last().push(d.last()));
}

/// One blackjack game of a player, bound to the message that shows it.
pub struct Game {
    deck: Deck,
    removed_cards: Vec<Card>,
    player: u64,
    bet: i64,
    bank_cards: Stack,
    player_cards: Stack,
    channel_id: u64,
    message_id: u64,
    state: GameState,
}

impl View for Game {
    type V = GameModel;

    closed spec fn view(&self) -> GameModel {
        GameModel {
            deck: self.deck@,
            removed: self.removed_cards@,
            player: self.player,
            bet: self.bet,
            bank: self.bank_cards@,
            hand: self.player_cards@,
            channel_id: self.channel_id,
            message_id: self.message_id,
            state: self.state,
        }
    }
}

impl Game {
    /// A new game with a freshly shuffled deck, empty hands and the round counted as a tie,
    /// so that a round may be dealt.
    pub fn new(player: u64, bet: i64, channel_id: u64, message_id: u64) -> (g: Game)
        requires
            -max_bet() <= bet <= max_bet(),
        ensures
            game_wf(g@),
            g@.deck.to_multiset() == full_deck().to_multiset(),
            g@.removed.len() == 0,
            g@.bank.len() == 0,
            g@.hand.len() == 0,
            g@.player == player,
            g@.bet == bet,
            g@.channel_id == channel_id,
            g@.message_id == message_id,
            g@.state == GameState::Draw,
    {
        let mut deck = Deck::new();
        deck.shuffle();
        let g = Game {
            deck,
            removed_cards: Vec::with_capacity(52),
            player,
            bet,
            bank_cards: Stack::new(),
            player_cards: Stack::new(),
            channel_id,
            message_id,
            state: GameState::Draw,
        };
        assert(all_cards(g@) =~= full_deck().to_multiset());
        g
    }

    /// The player of the game.
    pub fn player(&self) -> (p: u64)
        ensures
            p == self@.player,
    {
        self.player
    }

    /// The message that shows the game.
    pub fn message_id(&self) -> (m: u64)
        ensures
            m == self@.message_id,
    {
        self.message_id
    }

    /// The channel of the message that shows the game.
    pub fn channel_id(&self) -> (c: u64)
        ensures
            c == self@.channel_id,
    {
        self.channel_id
    }

    /// The bet of each round.
    pub fn bet(&self) -> (b: i64)
        ensures
            b == self@.bet,
    {
        self.bet
    }

    /// Where the round stands.
    pub fn state(&self) -> (s: GameState)
        ensures
            s == self@.state,
    {
        self.state
    }

    /// The restock check: with fewer than 15 cards on the deck, puts the removed cards back
    /// on it and shuffles it.
    fn restock(&mut self)
        requires
            all_cards(old(self)@) == full_deck().to_multiset(),
        ensures
            is_restock_order(old(self)@, final(self)@.deck),
            final(self)@ == restocked(old(self)@, final(self)@.deck),
            all_cards(final(self)@) == full_deck().to_multiset(),
    {
        let size = self.deck.size();
        if size < 15 {
            self.deck.add_cards(&mut self.removed_cards);
            self.deck.shuffle();
            assert(self.removed_cards@ =~= Seq::<Card>::empty());
            assert(all_cards(self@) =~= all_cards(old(self)@));
        }
    }

    /// The bank draws while its hand is worth 17 or less and the deck holds a card, then the
    /// hands are compared and the round ends.
    fn stay(&mut self) -> (out: Outcome)
        requires
            all_cards(old(self)@) == full_deck().to_multiset(),
            old(self)@.bank.len() == 1,
            old(self)@.hand.len() <= 21,
            -max_bet() <= old(self)@.bet <= max_bet(),
        ensures
            final(self)@ == stay_model(old(self)@),
            out == stay_outcome(old(self)@),
            game_wf(final(self)@),
    {
        proof {
            lemma_cards_count(self@);
        }
        let ghost start = self@;
        let mut bank_value = self.bank_cards.value();
        while bank_value <= 17 && self.deck.size() > 0
            invariant
                all_cards(self@) == full_deck().to_multiset(),
                self@.hand.len() <= 21,
                self@.bank.len() <= 18,
                bank_value == hand_value(self@.bank),
                bank_draws(self@.bank, self@.deck) == bank_draws(start.bank, start.deck),
                self@ == (GameModel { bank: self@.bank, deck: self@.deck, ..start }),
            decreases self@.deck.len(),
        {
            proof {
                lemma_count_at_most_value(self@.bank);
                lemma_take_top(self@.deck);
            }
            let ghost before = self@;
            let c = self.deck.draw().unwrap();
            self.bank_cards.add(c);
            bank_value = self.bank_cards.value();
            assert(all_cards(self@) =~= all_cards(before));
        }
        let bank_bj = self.bank_cards.is_blackjack();
        let player_bj = self.player_cards.is_blackjack();
        let player_value = self.player_cards.value();
        let out = if bank_bj && player_bj {
            self.state = GameState::Draw;
            Outcome { shown: GameState::Draw, balance_change: Some(self.bet) }
        } else if bank_bj && !player_bj {
            self.state = GameState::BankWins;
            Outcome { shown: GameState::BankWins, balance_change: None }
        } else if !bank_bj && player_bj {
            self.state = GameState::PlayerWinsThreeToTwo;
            Outcome { shown: GameState::PlayerWinsThreeToTwo, balance_change: Some(3 * self.bet) }
        } else if bank_value > 21 {
            self.state = GameState::PlayerWins;
            Outcome { shown: GameState::PlayerWins, balance_change: Some(2 * self.bet) }
        } else if bank_value > player_value {
            self.state = GameState::BankWins;
            Outcome { shown: GameState::BankWins, balance_change: None }
        } else if bank_value < player_value {
            self.state = GameState::PlayerWins;
            Outcome { shown: GameState::PlayerWins, balance_change: Some(2 * self.bet) }
        } else {
            self.state = GameState::Draw;
            Outcome { shown: GameState::Draw, balance_change: Some(self.bet) }
        };
        out
    }
}

impl Game {
    /// Plays one move. First, when fewer than 15 cards remain on the deck, the removed cards
    /// go back on it and it is shuffled. Then: a new round (`Init`) is dealt when the last
    /// round is over and the player's `balance` covers the bet, and costs the bet; when the
    /// balance does not cover it the game stops with `NotEnoughMoney`. A hit draws a card for
    /// the player: over 21 the bank wins and the bet is taken once more; exactly 21 with only
    /// sevens pays three times the bet; exactly 21 otherwise makes the restock check again and
    /// stays. A stay lets the bank draw while it holds 17 or less and pays by `payout`. Moves
    /// that do not fit the state change nothing but the deck and give `None`.
    pub fn update(&mut self, action: PlayerAction, balance: Option<i64>) -> (out: Option<Outcome>)
        requires
            game_wf(old(self)@),
        ensures
            game_wf(final(self)@),
            exists|d: Seq<Card>, d2: Seq<Card>|
                is_restock_order(old(self)@, d) && second_shuffle_ok(restocked(old(self)@, d), d2)
                    && (final(self)@, out) == #[trigger] update_result(old(self)@, action, balance, d, d2),
    {
        let ghost g0 = self@;
        self.restock();
        let ghost g1 = self@;
        let ghost d = self@.deck;
        proof {
            lemma_cards_count(self@);
        }
        let can_pay = match balance {
            Some(b) => b >= self.bet,
            None => false,
        };
        match action {
            PlayerAction::Init => {
                if self.state == GameState::BankWins || self.state == GameState::Draw
                    || self.state == GameState::PlayerWins
                    || self.state == GameState::PlayerWinsThreeToTwo {
                    if can_pay {
                        let mut hand = self.player_cards.clear_stack();
                        self.removed_cards.append(&mut hand);
                        let mut bank = self.bank_cards.clear_stack();
                        self.removed_cards.append(&mut bank);
                        proof {
                            lemma_take_top(self@.deck);
                            lemma_take_top(self@.deck.drop_last());
                        }
                        let ghost mid = self@;
                        assert(all_cards(mid) =~= all_cards(g1));
                        let b = self.deck.draw().unwrap();
                        self.bank_cards.add(b);
                        let p = self.deck.draw().unwrap();
                        self.player_cards.add(p);
                        self.state = GameState::Playing;
                        assert(all_cards(self@) =~= all_cards(mid));
                        assert(self@ == deal_model(g1));
                        proof {
                            lemma_single_card_value(self@.hand);
                        }
                        let out = Outcome { shown: GameState::Playing, balance_change: Some(-self.bet) };
                        proof {
                            lemma_witness(g0, action, balance, d, unshuffled_restock(hit_model(g1)), self@, Some(out));
                        }
                        Some(out)
                    } else {
                        self.state = GameState::NotEnoughMoney;
                        assert(all_cards(self@) =~= all_cards(g1));
                        let out = Outcome { shown: GameState::NotEnoughMoney, balance_change: None };
                        proof {
                            lemma_witness(g0, action, balance, d, unshuffled_restock(hit_model(g1)), self@, Some(out));
                        }
                        Some(out)
                    }
                } else {
                    proof {
                        lemma_witness(g0, action, balance, d, unshuffled_restock(hit_model(g1)), self@, None);
                    }
                    None
                }
            },
            PlayerAction::Hit => {
                if self.state == GameState::Playing {
                    proof {
                        lemma_take_top(self@.deck);
                        lemma_count_at_most_value(self@.hand);
                    }
                    let c = self.deck.draw().unwrap();
                    self.player_cards.add(c);
                    assert(all_cards(self@) =~= all_cards(g1));
                    assert(self@ == hit_model(g1));
                    let value = self.player_cards.value();
                    if value > 21 {
                        self.state = GameState::BankWins;
                        let out = Outcome { shown: GameState::BankWins, balance_change: Some(-self.bet) };
                        proof {
                            lemma_witness(g0, action, balance, d, unshuffled_restock(hit_model(g1)), self@, Some(out));
                        }
                        Some(out)
                    } else if value == 21 {
                        if self.player_cards.all_sevens() {
                            self.state = GameState::PlayerWinsThreeToTwo;
                            let out = Outcome {
                                shown: GameState::PlayerWinsThreeToTwo,
                                balance_change: Some(3 * self.bet),
                            };
                            proof {
                                lemma_witness(g0, action, balance, d, unshuffled_restock(hit_model(g1)), self@, Some(out));
                            }
                            Some(out)
                        } else {
                            self.restock();
                            let ghost h2 = self@;
                            let out = self.stay();
                            proof {
                                lemma_witness(g0, action, balance, d, h2.deck, self@, Some(out));
                            }
                            Some(out)
                        }
                    } else {
                        let out = Outcome { shown: GameState::Playing, balance_change: None };
                        proof {
                            lemma_witness(g0, action, balance, d, unshuffled_restock(hit_model(g1)), self@, Some(out));
                        }
                        Some(out)
                    }
                } else {
                    proof {
                        lemma_witness(g0, action, balance, d, unshuffled_restock(hit_model(g1)), self@, None);
                    }
                    None
                }
            },
            PlayerAction::Stay => {
                if self.state == GameState::Playing {
                    let out = self.stay();
                    proof {
                        lemma_witness(g0, action, balance, d, unshuffled_restock(hit_model(g1)), self@, Some(out));
                    }
                    Some(out)
                } else {
                    proof {
                        lemma_witness(g0, action, balance, d, unshuffled_restock(hit_model(g1)), self@, None);
                    }
                    None
                }
            },
        }
    }
}

/// The table: the bank's hand and the player's hand, one per line.
pub open spec fn table_text(g: GameModel) -> Seq<char> {
    "Bank: "@ + cards_text(g.bank) + "\nYou: "@ + cards_text(g.hand) + "\n"@
}

/// The message that shows a game in the given state.
pub open spec fn visualize_text(g: GameModel, s: GameState) -> Seq<char> {
    match s {
        GameState::Playing => table_text(g),
        GameState::BankWins => table_text(g) + "You lost! Play again?"@,
        GameState::PlayerWins => table_text(g) + "You won "@ + int_text(2 * g.bet) + "! Play again?"@,
        GameState::PlayerWinsThreeToTwo => table_text(g) + "You won "@ + int_text(3 * g.bet)
            + "! Play again?"@,
        GameState::Draw => table_text(g) + "You Tied! Play again?"@,
        GameState::NotEnoughMoney => "You have not enough money left to play!"@,
    }
}

impl Game {
    /// The message text that shows the game in the given state.
    pub fn visualize(&self, state: GameState) -> (text: String)
        requires
            -max_bet() <= self@.bet <= max_bet(),
        ensures
            text@ == visualize_text(self@, state),
    {
        if state == GameState::NotEnoughMoney {
            let mut t = String::new();
            t.append("You have not enough money left to play!");
            return t;
        }
        let mut t = String::new();
        t.append("Bank: ");
        let bank = self.bank_cards.to_text();
        t.append(bank.as_str());
        t.append("\nYou: ");
        let hand = self.player_cards.to_text();
        t.append(hand.as_str());
        t.append("\n");
        match state {
            GameState::BankWins => {
                t.append("You lost! Play again?");
                assert(t@ =~= table_text(self@) + "You lost! Play again?"@);
            },
            GameState::PlayerWins => {
                t.append("You won ");
                let n = i64_text(self.bet * 2);
                t.append(n.as_str());
                t.append("! Play again?");
                assert(t@ =~= table_text(self@) + "You won "@ + int_text(2 * self@.bet) + "! Play again?"@);
            },
            GameState::PlayerWinsThreeToTwo => {
                t.append("You won ");
                let n = i64_text(self.bet * 3);
                t.append(n.as_str());
                t.append("! Play again?");
                assert(t@ =~= table_text(self@) + "You won "@ + int_text(3 * self@.bet) + "! Play again?"@);
            },
            GameState::Draw => {
                t.append("You Tied! Play again?");
                assert(t@ =~= table_text(self@) + "You Tied! Play again?"@);
            },
            _ => {},
        }
        assert(t@ =~= visualize_text(self@, state));
        t
    }
}

/// A hand of one card is worth that card, at most 11.
proof fn lemma_single_card_value(cs: Seq<Card>)
    requires
        cs.len() == 1,
    ensures
        hand_value(cs) <= 11,
{
    assert(cs.drop_last() =~= Seq::<Card>::empty());
    assert(cards_total(cs.drop_last()) == 0);
    assert(cards_total(cs) == card_value(cs.last()));
    assert(cards_total(cs) <= 11);
}

/// Packs the two shuffles of an update as witnesses of its postcondition.
proof fn lemma_witness(
    g: GameModel,
    action: PlayerAction,
    balance: Option<i64>,
    d: Seq<Card>,
    d2: Seq<Card>,
    g2: GameModel,
    out: Option<Outcome>,
)
    requires
        is_restock_order(g, d),
        second_shuffle_ok(restocked(g, d), d2),
        (g2, out) == update_result(g, action, balance, d, d2),
    ensures
        exists|d: Seq<Card>, d2: Seq<Card>|
            is_restock_order(g, d) && second_shuffle_ok(restocked(g, d), d2)
                && (g2, out) == #[trigger] update_result(g, action, balance, d, d2),
{
}

/// The four piles together always hold the 52 cards, so their sizes add up to 52.
proof fn lemma_cards_count(g: GameModel)
    requires
        all_cards(g) == full_deck().to_multiset(),
    ensures
        g.deck.len() + g.removed.len() + g.bank.len() + g.hand.len() == 52,
{
    assert(full_deck().to_multiset().len() == 52);
}


/// The models of a list of games.
pub open spec fn game_models(games: Seq<Game>) -> Seq<GameModel> {
    games.map_values(|g: Game| g@)
}

/// The game belongs to the user and is shown by the message.
pub open spec fn is_game_of(g: GameModel, user: u64, message_id: u64) -> bool {
    g.player == user && g.message_id == message_id
}

/// `i` is the first game of the user shown by the message.
pub open spec fn is_first_game_of(games: Seq<GameModel>, user: u64, message_id: u64, i: int) -> bool {
    &&& 0 <= i < games.len()
    &&& is_game_of(games[i], user, message_id)
    &&& forall|j: int| 0 <= j < i ==> !is_game_of(#[trigger] games[j], user, message_id)
}

/// What a move on the first matching game does to the list of games: with no game of the
/// user on that message nothing changes and the answer is `None`; otherwise that game is
/// updated as by `Game::update` and the others stay as they were.
pub open spec fn games_after_move(
    old_games: Seq<GameModel>,
    new_games: Seq<GameModel>,
    user: u64,
    message_id: u64,
    action: PlayerAction,
    balance: Option<i64>,
    out: Option<Outcome>,
) -> bool {
    if forall|j: int| 0 <= j < old_games.len() ==> !is_game_of(#[trigger] old_games[j], user, message_id) {
        new_games == old_games && out is None
    } else {
        exists|i: int|
            #![trigger is_first_game_of(old_games, user, message_id, i)]
            is_first_game_of(old_games, user, message_id, i) && new_games.len() == old_games.len()
                && (forall|j: int| 0 <= j < old_games.len() && j != i ==> new_games[j] == old_games[j])
                && (exists|d: Seq<Card>, d2: Seq<Card>|
                is_restock_order(old_games[i], d) && second_shuffle_ok(restocked(old_games[i], d), d2)
                    && (new_games[i], out) == #[trigger] update_result(
                    old_games[i],
                    action,
                    balance,
                    d,
                    d2,
                ))
    }
}

/// A game as `Game::new` makes it, with the deck in the order `d0`.
pub open spec fn fresh_game(d0: Seq<Card>, user: u64, bet: i64, channel_id: u64, message_id: u64) -> GameModel {
    GameModel {
        deck: d0,
        removed: Seq::empty(),
        player: user,
        bet,
        bank: Seq::empty(),
        hand: Seq::empty(),
        channel_id,
        message_id,
        state: GameState::Draw,
    }
}

/// The running blackjack games, at most one per player.
pub struct State(Vec<Game>);

impl View for State {
    type V = Seq<GameModel>;

    closed spec fn view(&self) -> Seq<GameModel> {
        game_models(self.0@)
    }
}

impl State {
    /// Every game can be played on.
    pub open spec fn wf(&self) -> bool {
        forall|i: int| 0 <= i < self@.len() ==> game_wf(#[trigger] self@[i])
    }

    /// No games.
    pub fn new() -> (s: State)
        ensures
            s@ == Seq::<GameModel>::empty(),
            s.wf(),
    {
        let s = State(Vec::new());
        assert(s@ =~= Seq::<GameModel>::empty());
        s
    }

    /// The games, for saving.
    pub fn games(&self) -> (gs: &Vec<Game>)
        ensures
            game_models(gs@) == self@,
    {
        &self.0
    }

    /// The position of the first game of the user shown by the message.
    fn find(&self, user: u64, message_id: u64) -> (i: Option<usize>)
        ensures
            match i {
                Some(i) => is_first_game_of(self@, user, message_id, i as int),
                None => forall|j: int| 0 <= j < self@.len() ==> !is_game_of(#[trigger] self@[j], user, message_id),
            },
    {
        let mut i: usize = 0;
        while i < self.0.len()
            invariant
                i <= self@.len(),
                self@.len() == self.0@.len(),
                forall|j: int| 0 <= j < i ==> !is_game_of(#[trigger] self@[j], user, message_id),
            decreases self@.len() - i,
        {
            if self.0[i].player == user && self.0[i].message_id == message_id {
                return Some(i);
            }
            i = i + 1;
        }
        None
    }

    /// Plays a move on the first game of the user shown by the message.
    fn play(&mut self, user: u64, message_id: u64, action: PlayerAction, balance: Option<i64>) -> (out: Option<Outcome>)
        requires
            old(self).wf(),
        ensures
            final(self).wf(),
            games_after_move(old(self)@, final(self)@, user, message_id, action, balance, out),
    {
        match self.find(user, message_id) {
            None => None,
            Some(i) => {
                let ghost old_games = self@;
                let mut g = self.0.remove(i);
                assert(game_wf(g@)) by {
                    assert(old_games[i as int] == g@);
                }
                let out = g.update(action, balance);
                self.0.insert(i, g);
                assert(self@.len() == old_games.len());
                assert(forall|j: int| 0 <= j < old_games.len() && j != i ==> self@[j] == old_games[j]);
                assert(self@[i as int] == g@);
                assert(is_first_game_of(old_games, user, message_id, i as int));
                assert forall|j: int| 0 <= j < self@.len() implies game_wf(#[trigger] self@[j]) by {
                    if j != i {
                        assert(self@[j] == old_games[j]);
                    }
                }
                out
            },
        }
    }

    /// Removes every game of the user.
    fn remove_games_of(&mut self, user: u64)
        requires
            old(self).wf(),
        ensures
            final(self).wf(),
            final(self)@ == old(self)@.filter(|g: GameModel| g.player != user),
    {
        let ghost start = self@;
        let ghost keep = |g: GameModel| g.player != user;
        let mut rest: Vec<Game> = Vec::new();
        std::mem::swap(&mut rest, &mut self.0);
        let n: usize = rest.len();
        let mut k: usize = 0;
        assert(game_models(rest@) == start);
        assert(start.take(0) =~= Seq::<GameModel>::empty());
        assert(start.take(0).filter(keep) =~= Seq::<GameModel>::empty()) by {
            reveal_with_fuel(Seq::<_>::filter, 1);
        }
        while rest.len() > 0
            invariant
                k <= n,
                rest@.len() == n - k,
                game_models(rest@) == start.skip(k as int),
                self@ == start.take(k as int).filter(keep),
                self.wf(),
                forall|i: int| 0 <= i < start.len() ==> game_wf(#[trigger] start[i]),
                n == start.len(),
                keep == (|g: GameModel| g.player != user),
            decreases rest@.len(),
        {
            let ghost rest_before = rest@;
            assert(game_models(rest_before)[0] == rest_before[0]@);
            assert(start.skip(k as int)[0] == start[k as int]);
            let g = rest.remove(0);
            assert(g@ == start[k as int]);
            let ghost gm = g@;
            assert(game_models(rest@) =~= game_models(rest_before).drop_first());
            let ghost before = self@;
            if g.player != user {
                self.0.push(g);
                assert(self@ =~= before.push(start[k as int]));
            } else {
                assert(self@ =~= before);
            }
            proof {
                let t1 = start.take(k + 1);
                assert(t1.drop_last() =~= start.take(k as int));
                assert(t1.last() == start[k as int]);
                assert(t1.len() > 0);
                reveal_with_fuel(Seq::<_>::filter, 1);
                assert(t1.filter(keep) == (if keep(t1.last()) {
                    t1.drop_last().filter(keep).push(t1.last())
                } else {
                    t1.drop_last().filter(keep)
                }));
                assert(keep(gm) == (gm.player != user));
                if gm.player != user {
                    assert(keep(t1.last()));
                    assert(self@ =~= t1.filter(keep));
                } else {
                    assert(!keep(t1.last()));
                    assert(self@ =~= t1.filter(keep));
                }
                assert(game_models(rest@) =~= start.skip(k + 1));
            }
            k = k + 1;
        }
        assert(start.take(n as int) =~= start);
    }

    /// Starts a game for the user: any game the user had is dropped, a new game with a
    /// freshly shuffled deck is added last, and its first round is dealt as by `new_game`.
    pub fn add_game(
        &mut self,
        user: u64,
        bet: i64,
        channel_id: u64,
        message_id: u64,
        balance: Option<i64>,
    ) -> (out: Option<Outcome>)
        requires
            old(self).wf(),
            -max_bet() <= bet <= max_bet(),
        ensures
            final(self).wf(),
            final(self)@.len() == old(self)@.filter(|g: GameModel| g.player != user).len() + 1,
            final(self)@.drop_last() == old(self)@.filter(|g: GameModel| g.player != user),
            exists|d0: Seq<Card>, d: Seq<Card>, d2: Seq<Card>|
                #![trigger update_result(fresh_game(d0, user, bet, channel_id, message_id), PlayerAction::Init, balance, d, d2)]
                {
                    &&& d0.to_multiset() == full_deck().to_multiset()
                    &&& is_restock_order(fresh_game(d0, user, bet, channel_id, message_id), d)
                    &&& second_shuffle_ok(restocked(fresh_game(d0, user, bet, channel_id, message_id), d), d2)
                    &&& (final(self)@.last(), out) == update_result(
                        fresh_game(d0, user, bet, channel_id, message_id),
                        PlayerAction::Init,
                        balance,
                        d,
                        d2,
                    )
                },
    {
        self.remove_games_of(user);
        let ghost kept = self@;
        let g = Game::new(user, bet, channel_id, message_id);
        let ghost f = g@;
        self.0.push(g);
        assert(self@ =~= kept.push(f));
        assert forall|j: int| 0 <= j < self@.len() implies game_wf(#[trigger] self@[j]) by {
            if j < kept.len() {
                assert(self@[j] == kept[j]);
            }
        }
        assert forall|j: int| 0 <= j < kept.len() implies #[trigger] kept[j].player != user by {
            assert(kept.contains(kept[j]));
        }
        let ghost before = self@;
        let out = self.play(user, message_id, PlayerAction::Init, balance);
        let ghost last = before.len() - 1;
        assert(is_first_game_of(before, user, message_id, last)) by {
            assert(forall|j: int| 0 <= j < last ==> before[j] == kept[j]);
        }
        assert(!(forall|j: int| 0 <= j < before.len() ==> !is_game_of(#[trigger] before[j], user, message_id)));
        assert(self@.drop_last() =~= kept) by {
            assert forall|j: int| 0 <= j < kept.len() implies self@[j] == kept[j] by {
                if is_first_game_of(before, user, message_id, j) {
                    assert(before[j].player != user);
                }
            }
        }
        assert(f.removed =~= Seq::<Card>::empty());
        assert(f.bank =~= Seq::<Card>::empty());
        assert(f.hand =~= Seq::<Card>::empty());
        assert(f == fresh_game(f.deck, user, bet, channel_id, message_id));
        out
    }

    /// A hit on the game of the user shown by the message (see `Game::update`).
    pub fn hit(&mut self, user: u64, message_id: u64) -> (out: Option<Outcome>)
        requires
            old(self).wf(),
        ensures
            final(self).wf(),
            games_after_move(old(self)@, final(self)@, user, message_id, PlayerAction::Hit, None, out),
    {
        self.play(user, message_id, PlayerAction::Hit, None)
    }

    /// A stay on the game of the user shown by the message (see `Game::update`).
    pub fn stay(&mut self, user: u64, message_id: u64) -> (out: Option<Outcome>)
        requires
            old(self).wf(),
        ensures
            final(self).wf(),
            games_after_move(old(self)@, final(self)@, user, message_id, PlayerAction::Stay, None, out),
    {
        self.play(user, message_id, PlayerAction::Stay, None)
    }

    /// A new round on the game of the user shown by the message; `balance` is the user's bank
    /// balance, `None` when the user has no bank (see `Game::update`).
    pub fn new_game(&mut self, user: u64, message_id: u64, balance: Option<i64>) -> (out: Option<Outcome>)
        requires
            old(self).wf(),
        ensures
            final(self).wf(),
            games_after_move(old(self)@, final(self)@, user, message_id, PlayerAction::Init, balance, out),
    {
        self.play(user, message_id, PlayerAction::Init, balance)
    }
}


/// How often the card occurs in the sequence.
pub open spec fn card_count(s: Seq<Card>, c: Card) -> nat
    decreases s.len(),
{
    if s.len() == 0 {
        0
    } else {
        card_count(s.drop_last(), c) + if s.last() == c { 1nat } else { 0nat }
    }
}

proof fn lemma_card_count_multiset(s: Seq<Card>, c: Card)
    ensures
        s.to_multiset().count(c) == card_count(s, c),
    decreases s.len(),
{
    broadcast use vstd::seq_lib::group_to_multiset_ensures;
    if s.len() > 0 {
        lemma_card_count_multiset(s.drop_last(), c);
        assert(s =~= s.drop_last().push(s.last()));
    } else {
        assert(s.to_multiset() =~= Multiset::<Card>::empty());
    }
}

proof fn lemma_card_count_distinct(s: Seq<Card>, c: Card)
    requires
        forall|i: int, j: int| 0 <= i < j < s.len() ==> s[i] != s[j],
    ensures
        card_count(s, c) == if s.contains(c) { 1nat } else { 0nat },
    decreases s.len(),
{
    if s.len() > 0 {
        let rest = s.drop_last();
        assert forall|i: int, j: int| 0 <= i < j < rest.len() implies rest[i] != rest[j] by {
            assert(rest[i] == s[i] && rest[j] == s[j]);
        }
        lemma_card_count_distinct(rest, c);
        if s.last() == c {
            if rest.contains(c) {
                let k = choose|k: int| 0 <= k < rest.len() && rest[k] == c;
                assert(s[k] == s[s.len() - 1]);
            }
            assert(s[s.len() - 1] == c);
        } else if s.contains(c) {
            let k = choose|k: int| 0 <= k < s.len() && s[k] == c;
            assert(rest[k] == c);
        } else if rest.contains(c) {
            let k = choose|k: int| 0 <= k < rest.len() && rest[k] == c;
            assert(s[k] == c);
        }
    }
}

fn count_card(cards: &Vec<Card>, c: Card) -> (n: usize)
    ensures
        n == card_count(cards@, c),
{
    let mut n: usize = 0;
    let mut i: usize = 0;
    while i < cards.len()
        invariant
            i <= cards@.len(),
            n == card_count(cards@.take(i as int), c),
            n <= i,
        decreases cards@.len() - i,
    {
        assert(cards@.take(i + 1).drop_last() =~= cards@.take(i as int));
        if cards[i] == c {
            n = n + 1;
        }
        i = i + 1;
    }
    assert(cards@.take(cards@.len() as int) =~= cards@);
    n
}

/// The cards are exactly the 52 cards of one deck, each once.
fn is_one_deck(cards: &Vec<Card>) -> (ok: bool)
    ensures
        ok == (cards@.to_multiset() == full_deck().to_multiset()),
{
    broadcast use vstd::seq_lib::group_to_multiset_ensures;
    proof {
        lemma_full_deck_complete();
    }
    if cards.len() != 52 {
        assert(cards@.to_multiset().len() != full_deck().to_multiset().len());
        return false;
    }
    let fresh = Deck::new();
    let all = fresh.cards();
    let mut k: usize = 0;
    while k < 52
        invariant
            k <= 52,
            all@ == full_deck(),
            forall|j: int| 0 <= j < k ==> #[trigger] card_count(cards@, full_deck()[j]) == 1,
        decreases 52 - k,
    {
        if count_card(cards, all[k]) != 1 {
            proof {
                let c = full_deck()[k as int];
                lemma_card_count_multiset(cards@, c);
                lemma_card_count_multiset(full_deck(), c);
                lemma_card_count_distinct(full_deck(), c);
                assert(full_deck().contains(c)) by {
                    assert(full_deck()[k as int] == c);
                }
                assert(cards@.to_multiset().count(c) != full_deck().to_multiset().count(c));
            }
            return false;
        }
        k = k + 1;
    }
    proof {
        assert forall|c: Card| #[trigger] cards@.to_multiset().count(c) == full_deck().to_multiset().count(c) by {
            lemma_card_count_multiset(cards@, c);
            lemma_card_count_multiset(full_deck(), c);
            lemma_card_count_distinct(full_deck(), c);
            assert(full_deck().contains(c));
            let j = choose|j: int| 0 <= j < full_deck().len() && full_deck()[j] == c;
            assert(card_count(cards@, full_deck()[j]) == 1);
        }
        assert(cards@.to_multiset() =~= full_deck().to_multiset());
    }
    true
}

/// A game as it is saved: its piles of cards, the player, the bet, where it is shown and its
/// state.
pub struct SavedGame {
    pub deck: Vec<Card>,
    pub removed: Vec<Card>,
    pub player: u64,
    pub bet: i64,
    pub bank: Vec<Card>,
    pub hand: Vec<Card>,
    pub channel_id: u64,
    pub message_id: u64,
    pub state: GameState,
}

/// The game a saved game describes.
pub open spec fn saved_model(s: SavedGame) -> GameModel {
    GameModel {
        deck: s.deck@,
        removed: s.removed@,
        player: s.player,
        bet: s.bet,
        bank: s.bank@,
        hand: s.hand@,
        channel_id: s.channel_id,
        message_id: s.message_id,
        state: s.state,
    }
}

fn copy_cards(cards: &Vec<Card>) -> (v: Vec<Card>)
    ensures
        v@ == cards@,
{
    let mut v: Vec<Card> = Vec::new();
    let mut i: usize = 0;
    while i < cards.len()
        invariant
            i <= cards@.len(),
            v@ == cards@.take(i as int),
        decreases cards@.len() - i,
    {
        v.push(cards[i]);
        i = i + 1;
        assert(v@ =~= cards@.take(i as int));
    }
    assert(cards@.take(cards@.len() as int) =~= cards@);
    v
}

fn append_cards(all: &mut Vec<Card>, more: &Vec<Card>)
    ensures
        final(all)@ == old(all)@ + more@,
{
    let mut i: usize = 0;
    let ghost start = all@;
    while i < more.len()
        invariant
            i <= more@.len(),
            all@ == start + more@.take(i as int),
        decreases more@.len() - i,
    {
        all.push(more[i]);
        i = i + 1;
        assert(all@ =~= start + more@.take(i as int));
    }
    assert(more@.take(more@.len() as int) =~= more@);
}

impl Game {
    /// Rebuilds a saved game, which must be one that can be played on (see `game_wf`);
    /// `None` when it is not.
    pub fn restore(saved: SavedGame) -> (r: Option<Game>)
        ensures
            match r {
                Some(g) => g@ == saved_model(saved) && game_wf(g@),
                None => !game_wf(saved_model(saved)),
            },
    {
        let ghost m = saved_model(saved);
        if saved.bank.len() > 18 || saved.hand.len() > 21 {
            return None;
        }
        if saved.bet < -(i64::MAX / 3) || saved.bet > i64::MAX / 3 {
            return None;
        }
        let hand = Stack(copy_cards(&saved.hand));
        if saved.state == GameState::Playing {
            if saved.bank.len() != 1 || hand.value() > 20 {
                return None;
            }
        }
        let mut all: Vec<Card> = Vec::new();
        append_cards(&mut all, &saved.deck);
        append_cards(&mut all, &saved.removed);
        append_cards(&mut all, &saved.bank);
        append_cards(&mut all, &saved.hand);
        proof {
            broadcast use vstd::seq_lib::group_to_multiset_ensures;
            let e = Seq::<Card>::empty();
            assert(all@ =~= ((m.deck + m.removed) + m.bank) + m.hand);
            vstd::seq_lib::lemma_multiset_commutative(m.deck, m.removed);
            vstd::seq_lib::lemma_multiset_commutative(m.deck + m.removed, m.bank);
            vstd::seq_lib::lemma_multiset_commutative((m.deck + m.removed) + m.bank, m.hand);
            assert(all@.to_multiset() == all_cards(m));
        }
        if !is_one_deck(&all) {
            return None;
        }
        Some(Game {
            deck: Deck(saved.deck),
            removed_cards: saved.removed,
            player: saved.player,
            bet: saved.bet,
            bank_cards: Stack(saved.bank),
            player_cards: hand,
            channel_id: saved.channel_id,
            message_id: saved.message_id,
            state: saved.state,
        })
    }

    /// The game as it is saved.
    pub fn save(&self) -> (s: SavedGame)
        ensures
            saved_model(s) == self@,
    {
        SavedGame {
            deck: copy_cards(self.deck.cards()),
            removed: copy_cards(&self.removed_cards),
            player: self.player,
            bet: self.bet,
            bank: copy_cards(self.bank_cards.cards()),
            hand: copy_cards(self.player_cards.cards()),
            channel_id: self.channel_id,
            message_id: self.message_id,
            state: self.state,
        }
    }
}

/// The games that saved games describe.
pub open spec fn saved_models(saved: Seq<SavedGame>) -> Seq<GameModel> {
    saved.map_values(|g: SavedGame| saved_model(g))
}

impl State {
    /// The games as they are saved, in order.
    pub fn save(&self) -> (saved: Vec<SavedGame>)
        ensures
            saved_models(saved@) == self@,
    {
        let mut saved: Vec<SavedGame> = Vec::new();
        let mut i: usize = 0;
        while i < self.0.len()
            invariant
                i <= self.0@.len(),
                saved_models(saved@) == game_models(self.0@).take(i as int),
            decreases self.0@.len() - i,
        {
            let g = self.0[i].save();
            let ghost before = saved@;
            saved.push(g);
            assert(saved_models(saved@) =~= saved_models(before).push(saved_model(g)));
            i = i + 1;
            assert(saved_models(saved@) =~= game_models(self.0@).take(i as int));
        }
        assert(game_models(self.0@).take(self.0@.len() as int) =~= game_models(self.0@));
        saved
    }

    /// Rebuilds the games from how they were saved: `Some` exactly when every saved game can
    /// be played on (see `game_wf`), with the games in order.
    pub fn load(saved: Vec<SavedGame>) -> (r: Option<State>)
        ensures
            r is Some <==> forall|i: int| 0 <= i < saved@.len() ==> game_wf(#[trigger] saved_models(saved@)[i]),
            r matches Some(s) ==> s@ == saved_models(saved@) && s.wf(),
    {
        let ghost models = saved_models(saved@);
        let mut games: Vec<Game> = Vec::new();
        let mut rest = saved;
        let ghost all = rest@;
        let mut k: usize = 0;
        let total = rest.len();
        assert(all.skip(0) =~= all);
        while k < total
            invariant
                k <= total,
                total == all.len(),
                models == saved_models(all),
                models == saved_models(saved@),
                rest@ == all.skip(k as int),
                game_models(games@) == models.take(k as int),
                forall|j: int| 0 <= j < k ==> game_wf(#[trigger] models[j]),
            decreases total - k,
        {
            let sg = rest.remove(0);
            proof {
                assert(sg == all[k as int]);
                assert(models[k as int] == saved_model(sg));
            }
            match Game::restore(sg) {
                Some(g) => {
                    let ghost before = games@;
                    games.push(g);
                    assert(game_models(games@) =~= game_models(before).push(g@));
                    assert(rest@ =~= all.skip(k + 1));
                    k = k + 1;
                    assert(game_models(games@) =~= models.take(k as int));
                },
                None => {
                    assert(saved_models(saved@).len() == saved@.len());
                    assert(k < saved@.len());
                    assert(!game_wf(saved_models(saved@)[k as int]));
                    return None;
                },
            }
        }
        assert(models.take(total as int) =~= models);
        let s = State(games);
        assert(s@ == models);
        Some(s)
    }
}

/// Loading what was saved succeeds: the saved games of a state whose games can all be
/// played on meet the condition under which `State::load` gives them back.
pub proof fn lemma_saved_state_loads(games: Seq<GameModel>, saved: Seq<SavedGame>)
    requires
        forall|i: int| 0 <= i < games.len() ==> game_wf(#[trigger] games[i]),
        saved_models(saved) == games,
    ensures
        forall|i: int| 0 <= i < saved.len() ==> game_wf(#[trigger] saved_models(saved)[i]),
{
    assert(saved_models(saved).len() == saved.len());
}

/// The bank stops drawing only when its hand is worth more than 17 or the deck is empty, and
/// it only ever adds cards to its hand.
proof fn lemma_bank_draws_stop(bank: Seq<Card>, deck: Seq<Card>)
    ensures
        hand_value(bank_draws(bank, deck).0) > 17 || bank_draws(bank, deck).1.len() == 0,
        bank_draws(bank, deck).0.len() >= bank.len(),
        bank_draws(bank, deck).0.subrange(0, bank.len() as int) == bank,
    decreases deck.len(),
{
    if hand_value(bank) <= 17 && deck.len() > 0 {
        let next = bank.push(deck.last());
        lemma_bank_draws_stop(next, deck.drop_last());
        let b = bank_draws(next, deck.drop_last()).0;
        assert(b.subrange(0, bank.len() as int) =~= b.subrange(0, next.len() as int).subrange(0, bank.len() as int));
        assert(next.subrange(0, bank.len() as int) =~= bank);
    } else {
        assert(bank.subrange(0, bank.len() as int) =~= bank);
    }
}

/// How a stay ends, for every game: the bank keeps its cards and draws until its hand is
/// worth more than 17 (or the deck is empty); then, when neither hand is a blackjack, a bank
/// over 21 loses, and otherwise the higher hand wins and equal hands tie. A tie gives the bet
/// back, a win of the player twice the bet, a blackjack of the player alone three times the
/// bet, and a win of the bank nothing. Two blackjacks tie; the bank's blackjack alone wins.
pub proof fn lemma_stay_settles(g: GameModel)
    requires
        -max_bet() <= g.bet <= max_bet(),
    ensures
        ({
            let s = stay_model(g);
            let o = stay_outcome(g);
            let b = s.bank;
            let h = g.hand;
            &&& hand_value(b) > 17 || s.deck.len() == 0
            &&& b.len() >= g.bank.len() && b.subrange(0, g.bank.len() as int) == g.bank
            &&& s.hand == g.hand && s.bet == g.bet && s.player == g.player
            &&& o.shown == s.state
            &&& (is_blackjack_hand(b) && is_blackjack_hand(h))
                ==> s.state == GameState::Draw && o.balance_change == Some(g.bet)
            &&& (is_blackjack_hand(b) && !is_blackjack_hand(h))
                ==> s.state == GameState::BankWins && o.balance_change is None
            &&& (!is_blackjack_hand(b) && is_blackjack_hand(h)) ==> s.state == GameState::PlayerWinsThreeToTwo
                && (o.balance_change matches Some(c) && c == 3 * g.bet)
            &&& (!is_blackjack_hand(b) && !is_blackjack_hand(h) && hand_value(b) > 21)
                ==> s.state == GameState::PlayerWins && (o.balance_change matches Some(c) && c == 2 * g.bet)
            &&& (!is_blackjack_hand(b) && !is_blackjack_hand(h) && hand_value(b) <= 21
                && hand_value(b) > hand_value(h)) ==> s.state == GameState::BankWins && o.balance_change is None
            &&& (!is_blackjack_hand(b) && !is_blackjack_hand(h) && hand_value(b) <= 21
                && hand_value(b) < hand_value(h)) ==> s.state == GameState::PlayerWins
                && (o.balance_change matches Some(c) && c == 2 * g.bet)
            &&& (!is_blackjack_hand(b) && !is_blackjack_hand(h) && hand_value(b) <= 21
                && hand_value(b) == hand_value(h)) ==> s.state == GameState::Draw && o.balance_change == Some(g.bet)
        }),
{
    lemma_bank_draws_stop(g.bank, g.deck);
}

/// A new round, for every game whose last round is over and whose player can pay: the hands
/// of the last round go to the removed cards, the bank and the player get one card each, the
/// round is being played, and the bet is taken: the balance changes by exactly minus the bet.
pub proof fn lemma_init_charges_bet(g: GameModel, balance: Option<i64>, d: Seq<Card>, d2: Seq<Card>)
    requires
        game_wf(g),
        round_over(g.state),
        can_pay_spec(balance, g.bet),
    ensures
        ({
            let (g2, out) = update_result(g, PlayerAction::Init, balance, d, d2);
            &&& out matches Some(o) && o.shown == GameState::Playing
                && (o.balance_change matches Some(c) && c == -g.bet)
            &&& g2.state == GameState::Playing
            &&& g2.bank.len() == 1 && g2.hand.len() == 1
            &&& g2.removed == restocked(g, d).removed + g.hand + g.bank
            &&& g2.bet == g.bet && g2.player == g.player
        }),
{
}

/// A hit, for every game being played: the player gets the top card of the deck (after the
/// restock check); over 21 the bank wins and the bet is taken (the balance changes by minus
/// the bet); exactly 21 of sevens only pays three times the bet; under 21 the round goes on
/// with no change of balance; exactly 21 otherwise lets the bank play as after a stay.
pub proof fn lemma_hit_settles(g: GameModel, balance: Option<i64>, d: Seq<Card>, d2: Seq<Card>)
    requires
        game_wf(g),
        g.state == GameState::Playing,
    ensures
        ({
            let (g2, out) = update_result(g, PlayerAction::Hit, balance, d, d2);
            let hand = g.hand.push(restocked(g, d).deck.last());
            &&& g2.hand == hand
            &&& hand_value(hand) > 21 ==> g2.state == GameState::BankWins
                && (out matches Some(o) && o.shown == GameState::BankWins
                    && (o.balance_change matches Some(c) && c == -g.bet))
            &&& (hand_value(hand) == 21 && all_sevens(hand)) ==> g2.state == GameState::PlayerWinsThreeToTwo
                && (out matches Some(o) && o.shown == GameState::PlayerWinsThreeToTwo
                    && (o.balance_change matches Some(c) && c == 3 * g.bet))
            &&& hand_value(hand) < 21 ==> g2.state == GameState::Playing
                && out == Some(Outcome { shown: GameState::Playing, balance_change: None })
            &&& (hand_value(hand) == 21 && !all_sevens(hand)) ==> g2 == stay_model(restocked(hit_model(restocked(g, d)), d2))
                && out == Some(stay_outcome(restocked(hit_model(restocked(g, d)), d2)))
        }),
{
}

/// A new round that cannot start, for every game: when the player cannot pay the bet the
/// game stops with `NotEnoughMoney` and no balance changes; while a round is being played a
/// request for a new one is ignored (`None`) and the hands stay.
pub proof fn lemma_init_refused(g: GameModel, balance: Option<i64>, d: Seq<Card>, d2: Seq<Card>)
    requires
        game_wf(g),
    ensures
        ({
            let (g2, out) = update_result(g, PlayerAction::Init, balance, d, d2);
            &&& (round_over(g.state) && !can_pay_spec(balance, g.bet)) ==> g2.state == GameState::NotEnoughMoney
                && out == Some(Outcome { shown: GameState::NotEnoughMoney, balance_change: None })
                && g2.hand == g.hand && g2.bank == g.bank
            &&& !round_over(g.state) ==> out is None && g2.hand == g.hand && g2.bank == g.bank
                && g2.state == g.state
        }),
{
}

} // verus!
