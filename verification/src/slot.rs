//! The slot machine: three reels of seven symbols and the payout rules.
use rand::Rng;
use vstd::prelude::*;
use crate::text::{i64_text, int_text};

verus! {

/// The three symbols a reel shows around the rolled symbol: the one before, the rolled one
/// and the one after, counting round the seven symbols 0 to 6.
pub open spec fn reel_of(roll: i64) -> Seq<i64> {
    if roll == 6 {
        seq![5, 6, 0]
    } else if roll == 0 {
        seq![6, 0, 1]
    } else {
        seq![(roll - 1) as i64, roll, (roll + 1) as i64]
    }
}

/// A reel as one roll can show it.
pub open spec fn is_reel(s: Seq<i64>) -> bool {
    exists|r: i64| 0 <= r < 7 && s == reel_of(r)
}

/// The reels are three columns of three symbols.
pub open spec fn reels_shape(reels: Seq<Seq<i64>>) -> bool {
    reels.len() >= 3 && forall|i: int| 0 <= i < 3 ==> (#[trigger] reels[i]).len() >= 3
}

/// The multiple of the bet that a spin pays at the given rates: `middle` when the middle
/// row shows one symbol three times, `diagonal` for the diagonal from the top left,
/// `anti_diagonal` for the diagonal from the bottom left, else nothing.
pub open spec fn payout_factor(reels: Seq<Seq<i64>>, middle: int, diagonal: int, anti_diagonal: int) -> int {
    if reels[0][1] == reels[1][1] && reels[1][1] == reels[2][1] {
        middle
    } else if reels[0][0] == reels[1][1] && reels[1][1] == reels[2][2] {
        diagonal
    } else if reels[0][2] == reels[1][1] && reels[1][1] == reels[2][0] {
        anti_diagonal
    } else {
        0
    }
}

/// The views of the reels.
pub open spec fn reel_views(reels: Seq<Vec<i64>>) -> Seq<Seq<i64>> {
    reels.map_values(|r: Vec<i64>| r@)
}

/// The symbols of a reel around the rolled symbol (see `reel_of`).
pub fn reel_from_roll(roll: i64) -> (reel: Vec<i64>)
    requires
        0 <= roll < 7,
    ensures
        reel@ == reel_of(roll),
{
    let prev;
    let next;
    if roll == 6 {
        prev = 5;
        next = 0;
    } else if roll == 0 {
        prev = 6;
        next = 1;
    } else {
        prev = roll - 1;
        next = roll + 1;
    }
    let mut reel = Vec::new();
    reel.push(prev);
    reel.push(roll);
    reel.push(next);
    assert(reel@ =~= reel_of(roll));
    reel
}

/// A symbol from 0 to 6, chosen with the thread's random number generator.
#[verifier::external_body]
fn roll_symbol() -> (r: i64)
    ensures
        0 <= r < 7,
{
    rand::thread_rng().gen_range(0..7)
}

/// Spins the three reels: each shows a random symbol with its neighbours.
pub fn spin_reels() -> (reels: Vec<Vec<i64>>)
    ensures
        reels@.len() == 3,
        forall|i: int| 0 <= i < 3 ==> is_reel(#[trigger] reels@[i]@),
{
    let mut reels: Vec<Vec<i64>> = Vec::new();
    let mut k: usize = 0;
    while k < 3
        invariant
            k <= 3,
            reels@.len() == k,
            forall|i: int| 0 <= i < k ==> is_reel(#[trigger] reels@[i]@),
        decreases 3 - k,
    {
        let roll = roll_symbol();
        let reel = reel_from_roll(roll);
        reels.push(reel);
        assert(reels@[k as int]@ == reel_of(roll));
        k = k + 1;
    }
    reels
}

/// What a spin pays: 50 times the bet for three equal symbols in the middle row, 40 times
/// for the diagonal from the top left, 20 times for the diagonal from the bottom left, else
/// nothing.
pub fn get_payout(full_reels: &[Vec<i64>], betted_amount: i64) -> (p: i64)
    requires
        reels_shape(reel_views(full_reels@)),
        i64::MIN <= payout_factor(reel_views(full_reels@), 50, 40, 20) * betted_amount <= i64::MAX,
    ensures
        p == payout_factor(reel_views(full_reels@), 50, 40, 20) * betted_amount,
{
    let ghost rv = reel_views(full_reels@);
    assert(rv[0] == full_reels@[0]@ && rv[1] == full_reels@[1]@ && rv[2] == full_reels@[2]@);
    if full_reels[0][1] == full_reels[1][1] && full_reels[1][1] == full_reels[2][1] {
        50 * betted_amount
    } else if full_reels[0][0] == full_reels[1][1] && full_reels[1][1] == full_reels[2][2] {
        40 * betted_amount
    } else if full_reels[0][2] == full_reels[1][1] && full_reels[1][1] == full_reels[2][0] {
        20 * betted_amount
    } else {
        0
    }
}


/// The symbol shown for a number: cheese, melon, cherries, kiwi, doughnut, potato, and an
/// aubergine for everything else.
pub open spec fn emoji_text(n: i64) -> Seq<char> {
    if n == 0 { "🧀"@ }
    else if n == 1 { "🍉"@ }
    else if n == 2 { "🍒"@ }
    else if n == 3 { "🥝"@ }
    else if n == 4 { "🍩"@ }
    else if n == 5 { "🥔"@ }
    else { "🍆"@ }
}

/// The symbol shown for a number (see `emoji_text`).
pub fn number_to_emoji(n: i64) -> (s: &'static str)
    ensures
        s@ == emoji_text(n),
{
    if n == 0 { "🧀" }
    else if n == 1 { "🍉" }
    else if n == 2 { "🍒" }
    else if n == 3 { "🥝" }
    else if n == 4 { "🍩" }
    else if n == 5 { "🥔" }
    else { "🍆" }
}

/// The three rows of the machine: row `j` shows symbol `j` of each reel, separated by ` | `.
pub open spec fn rows_text(r: Seq<Seq<i64>>) -> Seq<char> {
    emoji_text(r[0][0]) + " | "@ + emoji_text(r[1][0]) + " | "@ + emoji_text(r[2][0]) + " \n"@
        + emoji_text(r[0][1]) + " | "@ + emoji_text(r[1][1]) + " | "@ + emoji_text(r[2][1]) + "\n "@
        + emoji_text(r[0][2]) + " | "@ + emoji_text(r[1][2]) + " | "@ + emoji_text(r[2][2])
}

/// The machine after a spin, with the winnings and the new bank balance.
pub open spec fn slot_text(r: Seq<Seq<i64>>, payout: i64, updated_amount: i64) -> Seq<char> {
    rows_text(r) + "\n\n Gewonnen: "@ + int_text(payout as int) + "\nBank: "@ + int_text(updated_amount as int)
}

/// Appends the rows of the machine.
pub(crate) fn push_rows(t: &mut String, full_reels: &[Vec<i64>])
    requires
        reels_shape(reel_views(full_reels@)),
    ensures
        final(t)@ == old(t)@ + rows_text(reel_views(full_reels@)),
{
    let ghost rv = reel_views(full_reels@);
    assert(rv[0] == full_reels@[0]@ && rv[1] == full_reels@[1]@ && rv[2] == full_reels@[2]@);
    t.append(number_to_emoji(full_reels[0][0]));
    t.append(" | ");
    t.append(number_to_emoji(full_reels[1][0]));
    t.append(" | ");
    t.append(number_to_emoji(full_reels[2][0]));
    t.append(" \n");
    t.append(number_to_emoji(full_reels[0][1]));
    t.append(" | ");
    t.append(number_to_emoji(full_reels[1][1]));
    t.append(" | ");
    t.append(number_to_emoji(full_reels[2][1]));
    t.append("\n ");
    t.append(number_to_emoji(full_reels[0][2]));
    t.append(" | ");
    t.append(number_to_emoji(full_reels[1][2]));
    t.append(" | ");
    t.append(number_to_emoji(full_reels[2][2]));
    assert(t@ =~= old(t)@ + rows_text(rv));
}

/// The message that shows a spin (see `slot_text`).
pub fn display_reels(full_reels: &[Vec<i64>], payout: i64, updated_amount: i64) -> (text: String)
    requires
        reels_shape(reel_views(full_reels@)),
    ensures
        text@ == slot_text(reel_views(full_reels@), payout, updated_amount),
{
    let mut t = String::new();
    push_rows(&mut t, full_reels);
    t.append("\n\n Gewonnen: ");
    let p = i64_text(payout);
    t.append(p.as_str());
    t.append("\nBank: ");
    let u = i64_text(updated_amount);
    t.append(u.as_str());
    assert(t@ =~= slot_text(reel_views(full_reels@), payout, updated_amount));
    t
}

/// The result of a spin for a player with `balance` who bet `bet`: the payout and the new
/// balance, which is the balance plus the payout minus the bet. `None` when a number does
/// not fit in an `i64`.
pub(crate) fn settle_spin(balance: i64, bet: i64, full_reels: &[Vec<i64>]) -> (r: Option<(i64, i64)>)
    requires
        reels_shape(reel_views(full_reels@)),
        0 < bet,
    ensures
        ({
            let p = payout_factor(reel_views(full_reels@), 50, 40, 20) * bet;
            match r {
                Some((payout, updated)) => payout == p && updated == balance + (p - bet),
                None => p > i64::MAX || balance + (p - bet) > i64::MAX || balance + (p - bet) < i64::MIN,
            }
        }),
{
    let ghost rv = reel_views(full_reels@);
    assert(rv[0] == full_reels@[0]@ && rv[1] == full_reels@[1]@ && rv[2] == full_reels@[2]@);
    let factor: i64 = if full_reels[0][1] == full_reels[1][1] && full_reels[1][1] == full_reels[2][1] {
        50
    } else if full_reels[0][0] == full_reels[1][1] && full_reels[1][1] == full_reels[2][2] {
        40
    } else if full_reels[0][2] == full_reels[1][1] && full_reels[1][1] == full_reels[2][0] {
        20
    } else {
        0
    };
    assert(factor == payout_factor(rv, 50, 40, 20));
    if factor > 0 && bet > i64::MAX / factor {
        assert(factor * bet > i64::MAX) by (nonlinear_arith)
            requires
                factor > 0,
                bet > i64::MAX / factor,
        ;
        return None;
    }
    assert(0 <= factor * bet <= i64::MAX) by (nonlinear_arith)
        requires
            0 <= factor,
            0 < bet,
            factor == 0 || bet <= i64::MAX / factor,
    ;
    let payout = get_payout(full_reels, bet);
    let delta = payout - bet;
    match balance.checked_add(delta) {
        Some(updated) => Some((payout, updated)),
        None => None,
    }
}

/// What a spin pays, for every spin and every three different, non-zero rates: the middle
/// rate exactly when the three symbols of the middle row are equal; the diagonal rate exactly
/// when they are not but the three symbols from the top left to the bottom right are; the
/// anti-diagonal rate exactly when neither holds but the three from the bottom left to the
/// top right are equal; and nothing exactly when no line shows three equal symbols.
pub proof fn lemma_payout_lines(r: Seq<Seq<i64>>, middle: int, diagonal: int, anti_diagonal: int)
    requires
        middle != 0 && diagonal != 0 && anti_diagonal != 0,
        middle != diagonal && middle != anti_diagonal && diagonal != anti_diagonal,
    ensures
        ({
            let f = payout_factor(r, middle, diagonal, anti_diagonal);
            let mid = r[0][1] == r[1][1] && r[1][1] == r[2][1];
            let dia = r[0][0] == r[1][1] && r[1][1] == r[2][2];
            let anti = r[0][2] == r[1][1] && r[1][1] == r[2][0];
            &&& (f == middle <==> mid)
            &&& (f == diagonal <==> !mid && dia)
            &&& (f == anti_diagonal <==> !mid && !dia && anti)
            &&& (f == 0 <==> !mid && !dia && !anti)
        }),
{
}

/// The two machines' rates obey `lemma_payout_lines`: a spin pays only for a line of three
/// equal symbols, at the rate of the first such line.
pub proof fn lemma_machine_rates(r: Seq<Seq<i64>>, bet: int)
    requires
        bet > 0,
    ensures
        payout_factor(r, 50, 40, 20) * bet == 0 <==> !(r[0][1] == r[1][1] && r[1][1] == r[2][1])
            && !(r[0][0] == r[1][1] && r[1][1] == r[2][2]) && !(r[0][2] == r[1][1] && r[1][1] == r[2][0]),
        payout_factor(r, 50, 40, 20) * bet == 50 * bet <==> r[0][1] == r[1][1] && r[1][1] == r[2][1],
        payout_factor(r, 4, 3, 2) * bet == 0 <==> !(r[0][1] == r[1][1] && r[1][1] == r[2][1])
            && !(r[0][0] == r[1][1] && r[1][1] == r[2][2]) && !(r[0][2] == r[1][1] && r[1][1] == r[2][0]),
        payout_factor(r, 4, 3, 2) * bet == 4 * bet <==> r[0][1] == r[1][1] && r[1][1] == r[2][1],
{
    lemma_payout_lines(r, 50, 40, 20);
    lemma_payout_lines(r, 4, 3, 2);
    let f = payout_factor(r, 50, 40, 20);
    let g = payout_factor(r, 4, 3, 2);
    assert(f * bet == 0 <==> f == 0) by (nonlinear_arith)
        requires
            bet > 0;
    assert(f * bet == 50 * bet <==> f == 50) by (nonlinear_arith)
        requires
            bet > 0;
    assert(g * bet == 0 <==> g == 0) by (nonlinear_arith)
        requires
            bet > 0;
    assert(g * bet == 4 * bet <==> g == 4) by (nonlinear_arith)
        requires
            bet > 0;
}

} // verus!
