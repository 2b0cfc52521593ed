//! The first slot machine of the bank commands, with smaller payouts.
use vstd::prelude::*;
use crate::slot::{payout_factor, push_rows, reel_views, reels_shape, rows_text};
use crate::text::{i64_text, int_text};

verus! {

/// What a spin pays: 4 times the bet for three equal symbols in the middle row, 3 times for
/// the diagonal from the top left, 2 times for the diagonal from the bottom left, else
/// nothing.
pub fn get_payout(full_reels: &Vec<Vec<i64>>, betted_amount: i64) -> (p: i64)
    requires
        reels_shape(reel_views(full_reels@)),
        i64::MIN <= payout_factor(reel_views(full_reels@), 4, 3, 2) * betted_amount <= i64::MAX,
    ensures
        p == payout_factor(reel_views(full_reels@), 4, 3, 2) * betted_amount,
{
    let ghost rv = reel_views(full_reels@);
    assert(rv[0] == full_reels@[0]@ && rv[1] == full_reels@[1]@ && rv[2] == full_reels@[2]@);
    if full_reels[0][1] == full_reels[1][1] && full_reels[1][1] == full_reels[2][1] {
        4 * betted_amount
    } else if full_reels[0][0] == full_reels[1][1] && full_reels[1][1] == full_reels[2][2] {
        3 * betted_amount
    } else if full_reels[0][2] == full_reels[1][1] && full_reels[1][1] == full_reels[2][0] {
        2 * betted_amount
    } else {
        0
    }
}

/// The message that shows a spin: the rows of the machine and the winnings.
pub open spec fn bank_slot_text(r: Seq<Seq<i64>>, payout: i64) -> Seq<char> {
    rows_text(r) + "\n\n You won: "@ + int_text(payout as int)
}

/// The message that shows a spin (see `bank_slot_text`).
pub fn display_reels(full_reels: &Vec<Vec<i64>>, payout: i64) -> (text: String)
    requires
        reels_shape(reel_views(full_reels@)),
    ensures
        text@ == bank_slot_text(reel_views(full_reels@), payout),
{
    let mut t = String::new();
    push_rows(&mut t, full_reels.as_slice());
    t.append("\n\n You won: ");
    let p = i64_text(payout);
    t.append(p.as_str());
    assert(t@ =~= bank_slot_text(reel_views(full_reels@), payout));
    t
}

} // verus!
