//! Bank accounts for the games: paying, the daily allowance, transfers and the leaderboard.
use vstd::prelude::*;
use crate::blackjack::can_pay_spec;
use crate::text::{i64_text, int_text, u64_text, nat_text};

verus! {

/// The credits a new bank account starts with, and the daily allowance.
pub const STARTING_CREDITS: i64 = 1000;

/// Whether the player can pay: the account exists and holds at least the amount.
pub fn can_pay(balance: Option<i64>, amount: i64) -> (b: bool)
    ensures
        b == can_pay_spec(balance, amount),
{
    match balance {
        Some(b) => b >= amount,
        None => false,
    }
}

/// The balance after changing it by `delta`, or `None` when it would not fit in an `i64`.
pub fn apply_change(balance: i64, delta: i64) -> (r: Option<i64>)
    ensures
        match r {
            Some(n) => n == balance + delta,
            None => balance + delta > i64::MAX || balance + delta < i64::MIN,
        },
{
    balance.checked_add(delta)
}

/// What the daily allowance does.
#[derive(Clone, Copy, Debug, PartialEq, Eq, Structural)]
pub enum Payday {
    /// The allowance was paid; the new balance.
    Paid(i64),
    /// It is too early; the hours left to wait.
    Wait(i64),
}

/// The allowance: more than 23 hours after the last payday the account gets 1000 credits
/// (a negative balance is first set to zero); otherwise the player waits `24 - hours`
/// hours. `None` when a number would not fit in an `i64`.
pub fn payday(amount: i64, hours_since_last: i64) -> (r: Option<Payday>)
    ensures
        hours_since_last > 23 ==> match r {
            Some(p) => p == Payday::Paid((if amount < 0 { 1000 } else { amount + 1000 }) as i64),
            None => amount >= 0 && amount + 1000 > i64::MAX,
        },
        hours_since_last <= 23 ==> match r {
            Some(p) => p == Payday::Wait((24 - hours_since_last) as i64),
            None => 24 - hours_since_last > i64::MAX,
        },
{
    if hours_since_last > 23 {
        if amount < 0 {
            Some(Payday::Paid(STARTING_CREDITS))
        } else {
            match amount.checked_add(STARTING_CREDITS) {
                Some(n) => Some(Payday::Paid(n)),
                None => None,
            }
        }
    } else {
        match 24i64.checked_sub(hours_since_last) {
            Some(h) => Some(Payday::Wait(h)),
            None => None,
        }
    }
}

/// The answer to the allowance command.
pub open spec fn payday_text(p: Payday) -> Seq<char> {
    match p {
        Payday::Paid(n) => "Your new balance: "@ + int_text(n as int),
        Payday::Wait(h) => "Wait "@ + int_text(h as int) + " hours for your next Payday!"@,
    }
}

/// The answer to the allowance command (see `payday_text`).
pub fn payday_reply(p: Payday) -> (t: String)
    ensures
        t@ == payday_text(p),
{
    let mut t = String::new();
    match p {
        Payday::Paid(n) => {
            t.append("Your new balance: ");
            let s = i64_text(n);
            t.append(s.as_str());
        },
        Payday::Wait(h) => {
            t.append("Wait ");
            let s = i64_text(h);
            t.append(s.as_str());
            t.append(" hours for your next Payday!");
        },
    }
    t
}

/// The answer to creating an account: the balance when one exists already.
pub open spec fn create_text(existing: Option<i64>) -> Seq<char> {
    match existing {
        Some(b) => "Your bank balance: "@ + int_text(b as int),
        None => "Created bank!"@,
    }
}

/// The answer to creating an account (see `create_text`).
pub fn create_reply(existing: Option<i64>) -> (t: String)
    ensures
        t@ == create_text(existing),
{
    let mut t = String::new();
    match existing {
        Some(b) => {
            t.append("Your bank balance: ");
            let s = i64_text(b);
            t.append(s.as_str());
        },
        None => {
            t.append("Created bank!");
        },
    }
    t
}

/// The lines of the leaderboard after its heading, for the first `k` accounts.
pub open spec fn leaderboard_lines(rows: Seq<(i64, Seq<char>)>, k: int) -> Seq<char>
    decreases k,
{
    if k <= 0 {
        Seq::empty()
    } else {
        leaderboard_lines(rows, k - 1) + "\n"@ + nat_text(k as nat) + " | "@ + int_text(rows[k - 1].0 as int)
            + " | "@ + rows[k - 1].1
    }
}

/// The leaderboard: a heading, then one line per account with its place, balance and name.
pub open spec fn leaderboard_text(rows: Seq<(i64, Seq<char>)>) -> Seq<char> {
    "Top Ten:\n"@ + leaderboard_lines(rows, rows.len() as int)
}

/// Renders the leaderboard from the balances and names, best first (see `leaderboard_text`).
pub fn render_leaderboard(rows: &Vec<(i64, String)>) -> (t: String)
    ensures
        t@ == leaderboard_text(rows@.map_values(|r: (i64, String)| (r.0, r.1@))),
{
    let ghost rv = rows@.map_values(|r: (i64, String)| (r.0, r.1@));
    let mut t = String::new();
    t.append("Top Ten:\n");
    let mut i: usize = 0;
    while i < rows.len()
        invariant
            i <= rows@.len(),
            rv == rows@.map_values(|r: (i64, String)| (r.0, r.1@)),
            t@ == "Top Ten:\n"@ + leaderboard_lines(rv, i as int),
        decreases rows@.len() - i,
    {
        assert(rv[i as int] == (rows@[i as int].0, rows@[i as int].1@));
        t.append("\n");
        let place = u64_text((i + 1) as u64);
        t.append(place.as_str());
        t.append(" | ");
        let amount = i64_text(rows[i].0);
        t.append(amount.as_str());
        t.append(" | ");
        t.append(rows[i].1.as_str());
        i = i + 1;
        assert(t@ =~= "Top Ten:\n"@ + leaderboard_lines(rv, i as int));
    }
    t
}


} // verus!
