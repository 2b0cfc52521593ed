//! Dice: parsing dice notation such as `2d20-3` and rolling the dice.
use rand::Rng;
use vstd::prelude::*;
use crate::text::{chars_of, string_from_chars, i64_text, int_text, joined, views, join};

verus! {

/// An ASCII decimal digit.
pub open spec fn is_digit(c: char) -> bool {
    '0' <= c && c <= '9'
}

/// The value of a decimal digit character.
pub open spec fn digit_value(c: char) -> nat {
    (c as int - '0' as int) as nat
}

/// The number of decimal digits at the start of the sequence.
pub open spec fn leading_digits(s: Seq<char>) -> nat
    decreases s.len(),
{
    if s.len() > 0 && is_digit(s[0]) {
        1 + leading_digits(s.drop_first())
    } else {
        0
    }
}

/// The number that a sequence of decimal digits denotes.
pub open spec fn digits_value(s: Seq<char>) -> nat
    decreases s.len(),
{
    if s.len() == 0 {
        0
    } else {
        digits_value(s.drop_last()) * 10 + digit_value(s.last())
    }
}

/// Why dice notation could not be read: digits were expected (`Digit`), the letter `d` was
/// expected (`Tag`), or a number does not fit its type (`Char`).
#[derive(Clone, Copy, Debug, PartialEq, Eq, Structural)]
pub enum ParseErrorKind {
    Digit,
    Tag,
    Char,
}

/// Some dice of one kind: `number` dice with `sides` sides each, plus a flat amount.
#[derive(Clone, Copy, Debug, PartialEq, Eq, Structural)]
pub struct Die {
    pub number: usize,
    pub sides: usize,
    pub flat: isize,
}

/// The digits of the optional flat part that follows the sign at the start of `s`, or 0
/// when there is no sign followed by digits.
pub open spec fn flat_digits(s: Seq<char>) -> nat {
    if s.len() > 0 && (s[0] == '+' || s[0] == '-') {
        leading_digits(s.drop_first())
    } else {
        0
    }
}

/// Reads one die notation `<number>d<sides>` with an optional `+<flat>` or `-<flat>` at the
/// start of `s`, giving the die and the number of characters read.
pub open spec fn die_at(s: Seq<char>) -> Result<(Die, nat), ParseErrorKind> {
    let n = leading_digits(s);
    if n == 0 {
        Err(ParseErrorKind::Digit)
    } else if !(s.len() > n && s[n as int] == 'd') {
        Err(ParseErrorKind::Tag)
    } else {
        let s2 = s.skip(n + 1 as int);
        let m = leading_digits(s2);
        if m == 0 {
            Err(ParseErrorKind::Digit)
        } else {
            let s3 = s2.skip(m as int);
            let f = flat_digits(s3);
            let number = digits_value(s.take(n as int));
            let sides = digits_value(s2.take(m as int));
            let consumed = n + 1 + m + if f > 0 { 1 + f } else { 0 };
            if number > usize::MAX || sides > usize::MAX {
                Err(ParseErrorKind::Char)
            } else if f > 0 {
                let fv = digits_value(s3.subrange(1, 1 + f as int));
                if fv > isize::MAX {
                    Err(ParseErrorKind::Char)
                } else {
                    Ok((
                        Die {
                            number: number as usize,
                            sides: sides as usize,
                            flat: (if s3[0] == '+' { fv as int } else { -fv }) as isize,
                        },
                        consumed as nat,
                    ))
                }
            } else {
                Ok((Die { number: number as usize, sides: sides as usize, flat: 0 }, consumed as nat))
            }
        }
    }
}

/// More dice after position `pos`, each after one space; reading stops before a space that
/// is not followed by a valid die. Gives the dice and the position where reading stopped.
pub open spec fn dice_after(s: Seq<char>, pos: nat) -> (Seq<Die>, nat)
    decreases s.len() - pos,
{
    if pos < s.len() && s[pos as int] == ' ' {
        match die_at(s.skip(pos + 1 as int)) {
            Ok((d, l)) => {
                if l > 0 && pos + 1 + l <= s.len() {
                    let (more, end) = dice_after(s, pos + 1 + l);
                    (seq![d] + more, end)
                } else {
                    (Seq::empty(), pos)
                }
            },
            Err(_) => (Seq::empty(), pos),
        }
    } else {
        (Seq::empty(), pos)
    }
}

/// Reads one or more dice separated by single spaces; the first must be valid.
pub open spec fn dice_list(s: Seq<char>) -> Result<(Seq<Die>, nat), ParseErrorKind> {
    match die_at(s) {
        Err(e) => Err(e),
        Ok((d, l)) => {
            let (more, end) = dice_after(s, l);
            Ok((seq![d] + more, end))
        },
    }
}


/// A number with more digits is at least as large as the number of any of its prefixes.
proof fn lemma_digits_value_prefix(s: Seq<char>, k: int)
    requires
        0 <= k <= s.len(),
    ensures
        digits_value(s.take(k)) <= digits_value(s),
    decreases s.len() - k,
{
    if k < s.len() {
        lemma_digits_value_prefix(s, k + 1);
        assert(s.take(k + 1).drop_last() =~= s.take(k));
    } else {
        assert(s.take(k) =~= s);
    }
}

/// The leading digits are all digits, and the character after them is not one.
pub(crate) proof fn lemma_leading_digits(s: Seq<char>)
    ensures
        leading_digits(s) <= s.len(),
        forall|i: int| 0 <= i < leading_digits(s) ==> is_digit(#[trigger] s[i]),
        leading_digits(s) < s.len() ==> !is_digit(s[leading_digits(s) as int]),
    decreases s.len(),
{
    if s.len() > 0 && is_digit(s[0]) {
        lemma_leading_digits(s.drop_first());
        assert forall|i: int| 0 <= i < leading_digits(s) implies is_digit(#[trigger] s[i]) by {
            if i > 0 {
                assert(s[i] == s.drop_first()[i - 1]);
            }
        }
    }
}

pub(crate) fn count_digits(cs: &Vec<char>, start: usize) -> (n: usize)
    requires
        start <= cs@.len(),
    ensures
        n == leading_digits(cs@.skip(start as int)),
        start + n <= cs@.len(),
{
    let mut i = start;
    while i < cs.len() && '0' <= cs[i] && cs[i] <= '9'
        invariant
            start <= i <= cs@.len(),
            leading_digits(cs@.skip(start as int)) == (i - start) + leading_digits(cs@.skip(i as int)),
        decreases cs@.len() - i,
    {
        assert(cs@.skip(i as int).drop_first() =~= cs@.skip(i + 1));
        i = i + 1;
    }
    i - start
}

fn digit_of(c: char) -> (d: usize)
    requires
        is_digit(c),
    ensures
        d == digit_value(c),
        d < 10,
{
    (c as u32 - '0' as u32) as usize
}

/// Reads the `len` digits at `start` as a number, or gives `None` when it exceeds
/// `usize::MAX`.
fn read_number(cs: &Vec<char>, start: usize, len: usize) -> (v: Option<usize>)
    requires
        start + len <= cs@.len(),
        forall|i: int| start <= i < start + len ==> is_digit(#[trigger] cs@[i]),
    ensures
        match v {
            Some(v) => v == digits_value(cs@.subrange(start as int, start + len)),
            None => digits_value(cs@.subrange(start as int, start + len)) > usize::MAX,
        },
{
    let ghost whole = cs@.subrange(start as int, start + len);
    let total = cs.len();
    let mut v: usize = 0;
    let mut k: usize = 0;
    while k < len
        invariant
            k <= len,
            start + len <= cs@.len(),
            total == cs@.len(),
            whole == cs@.subrange(start as int, start + len),
            forall|i: int| start <= i < start + len ==> is_digit(#[trigger] cs@[i]),
            v == digits_value(whole.take(k as int)),
        decreases len - k,
    {
        assert(whole.take(k + 1).drop_last() =~= whole.take(k as int));
        assert(whole.take(k + 1).last() == cs@[start + k]);
        let d = digit_of(cs[start + k]);
        if v > (usize::MAX - d) / 10 {
            proof {
                lemma_digits_value_prefix(whole, k + 1);
            }
            return None;
        }
        v = v * 10 + d;
        k = k + 1;
    }
    assert(whole.take(len as int) =~= whole);
    Some(v)
}

/// Reads one die notation at position `start`, giving the die and the number of characters
/// read.
#[verifier::spinoff_prover]
#[verifier::rlimit(40)]
fn die_at_exec(cs: &Vec<char>, start: usize) -> (r: Result<(Die, usize), ParseErrorKind>)
    requires
        start <= cs@.len(),
    ensures
        match die_at(cs@.skip(start as int)) {
            Ok((d, l)) => r == Ok::<(Die, usize), ParseErrorKind>((d, l as usize)) && start + l <= cs@.len(),
            Err(e) => r == Err::<(Die, usize), ParseErrorKind>(e),
        },
{
    let ghost s = cs@.skip(start as int);
    let total = cs.len();
    proof {
        lemma_leading_digits(s);
    }
    let n = count_digits(cs, start);
    assert forall|i: int| start <= i < start + n implies is_digit(#[trigger] cs@[i]) by {
        assert(cs@[i] == s[i - start]);
    }
    if n == 0 {
        return Err(ParseErrorKind::Digit);
    }
    if !(start + n < cs.len() && cs[start + n] == 'd') {
        return Err(ParseErrorKind::Tag);
    }
    let p2 = start + n + 1;
    let ghost s2 = s.skip(n + 1 as int);
    assert(s2 =~= cs@.skip(p2 as int));
    proof {
        lemma_leading_digits(s2);
    }
    let m = count_digits(cs, p2);
    assert forall|i: int| p2 <= i < p2 + m implies is_digit(#[trigger] cs@[i]) by {
        assert(cs@[i] == s2[i - p2]);
    }
    if m == 0 {
        return Err(ParseErrorKind::Digit);
    }
    let p3 = p2 + m;
    let ghost s3 = s2.skip(m as int);
    assert(s3 =~= cs@.skip(p3 as int));
    let mut f: usize = 0;
    if p3 < cs.len() && (cs[p3] == '+' || cs[p3] == '-') {
        proof {
            lemma_leading_digits(s3.drop_first());
        }
        assert(s3.drop_first() =~= cs@.skip(p3 + 1));
        f = count_digits(cs, p3 + 1);
        assert forall|i: int| p3 + 1 <= i < p3 + 1 + f implies is_digit(#[trigger] cs@[i]) by {
            assert(cs@[i] == s3.drop_first()[i - p3 - 1]);
        }
    }
    assert(f == flat_digits(s3));
    assert(s.take(n as int) =~= cs@.subrange(start as int, start + n));
    assert(s2.take(m as int) =~= cs@.subrange(p2 as int, p2 + m));
    let number = read_number(cs, start, n);
    let sides = read_number(cs, p2, m);
    match (number, sides) {
        (Some(number), Some(sides)) => {
            if f > 0 {
                assert(s3.subrange(1, 1 + f as int) =~= cs@.subrange(p3 + 1, p3 + 1 + f));
                match read_number(cs, p3 + 1, f) {
                    Some(fv) => {
                        if fv > isize::MAX as usize {
                            Err(ParseErrorKind::Char)
                        } else {
                            let flat: isize = if cs[p3] == '+' { fv as isize } else { -(fv as isize) };
                            Ok((Die { number, sides, flat }, n + 1 + m + 1 + f))
                        }
                    },
                    None => Err(ParseErrorKind::Char),
                }
            } else {
                Ok((Die { number, sides, flat: 0 }, n + 1 + m))
            }
        },
        _ => Err(ParseErrorKind::Char),
    }
}

/// Reads one die notation such as `1d6`, `2d20-3` or `1d6+2` at the start of the input,
/// giving the rest of the input and the die (see `die_at`).
pub fn parse_dice_str(input: &str) -> (r: Result<(String, Die), ParseErrorKind>)
    ensures
        match die_at(input@) {
            Ok((d, l)) => r matches Ok((rest, die)) && die == d && rest@ == input@.skip(l as int),
            Err(e) => r == Err::<(String, Die), ParseErrorKind>(e),
        },
{
    let cs = chars_of(input);
    assert(cs@.skip(0) =~= cs@);
    match die_at_exec(&cs, 0) {
        Ok((d, l)) => {
            let rest = string_from_tail(&cs, l);
            Ok((rest, d))
        },
        Err(e) => Err(e),
    }
}

/// Reads one or more dice separated by single spaces, such as `1d6+2 2d20-3`, giving the
/// rest of the input and the dice (see `dice_list`).
pub fn parse_multiple_dice_str(input: &str) -> (r: Result<(String, Vec<Die>), ParseErrorKind>)
    ensures
        match dice_list(input@) {
            Ok((ds, end)) => r matches Ok((rest, v)) && v@ == ds && rest@ == input@.skip(end as int),
            Err(e) => r == Err::<(String, Vec<Die>), ParseErrorKind>(e),
        },
{
    let cs = chars_of(input);
    let total = cs.len();
    assert(cs@.skip(0) =~= cs@);
    let (first, l) = match die_at_exec(&cs, 0) {
        Ok(x) => x,
        Err(e) => {
            return Err(e);
        },
    };
    let mut dice: Vec<Die> = Vec::new();
    dice.push(first);
    let mut pos: usize = l;
    let ghost whole = dice_list(cs@);
    while pos < cs.len() && cs[pos] == ' '
        invariant_except_break
            pos <= cs@.len(),
            total == cs@.len(),
            whole matches Ok((ds, end)) && dice@ + dice_after(cs@, pos as nat).0 == ds
                && dice_after(cs@, pos as nat).1 == end,
        ensures
            pos <= cs@.len(),
            whole matches Ok((ds, end)) && dice@ == ds && pos == end,
        decreases cs@.len() - pos,
    {
        match die_at_exec(&cs, pos + 1) {
            Ok((d, l)) => {
                let ghost before = dice@;
                dice.push(d);
                assert(dice@ + dice_after(cs@, (pos + 1 + l) as nat).0 =~= before + dice_after(cs@, pos as nat).0);
                pos = pos + 1 + l;
            },
            Err(_) => {
                assert(dice@ + dice_after(cs@, pos as nat).0 =~= dice@);
                break;
            },
        }
    }
    let rest = string_from_tail(&cs, pos);
    Ok((rest, dice))
}

/// A string holding the characters of the vector from position `from` on.
pub(crate) fn string_from_tail(cs: &Vec<char>, from: usize) -> (s: String)
    requires
        from <= cs@.len(),
    ensures
        s@ == cs@.skip(from as int),
{
    let mut s = String::new();
    let mut i = from;
    while i < cs.len()
        invariant
            from <= i <= cs@.len(),
            s@ == cs@.subrange(from as int, i as int),
        decreases cs@.len() - i,
    {
        crate::text::push_char(&mut s, cs[i]);
        i = i + 1;
        assert(cs@.subrange(from as int, i as int) =~= cs@.subrange(from as int, i - 1).push(cs@[i - 1]));
    }
    assert(cs@.subrange(from as int, i as int) =~= cs@.skip(from as int));
    s
}


/// The dice can be rolled: a die kind with any dice to roll has between 1 and
/// `isize::MAX` sides.
pub open spec fn rollable(dice: Seq<Die>) -> bool {
    forall|i: int| 0 <= i < dice.len() ==> (#[trigger] dice[i]).number == 0 || 1 <= dice[i].sides <= isize::MAX
}

/// `rolls` is a possible result of rolling `dice`: one list per die kind, with one value in
/// `1..=sides` per die.
pub open spec fn rolls_fit(dice: Seq<Die>, rolls: Seq<Seq<isize>>) -> bool {
    &&& rolls.len() == dice.len()
    &&& forall|i: int| 0 <= i < dice.len() ==> (#[trigger] rolls[i]).len() == dice[i].number
    &&& forall|i: int, j: int|
        0 <= i < dice.len() && 0 <= j < rolls[i].len() ==> 1 <= #[trigger] rolls[i][j] <= dice[i].sides
}

/// Whether the dice can be rolled (see `rollable`).
pub fn is_rollable(dice: &Vec<Die>) -> (b: bool)
    ensures
        b == rollable(dice@),
{
    let mut i: usize = 0;
    while i < dice.len()
        invariant
            i <= dice@.len(),
            forall|j: int| 0 <= j < i ==> (#[trigger] dice@[j]).number == 0 || 1 <= dice@[j].sides <= isize::MAX,
        decreases dice@.len() - i,
    {
        if !(dice[i].number == 0 || (1 <= dice[i].sides && dice[i].sides <= isize::MAX as usize)) {
            return false;
        }
        i = i + 1;
    }
    true
}

/// One roll of a die with the given number of sides, with the thread's random number
/// generator: a value from 1 to `sides`.
#[verifier::external_body]
fn roll_one(sides: isize) -> (r: isize)
    requires
        sides >= 1,
    ensures
        1 <= r <= sides,
{
    rand::thread_rng().gen_range(1..=sides)
}

/// Rolls every die: for each kind, `number` values from 1 to `sides`.
pub fn roll_dice(dice: &Vec<Die>) -> (rolls: Vec<Vec<isize>>)
    requires
        rollable(dice@),
    ensures
        rolls_fit(dice@, rolls@.map_values(|r: Vec<isize>| r@)),
{
    let mut rolls: Vec<Vec<isize>> = Vec::new();
    let mut i: usize = 0;
    while i < dice.len()
        invariant
            i <= dice@.len(),
            rollable(dice@),
            rolls@.len() == i,
            forall|k: int| 0 <= k < i ==> (#[trigger] rolls@[k])@.len() == dice@[k].number,
            forall|k: int, j: int|
                0 <= k < i && 0 <= j < rolls@[k]@.len() ==> 1 <= #[trigger] rolls@[k]@[j] <= dice@[k].sides,
        decreases dice@.len() - i,
    {
        let die = dice[i];
        let mut these: Vec<isize> = Vec::new();
        let mut n: usize = 0;
        while n < die.number
            invariant
                n <= die.number,
                die == dice@[i as int],
                rollable(dice@),
                i < dice@.len(),
                these@.len() == n,
                forall|j: int| 0 <= j < n ==> 1 <= #[trigger] these@[j] <= die.sides,
            decreases die.number - n,
        {
            let r = roll_one(die.sides as isize);
            these.push(r);
            n = n + 1;
        }
        rolls.push(these);
        i = i + 1;
    }
    let ghost views = rolls@.map_values(|r: Vec<isize>| r@);
    assert forall|k: int| 0 <= k < dice@.len() implies (#[trigger] views[k]).len() == dice@[k].number by {
        assert(views[k] == rolls@[k]@);
    }
    assert forall|k: int, j: int|
        0 <= k < dice@.len() && 0 <= j < views[k].len() implies 1 <= #[trigger] views[k][j] <= dice@[k].sides by {
        assert(views[k] == rolls@[k]@);
    }
    rolls
}

/// The sum of a list of rolls.
pub open spec fn rolls_sum(rs: Seq<isize>) -> int
    decreases rs.len(),
{
    if rs.len() == 0 {
        0
    } else {
        rolls_sum(rs.drop_last()) + rs.last()
    }
}

/// The total of the first `k` die kinds: their rolls plus their flat amounts.
pub open spec fn total_of(dice: Seq<Die>, rolls: Seq<Seq<isize>>, k: int) -> int
    decreases k,
{
    if k <= 0 {
        0
    } else {
        total_of(dice, rolls, k - 1) + rolls_sum(rolls[k - 1]) + dice[k - 1].flat
    }
}

/// Every sum formed while adding up the roll fits in an `isize`: each kind's rolls, that sum
/// with its flat amount, and the running total.
pub open spec fn total_fits(dice: Seq<Die>, rolls: Seq<Seq<isize>>) -> bool {
    &&& forall|k: int| 0 <= k < dice.len() ==> rolls_sum(#[trigger] rolls[k]) <= isize::MAX
    &&& forall|k: int|
        0 <= k < dice.len() ==> isize::MIN <= rolls_sum(#[trigger] rolls[k]) + dice[k].flat <= isize::MAX
    &&& forall|k: int| 0 <= k <= dice.len() ==> isize::MIN <= #[trigger] total_of(dice, rolls, k) <= isize::MAX
}

/// The list of numbers shown for a roll: for each kind, its rolls and then its flat amount.
pub open spec fn trail_of(dice: Seq<Die>, rolls: Seq<Seq<isize>>, k: int) -> Seq<Seq<char>>
    decreases k,
{
    if k <= 0 {
        Seq::empty()
    } else {
        trail_of(dice, rolls, k - 1) + rolls[k - 1].map_values(|r: isize| int_text(r as int)) + seq![
            int_text(dice[k - 1].flat as int),
        ]
    }
}

/// The answer to a roll: `Your Roll (` the numbers joined by `+` `): ` the total.
pub open spec fn roll_reply_text(dice: Seq<Die>, rolls: Seq<Seq<isize>>) -> Seq<char> {
    "Your Roll ("@ + joined(trail_of(dice, rolls, dice.len() as int), "+"@) + "): "@ + int_text(
        total_of(dice, rolls, dice.len() as int),
    )
}

/// The sum of one kind's rolls, which all are positive.
fn sum_rolls(rs: &Vec<isize>) -> (s: isize)
    requires
        rolls_sum(rs@) <= isize::MAX,
        forall|j: int| 0 <= j < rs@.len() ==> 1 <= #[trigger] rs@[j],
    ensures
        s == rolls_sum(rs@),
{
    let mut s: isize = 0;
    let mut j: usize = 0;
    while j < rs.len()
        invariant
            j <= rs@.len(),
            s == rolls_sum(rs@.take(j as int)),
            rolls_sum(rs@) <= isize::MAX,
            forall|k: int| 0 <= k < rs@.len() ==> 1 <= #[trigger] rs@[k],
        decreases rs@.len() - j,
    {
        proof {
            lemma_rolls_sum_prefix(rs@, j + 1);
            assert(rs@.take(j + 1).drop_last() =~= rs@.take(j as int));
        }
        s = s + rs[j];
        j = j + 1;
    }
    assert(rs@.take(rs@.len() as int) =~= rs@);
    s
}

/// With positive rolls, the sum of a prefix is at most the sum of all.
proof fn lemma_rolls_sum_prefix(rs: Seq<isize>, k: int)
    requires
        0 <= k <= rs.len(),
        forall|j: int| 0 <= j < rs.len() ==> 1 <= #[trigger] rs[j],
    ensures
        rolls_sum(rs.take(k)) <= rolls_sum(rs),
    decreases rs.len() - k,
{
    if k < rs.len() {
        lemma_rolls_sum_prefix(rs, k + 1);
        assert(rs.take(k + 1).drop_last() =~= rs.take(k));
    } else {
        assert(rs.take(k) =~= rs);
    }
}

/// The sum of one kind's rolls, or `None` when it exceeds `isize::MAX`.
fn checked_sum_rolls(rs: &Vec<isize>) -> (s: Option<isize>)
    requires
        forall|j: int| 0 <= j < rs@.len() ==> 1 <= #[trigger] rs@[j],
    ensures
        match s {
            Some(s) => s == rolls_sum(rs@),
            None => rolls_sum(rs@) > isize::MAX,
        },
{
    let mut s: isize = 0;
    let mut j: usize = 0;
    while j < rs.len()
        invariant
            j <= rs@.len(),
            s == rolls_sum(rs@.take(j as int)),
            forall|k: int| 0 <= k < rs@.len() ==> 1 <= #[trigger] rs@[k],
        decreases rs@.len() - j,
    {
        proof {
            lemma_rolls_sum_prefix(rs@, j + 1);
            assert(rs@.take(j + 1).drop_last() =~= rs@.take(j as int));
        }
        match s.checked_add(rs[j]) {
            Some(t) => {
                s = t;
            },
            None => {
                return None;
            },
        }
        j = j + 1;
    }
    assert(rs@.take(rs@.len() as int) =~= rs@);
    Some(s)
}

/// Whether adding up the roll stays within `isize` (see `total_fits`).
pub fn total_fits_check(dice: &Vec<Die>, rolls: &Vec<Vec<isize>>) -> (b: bool)
    requires
        rolls_fit(dice@, rolls@.map_values(|r: Vec<isize>| r@)),
    ensures
        b == total_fits(dice@, rolls@.map_values(|r: Vec<isize>| r@)),
{
    let ghost rv = rolls@.map_values(|r: Vec<isize>| r@);
    let mut total: isize = 0;
    let mut i: usize = 0;
    while i < dice.len()
        invariant
            i <= dice@.len(),
            rv == rolls@.map_values(|r: Vec<isize>| r@),
            rolls_fit(dice@, rv),
            total == total_of(dice@, rv, i as int),
            forall|k: int| 0 <= k < i ==> rolls_sum(#[trigger] rv[k]) <= isize::MAX,
            forall|k: int| 0 <= k < i ==> isize::MIN <= rolls_sum(#[trigger] rv[k]) + dice@[k].flat <= isize::MAX,
            forall|k: int| 0 <= k <= i ==> isize::MIN <= #[trigger] total_of(dice@, rv, k) <= isize::MAX,
        decreases dice@.len() - i,
    {
        let rs = &rolls[i];
        assert(rs@ == rv[i as int]);
        assert forall|j: int| 0 <= j < rs@.len() implies 1 <= #[trigger] rs@[j] by {
            assert(rv[i as int][j] == rs@[j]);
        }
        let sum = match checked_sum_rolls(rs) {
            Some(x) => x,
            None => {
                return false;
            },
        };
        let with_flat = match sum.checked_add(dice[i].flat) {
            Some(x) => x,
            None => {
                return false;
            },
        };
        assert(total_of(dice@, rv, i + 1) == total + with_flat);
        total = match total.checked_add(with_flat) {
            Some(x) => x,
            None => {
                return false;
            },
        };
        i = i + 1;
    }
    true
}

/// The answer to a roll of the dice: the rolls and flat amounts joined by `+`, and the total.
pub fn roll_reply(dice: &Vec<Die>, rolls: &Vec<Vec<isize>>) -> (text: String)
    requires
        rolls_fit(dice@, rolls@.map_values(|r: Vec<isize>| r@)),
        total_fits(dice@, rolls@.map_values(|r: Vec<isize>| r@)),
    ensures
        text@ == roll_reply_text(dice@, rolls@.map_values(|r: Vec<isize>| r@)),
{
    let ghost rv = rolls@.map_values(|r: Vec<isize>| r@);
    let mut trail: Vec<String> = Vec::new();
    let mut total: isize = 0;
    let mut i: usize = 0;
    while i < dice.len()
        invariant
            i <= dice@.len(),
            rv == rolls@.map_values(|r: Vec<isize>| r@),
            rolls_fit(dice@, rv),
            total_fits(dice@, rv),
            total == total_of(dice@, rv, i as int),
            views(trail@) == trail_of(dice@, rv, i as int),
        decreases dice@.len() - i,
    {
        let rs = &rolls[i];
        assert(rs@ == rv[i as int]);
        let ghost before = views(trail@);
        let mut j: usize = 0;
        while j < rs.len()
            invariant
                j <= rs@.len(),
                views(trail@) == before + rs@.take(j as int).map_values(|r: isize| int_text(r as int)),
            decreases rs@.len() - j,
        {
            let t = i64_text(rs[j] as i64);
            assert(t@ == int_text(rs@[j as int] as int));
            let ghost prev = trail@;
            trail.push(t);
            assert(views(trail@) =~= views(prev).push(t@));
            assert(rs@.take(j + 1).map_values(|r: isize| int_text(r as int)) =~= rs@.take(j as int).map_values(
                |r: isize| int_text(r as int),
            ).push(int_text(rs@[j as int] as int)));
            j = j + 1;
            assert(views(trail@) =~= before + rs@.take(j as int).map_values(|r: isize| int_text(r as int)));
        }
        let t = i64_text(dice[i].flat as i64);
        trail.push(t);
        assert(rs@.take(rs@.len() as int) =~= rs@);
        assert(views(trail@) =~= trail_of(dice@, rv, i + 1));
        assert forall|j: int| 0 <= j < rs@.len() implies 1 <= #[trigger] rs@[j] by {
            assert(rv[i as int][j] == rs@[j]);
        }
        let sum = sum_rolls(rs);
        let with_flat = sum + dice[i].flat;
        assert(total_of(dice@, rv, i + 1) == total + with_flat);
        total = total + with_flat;
        i = i + 1;
    }
    let mut text = String::new();
    text.append("Your Roll (");
    let joined_trail = join(&trail, "+");
    text.append(joined_trail.as_str());
    text.append("): ");
    let n = i64_text(total as i64);
    text.append(n.as_str());
    text
}

/// What `roll` answers.
#[derive(Debug)]
pub enum RollAnswer {
    /// The dice were rolled: the rolls and the reply.
    Rolled { rolls: Vec<Vec<isize>>, text: String },
    /// The text is not a roll: answer this.
    Invalid(String),
    /// A die kind has no sides, or the total does not fit in an `isize`: nothing is sent.
    CannotRoll,
}

/// Answers `roll`: the text, trimmed, is read as dice (see `dice_list`); what is not a roll
/// gets `Sorry that is not a valid die roll!`, otherwise the dice are rolled and the reply
/// shows each roll and the total (see `roll_reply_text`).
pub fn roll_command(input: &str) -> (r: RollAnswer)
    ensures
        match dice_list(crate::words::trimmed(input@)) {
            Err(_) => r matches RollAnswer::Invalid(t) && t@ == "Sorry that is not a valid die roll!"@,
            Ok((ds, _)) => if !rollable(ds) {
                r is CannotRoll
            } else {
                match r {
                    RollAnswer::Rolled { rolls, text } => {
                        &&& rolls_fit(ds, rolls@.map_values(|v: Vec<isize>| v@))
                        &&& total_fits(ds, rolls@.map_values(|v: Vec<isize>| v@))
                        &&& text@ == roll_reply_text(ds, rolls@.map_values(|v: Vec<isize>| v@))
                    },
                    RollAnswer::CannotRoll => exists|rs: Seq<Seq<isize>>| rolls_fit(ds, rs) && !total_fits(ds, rs),
                    RollAnswer::Invalid(_) => false,
                }
            },
        },
{
    let t = crate::words::trim(input);
    let dice = match parse_multiple_dice_str(t.as_str()) {
        Ok((_, dice)) => dice,
        Err(_) => return RollAnswer::Invalid(String::from_str("Sorry that is not a valid die roll!")),
    };
    if !is_rollable(&dice) {
        return RollAnswer::CannotRoll;
    }
    let rolls = roll_dice(&dice);
    if !total_fits_check(&dice, &rolls) {
        assert(rolls_fit(dice@, rolls@.map_values(|v: Vec<isize>| v@)));
        return RollAnswer::CannotRoll;
    }
    let text = roll_reply(&dice, &rolls);
    RollAnswer::Rolled { rolls, text }
}

} // verus!
