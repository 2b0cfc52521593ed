//! Fighting game combos: reading numpad notation such as `236P` or `623,623P 5P`.
use vstd::prelude::*;
use crate::dice::{count_digits, is_digit, leading_digits, lemma_leading_digits};
use crate::text::{chars_of, join, joined, views};
use crate::words::{trim, trimmed};

verus! {

/// A stick motion in numpad notation.
#[derive(Clone, Copy, Debug, PartialEq, Eq, Structural)]
pub enum Directional {
    Neutral,
    Left,
    Right,
    Up,
    Down,
    DownLeft,
    DownRight,
    UpLeft,
    UpRight,
    QuarterCircleRight,
    QuarterCircleLeft,
    DragonPunchRight,
    DragonPunchLeft,
    HalfCircleRight,
    HalfCircleLeft,
    FullCircle,
}

/// An attack button.
#[derive(Clone, Copy, Debug, PartialEq, Eq, Structural)]
pub enum Button {
    Punch,
    Kick,
    Slash,
    HeavySlash,
    Dust,
}

/// Why a combo could not be read: digits were expected (`Digit`), letters were expected
/// (`Alpha`), or the digits or letters name no motion or button (`MapRes`).
#[derive(Clone, Copy, Debug, PartialEq, Eq, Structural)]
pub enum ComboErrorKind {
    Digit,
    Alpha,
    MapRes,
}

/// The motion that a run of digits names.
pub open spec fn directional_of(s: Seq<char>) -> Option<Directional> {
    if (s.len() == 1 && s[0] == '1') { Some(Directional::DownLeft) }
    else if (s.len() == 1 && s[0] == '2') { Some(Directional::Down) }
    else if (s.len() == 1 && s[0] == '3') { Some(Directional::DownRight) }
    else if (s.len() == 1 && s[0] == '4') { Some(Directional::Left) }
    else if (s.len() == 1 && s[0] == '5') { Some(Directional::Neutral) }
    else if (s.len() == 1 && s[0] == '6') { Some(Directional::Right) }
    else if (s.len() == 1 && s[0] == '7') { Some(Directional::UpLeft) }
    else if (s.len() == 1 && s[0] == '8') { Some(Directional::Up) }
    else if (s.len() == 1 && s[0] == '9') { Some(Directional::UpRight) }
    else if (s.len() == 3 && s[0] == '2' && s[1] == '1' && s[2] == '4') { Some(Directional::QuarterCircleLeft) }
    else if (s.len() == 3 && s[0] == '2' && s[1] == '3' && s[2] == '6') { Some(Directional::QuarterCircleRight) }
    else if (s.len() == 3 && s[0] == '6' && s[1] == '2' && s[2] == '3') { Some(Directional::DragonPunchRight) }
    else if (s.len() == 3 && s[0] == '4' && s[1] == '2' && s[2] == '1') { Some(Directional::DragonPunchLeft) }
    else if (s.len() == 6 && s[0] == '4' && s[1] == '1' && s[2] == '2' && s[3] == '3' && s[4] == '6' && s[5] == '4') { Some(Directional::HalfCircleLeft) }
    else if (s.len() == 6 && s[0] == '6' && s[1] == '3' && s[2] == '2' && s[3] == '1' && s[4] == '4' && s[5] == '6') { Some(Directional::HalfCircleRight) }
    else if (s.len() == 9 && s[0] == '6' && s[1] == '3' && s[2] == '2' && s[3] == '1' && s[4] == '4' && s[5] == '7' && s[6] == '8' && s[7] == '9' && s[8] == '6') { Some(Directional::FullCircle) }
    else { None }
}

/// The button that a run of letters names.
pub open spec fn button_of(s: Seq<char>) -> Option<Button> {
    if (s.len() == 1 && s[0] == 'P') { Some(Button::Punch) }
    else if (s.len() == 1 && s[0] == 'K') { Some(Button::Kick) }
    else if (s.len() == 1 && s[0] == 'S') { Some(Button::Slash) }
    else if (s.len() == 1 && s[0] == 'H') { Some(Button::HeavySlash) }
    else if (s.len() == 1 && s[0] == 'D') { Some(Button::Dust) }
    else { None }
}

/// An ASCII letter.
pub open spec fn is_alpha(c: char) -> bool {
    ('a' <= c && c <= 'z') || ('A' <= c && c <= 'Z')
}

/// The number of ASCII letters at the start of the sequence.
pub open spec fn leading_alpha(s: Seq<char>) -> nat
    decreases s.len(),
{
    if s.len() > 0 && is_alpha(s[0]) {
        1 + leading_alpha(s.drop_first())
    } else {
        0
    }
}

/// Reads one motion at position `pos`: a run of digits that names a motion.
pub open spec fn directional_at(s: Seq<char>, pos: nat) -> Result<(Directional, nat), ComboErrorKind> {
    let n = leading_digits(s.skip(pos as int));
    if n == 0 {
        Err(ComboErrorKind::Digit)
    } else {
        match directional_of(s.subrange(pos as int, pos + n as int)) {
            Some(d) => Ok((d, pos + n)),
            None => Err(ComboErrorKind::MapRes),
        }
    }
}

/// More motions after position `pos`, each after a comma; reading stops before a comma
/// that is not followed by a motion. Gives the motions and where reading stopped.
pub open spec fn directionals_after(s: Seq<char>, pos: nat) -> (Seq<Directional>, nat)
    decreases s.len() - pos,
{
    if pos < s.len() && s[pos as int] == ',' {
        match directional_at(s, pos + 1) {
            Ok((d, next)) => {
                if pos < next <= s.len() {
                    let (more, end) = directionals_after(s, next);
                    (seq![d] + more, end)
                } else {
                    (Seq::empty(), pos)
                }
            },
            Err(_) => (Seq::empty(), pos),
        }
    } else {
        (Seq::empty(), pos)
    }
}

/// Reads one move at position `pos`: one or more motions separated by commas, then one
/// button. Gives the motions, the button and where reading stopped.
pub open spec fn move_at(s: Seq<char>, pos: nat) -> Result<(Seq<Directional>, Button, nat), ComboErrorKind> {
    match directional_at(s, pos) {
        Err(e) => Err(e),
        Ok((d, p1)) => {
            let (more, p2) = directionals_after(s, p1);
            let a = leading_alpha(s.skip(p2 as int));
            if a == 0 {
                Err(ComboErrorKind::Alpha)
            } else {
                match button_of(s.subrange(p2 as int, p2 + a as int)) {
                    Some(b) => Ok((seq![d] + more, b, p2 + a)),
                    None => Err(ComboErrorKind::MapRes),
                }
            }
        },
    }
}

/// More moves after position `pos`, each after one space; reading stops before a space that
/// is not followed by a valid move.
pub open spec fn moves_after(s: Seq<char>, pos: nat) -> (Seq<(Seq<Directional>, Button)>, nat)
    decreases s.len() - pos,
{
    if pos < s.len() && s[pos as int] == ' ' {
        match move_at(s, pos + 1) {
            Ok((ds, b, next)) => {
                if pos < next <= s.len() {
                    let (more, end) = moves_after(s, next);
                    (seq![(ds, b)] + more, end)
                } else {
                    (Seq::empty(), pos)
                }
            },
            Err(_) => (Seq::empty(), pos),
        }
    } else {
        (Seq::empty(), pos)
    }
}

/// Reads a combo: one or more moves separated by single spaces, the first of which must be
/// valid. Gives the moves and where reading stopped.
pub open spec fn combo_of(s: Seq<char>) -> Result<(Seq<(Seq<Directional>, Button)>, nat), ComboErrorKind> {
    match move_at(s, 0) {
        Err(e) => Err(e),
        Ok((ds, b, p)) => {
            let (more, end) = moves_after(s, p);
            Ok((seq![(ds, b)] + more, end))
        },
    }
}


/// Reads the motion named by the `n` characters at `start`.
fn directional_from(cs: &Vec<char>, start: usize, n: usize) -> (d: Option<Directional>)
    requires
        start + n <= cs@.len(),
    ensures
        d == directional_of(cs@.subrange(start as int, start + n)),
{
    let ghost s = cs@.subrange(start as int, start + n);
    let total = cs.len();
    if n == 1 {
        let c = cs[start];
        assert(s =~= seq![c]);
        if c == '1' { Some(Directional::DownLeft) }
        else if c == '2' { Some(Directional::Down) }
        else if c == '3' { Some(Directional::DownRight) }
        else if c == '4' { Some(Directional::Left) }
        else if c == '5' { Some(Directional::Neutral) }
        else if c == '6' { Some(Directional::Right) }
        else if c == '7' { Some(Directional::UpLeft) }
        else if c == '8' { Some(Directional::Up) }
        else if c == '9' { Some(Directional::UpRight) }
        else { None }
    } else if n == 3 {
        let (a, b, c) = (cs[start], cs[start + 1], cs[start + 2]);
        assert(s =~= seq![a, b, c]);
        if a == '2' && b == '1' && c == '4' { Some(Directional::QuarterCircleLeft) }
        else if a == '2' && b == '3' && c == '6' { Some(Directional::QuarterCircleRight) }
        else if a == '6' && b == '2' && c == '3' { Some(Directional::DragonPunchRight) }
        else if a == '4' && b == '2' && c == '1' { Some(Directional::DragonPunchLeft) }
        else { None }
    } else if n == 6 {
        let ghost t = seq![cs@[start as int], cs@[start + 1], cs@[start + 2], cs@[start + 3], cs@[start + 4], cs@[start + 5]];
        assert(s =~= t);
        if cs[start] == '4' && cs[start + 1] == '1' && cs[start + 2] == '2' && cs[start + 3] == '3'
            && cs[start + 4] == '6' && cs[start + 5] == '4' {
            Some(Directional::HalfCircleLeft)
        } else if cs[start] == '6' && cs[start + 1] == '3' && cs[start + 2] == '2' && cs[start + 3] == '1'
            && cs[start + 4] == '4' && cs[start + 5] == '6' {
            Some(Directional::HalfCircleRight)
        } else {
            None
        }
    } else if n == 9 {
        let ghost t = seq![
            cs@[start as int],
            cs@[start + 1],
            cs@[start + 2],
            cs@[start + 3],
            cs@[start + 4],
            cs@[start + 5],
            cs@[start + 6],
            cs@[start + 7],
            cs@[start + 8],
        ];
        assert(s =~= t);
        if cs[start] == '6' && cs[start + 1] == '3' && cs[start + 2] == '2' && cs[start + 3] == '1'
            && cs[start + 4] == '4' && cs[start + 5] == '7' && cs[start + 6] == '8' && cs[start + 7] == '9'
            && cs[start + 8] == '6' {
            Some(Directional::FullCircle)
        } else {
            None
        }
    } else {
        None
    }
}

/// Reads the button named by the `n` characters at `start`.
fn button_from(cs: &Vec<char>, start: usize, n: usize) -> (b: Option<Button>)
    requires
        start + n <= cs@.len(),
    ensures
        b == button_of(cs@.subrange(start as int, start + n)),
{
    let total = cs.len();
    if n == 1 {
        let c = cs[start];
        assert(cs@.subrange(start as int, start + n) =~= seq![c]);
        if c == 'P' { Some(Button::Punch) }
        else if c == 'K' { Some(Button::Kick) }
        else if c == 'S' { Some(Button::Slash) }
        else if c == 'H' { Some(Button::HeavySlash) }
        else if c == 'D' { Some(Button::Dust) }
        else { None }
    } else {
        None
    }
}

impl Directional {
    /// The motion that the digits name, such as `236` for a quarter circle right.
    pub fn from_str(s: &str) -> (d: Option<Directional>)
        ensures
            d == directional_of(s@),
    {
        let cs = chars_of(s);
        assert(cs@.subrange(0, cs@.len() as int) =~= cs@);
        directional_from(&cs, 0, cs.len())
    }
}

impl Button {
    /// The button that the letter names: `P`, `K`, `S`, `H` or `D`.
    pub fn from_str(s: &str) -> (b: Option<Button>)
        ensures
            b == button_of(s@),
    {
        let cs = chars_of(s);
        assert(cs@.subrange(0, cs@.len() as int) =~= cs@);
        button_from(&cs, 0, cs.len())
    }
}

fn count_alpha(cs: &Vec<char>, start: usize) -> (n: usize)
    requires
        start <= cs@.len(),
    ensures
        n == leading_alpha(cs@.skip(start as int)),
        start + n <= cs@.len(),
{
    let mut i = start;
    while i < cs.len() && (('a' <= cs[i] && cs[i] <= 'z') || ('A' <= cs[i] && cs[i] <= 'Z'))
        invariant
            start <= i <= cs@.len(),
            leading_alpha(cs@.skip(start as int)) == (i - start) + leading_alpha(cs@.skip(i as int)),
        decreases cs@.len() - i,
    {
        assert(cs@.skip(i as int).drop_first() =~= cs@.skip(i + 1));
        i = i + 1;
    }
    i - start
}

fn directional_at_exec(cs: &Vec<char>, pos: usize) -> (r: Result<(Directional, usize), ComboErrorKind>)
    requires
        pos <= cs@.len(),
    ensures
        match directional_at(cs@, pos as nat) {
            Ok((d, next)) => r == Ok::<(Directional, usize), ComboErrorKind>((d, next as usize)) && pos < next <= cs@.len(),
            Err(e) => r == Err::<(Directional, usize), ComboErrorKind>(e),
        },
{
    let total = cs.len();
    let n = count_digits(cs, pos);
    if n == 0 {
        return Err(ComboErrorKind::Digit);
    }
    match directional_from(cs, pos, n) {
        Some(d) => Ok((d, pos + n)),
        None => Err(ComboErrorKind::MapRes),
    }
}

/// One move of a combo: its motions, then its buttons.
#[derive(Debug)]
pub struct Move {
    pub directionals: Vec<Directional>,
    pub buttons: Vec<Button>,
}

/// A combo: its moves in order.
#[derive(Debug)]
pub struct Combo {
    pub moves: Vec<Move>,
}

/// The moves of a combo as motions and buttons.
pub open spec fn combo_moves(c: &Combo) -> Seq<(Seq<Directional>, Seq<Button>)> {
    c.moves@.map_values(|m: Move| (m.directionals@, m.buttons@))
}

fn move_at_exec(cs: &Vec<char>, pos: usize) -> (r: Result<(Move, usize), ComboErrorKind>)
    requires
        pos <= cs@.len(),
    ensures
        match move_at(cs@, pos as nat) {
            Ok((ds, b, next)) => r matches Ok((m, n)) && m.directionals@ == ds && m.buttons@ == seq![b]
                && n == next && pos < next <= cs@.len(),
            Err(e) => r matches Err(e2) && e2 == e,
        },
{
    let total = cs.len();
    let (first, p1) = match directional_at_exec(cs, pos) {
        Ok(x) => x,
        Err(e) => {
            return Err(e);
        },
    };
    let mut dirs: Vec<Directional> = Vec::new();
    dirs.push(first);
    let mut p = p1;
    let ghost tail = directionals_after(cs@, p1 as nat);
    while p < cs.len() && cs[p] == ','
        invariant_except_break
            pos < p1 <= p <= cs@.len(),
            total == cs@.len(),
            tail == directionals_after(cs@, p1 as nat),
            dirs@ + directionals_after(cs@, p as nat).0 == seq![first] + tail.0,
            directionals_after(cs@, p as nat).1 == tail.1,
        ensures
            pos < p <= cs@.len(),
            dirs@ == seq![first] + tail.0,
            p == tail.1,
        decreases cs@.len() - p,
    {
        match directional_at_exec(cs, p + 1) {
            Ok((d, next)) => {
                let ghost before = dirs@;
                dirs.push(d);
                assert(dirs@ + directionals_after(cs@, next as nat).0 =~= before + directionals_after(cs@, p as nat).0);
                p = next;
            },
            Err(_) => {
                assert(dirs@ + directionals_after(cs@, p as nat).0 =~= dirs@);
                break;
            },
        }
    }
    let a = count_alpha(cs, p);
    if a == 0 {
        return Err(ComboErrorKind::Alpha);
    }
    match button_from(cs, p, a) {
        Some(b) => {
            let mut buttons: Vec<Button> = Vec::new();
            buttons.push(b);
            assert(buttons@ =~= seq![b]);
            Ok((Move { directionals: dirs, buttons }, p + a))
        },
        None => Err(ComboErrorKind::MapRes),
    }
}

/// Reads a combo such as `623,623P 5P 5P` at the start of the input, giving the rest of the
/// input and the combo (see `combo_of`).
pub fn parse_combo_str(input: &str) -> (r: Result<(String, Combo), ComboErrorKind>)
    ensures
        match combo_of(input@) {
            Ok((ms, end)) => r matches Ok((rest, c)) && combo_moves(&c) == ms.map_values(
                |m: (Seq<Directional>, Button)| (m.0, seq![m.1]),
            ) && rest@ == input@.skip(end as int),
            Err(e) => r matches Err(e2) && e2 == e,
        },
{
    let cs = chars_of(input);
    let total = cs.len();
    let (first, p0) = match move_at_exec(&cs, 0) {
        Ok(x) => x,
        Err(e) => {
            return Err(e);
        },
    };
    let ghost whole = combo_of(cs@);
    let ghost shape = |m: (Seq<Directional>, Button)| (m.0, seq![m.1]);
    let ghost view_of = |m: Move| (m.directionals@, m.buttons@);
    let mut moves: Vec<Move> = Vec::new();
    moves.push(first);
    let mut p = p0;
    while p < cs.len() && cs[p] == ' '
        invariant_except_break
            p <= cs@.len(),
            total == cs@.len(),
            shape == (|m: (Seq<Directional>, Button)| (m.0, seq![m.1])),
            view_of == (|m: Move| (m.directionals@, m.buttons@)),
            whole matches Ok((ms, end)) && moves@.map_values(view_of) + moves_after(cs@, p as nat).0.map_values(shape)
                == ms.map_values(shape) && moves_after(cs@, p as nat).1 == end,
        ensures
            p <= cs@.len(),
            whole matches Ok((ms, end)) && moves@.map_values(view_of) == ms.map_values(shape) && p == end,
        decreases cs@.len() - p,
    {
        match move_at_exec(&cs, p + 1) {
            Ok((m, next)) => {
                let ghost before = moves@;
                let ghost mv = (m.directionals@, m.buttons@);
                moves.push(m);
                assert(moves@.map_values(view_of) =~= before.map_values(view_of).push(mv));
                assert(moves@.map_values(view_of) + moves_after(cs@, next as nat).0.map_values(shape)
                    =~= before.map_values(view_of) + moves_after(cs@, p as nat).0.map_values(shape));
                p = next;
            },
            Err(_) => {
                assert(moves_after(cs@, p as nat).0 =~= Seq::<(Seq<Directional>, Button)>::empty());
                assert(moves@.map_values(view_of) + moves_after(cs@, p as nat).0.map_values(shape)
                    =~= moves@.map_values(view_of));
                break;
            },
        }
    }
    let rest = crate::dice::string_from_tail(&cs, p);
    let c = Combo { moves };
    assert(combo_moves(&c) =~= c.moves@.map_values(view_of));
    Ok((rest, c))
}


/// The name of a motion, as `Debug` writes it.
pub open spec fn directional_name(d: Directional) -> Seq<char> {
    match d {
        Directional::Neutral => "Neutral"@,
        Directional::Left => "Left"@,
        Directional::Right => "Right"@,
        Directional::Up => "Up"@,
        Directional::Down => "Down"@,
        Directional::DownLeft => "DownLeft"@,
        Directional::DownRight => "DownRight"@,
        Directional::UpLeft => "UpLeft"@,
        Directional::UpRight => "UpRight"@,
        Directional::QuarterCircleRight => "QuarterCircleRight"@,
        Directional::QuarterCircleLeft => "QuarterCircleLeft"@,
        Directional::DragonPunchRight => "DragonPunchRight"@,
        Directional::DragonPunchLeft => "DragonPunchLeft"@,
        Directional::HalfCircleRight => "HalfCircleRight"@,
        Directional::HalfCircleLeft => "HalfCircleLeft"@,
        Directional::FullCircle => "FullCircle"@,
    }
}

fn directional_name_text(d: Directional) -> (s: &'static str)
    ensures
        s@ == directional_name(d),
{
    match d {
        Directional::Neutral => "Neutral",
        Directional::Left => "Left",
        Directional::Right => "Right",
        Directional::Up => "Up",
        Directional::Down => "Down",
        Directional::DownLeft => "DownLeft",
        Directional::DownRight => "DownRight",
        Directional::UpLeft => "UpLeft",
        Directional::UpRight => "UpRight",
        Directional::QuarterCircleRight => "QuarterCircleRight",
        Directional::QuarterCircleLeft => "QuarterCircleLeft",
        Directional::DragonPunchRight => "DragonPunchRight",
        Directional::DragonPunchLeft => "DragonPunchLeft",
        Directional::HalfCircleRight => "HalfCircleRight",
        Directional::HalfCircleLeft => "HalfCircleLeft",
        Directional::FullCircle => "FullCircle",
    }
}

/// The name of a button, as `Debug` writes it.
pub open spec fn button_name(b: Button) -> Seq<char> {
    match b {
        Button::Punch => "Punch"@,
        Button::Kick => "Kick"@,
        Button::Slash => "Slash"@,
        Button::HeavySlash => "HeavySlash"@,
        Button::Dust => "Dust"@,
    }
}

fn button_name_text(b: Button) -> (s: &'static str)
    ensures
        s@ == button_name(b),
{
    match b {
        Button::Punch => "Punch",
        Button::Kick => "Kick",
        Button::Slash => "Slash",
        Button::HeavySlash => "HeavySlash",
        Button::Dust => "Dust",
    }
}

/// A list as `Debug` writes it: the items between brackets, separated by `, `.
pub open spec fn bracketed(items: Seq<Seq<char>>) -> Seq<char> {
    "["@ + joined(items, ", "@) + "]"@
}

/// A move as `Debug` writes it.
pub open spec fn move_debug(ds: Seq<Directional>, bs: Seq<Button>) -> Seq<char> {
    "Move { directionals: "@ + bracketed(ds.map_values(|d: Directional| directional_name(d)))
        + ", buttons: "@ + bracketed(bs.map_values(|b: Button| button_name(b))) + " }"@
}

/// A combo as `Debug` writes it.
pub open spec fn combo_debug(ms: Seq<(Seq<Directional>, Seq<Button>)>) -> Seq<char> {
    "Combo { moves: "@ + bracketed(ms.map_values(|m: (Seq<Directional>, Seq<Button>)| move_debug(m.0, m.1)))
        + " }"@
}

fn bracket(items: &Vec<String>) -> (t: String)
    ensures
        t@ == bracketed(views(items@)),
{
    let mut t = String::from_str("[");
    t.append(join(items, ", ").as_str());
    t.append("]");
    t
}

fn move_text(m: &Move) -> (t: String)
    ensures
        t@ == move_debug(m.directionals@, m.buttons@),
{
    let ghost dn = m.directionals@.map_values(|d: Directional| directional_name(d));
    let mut ds: Vec<String> = Vec::new();
    let mut i: usize = 0;
    while i < m.directionals.len()
        invariant
            i <= m.directionals@.len(),
            dn == m.directionals@.map_values(|d: Directional| directional_name(d)),
            views(ds@) == dn.take(i as int),
        decreases m.directionals@.len() - i,
    {
        let ghost before = ds@;
        let n = String::from_str(directional_name_text(m.directionals[i]));
        ds.push(n);
        assert(views(ds@) =~= views(before).push(n@));
        i = i + 1;
        assert(views(ds@) =~= dn.take(i as int));
    }
    assert(dn.take(m.directionals@.len() as int) =~= dn);
    let ghost bn = m.buttons@.map_values(|b: Button| button_name(b));
    let mut bs: Vec<String> = Vec::new();
    let mut j: usize = 0;
    while j < m.buttons.len()
        invariant
            j <= m.buttons@.len(),
            bn == m.buttons@.map_values(|b: Button| button_name(b)),
            views(bs@) == bn.take(j as int),
        decreases m.buttons@.len() - j,
    {
        let ghost before = bs@;
        let n = String::from_str(button_name_text(m.buttons[j]));
        bs.push(n);
        assert(views(bs@) =~= views(before).push(n@));
        j = j + 1;
        assert(views(bs@) =~= bn.take(j as int));
    }
    assert(bn.take(m.buttons@.len() as int) =~= bn);
    let mut t = String::from_str("Move { directionals: ");
    t.append(bracket(&ds).as_str());
    t.append(", buttons: ");
    t.append(bracket(&bs).as_str());
    t.append(" }");
    t
}

/// Writes a combo as `Debug` writes it (see `combo_debug`).
pub fn combo_text(c: &Combo) -> (t: String)
    ensures
        t@ == combo_debug(combo_moves(c)),
{
    let ghost mv = combo_moves(c).map_values(|m: (Seq<Directional>, Seq<Button>)| move_debug(m.0, m.1));
    let mut ms: Vec<String> = Vec::new();
    let mut i: usize = 0;
    while i < c.moves.len()
        invariant
            i <= c.moves@.len(),
            mv == combo_moves(c).map_values(|m: (Seq<Directional>, Seq<Button>)| move_debug(m.0, m.1)),
            views(ms@) == mv.take(i as int),
        decreases c.moves@.len() - i,
    {
        let ghost before = ms@;
        let t = move_text(&c.moves[i]);
        ms.push(t);
        assert(views(ms@) =~= views(before).push(t@));
        i = i + 1;
        assert(views(ms@) =~= mv.take(i as int));
    }
    assert(mv.take(c.moves@.len() as int) =~= mv);
    let mut t = String::from_str("Combo { moves: ");
    t.append(bracket(&ms).as_str());
    t.append(" }");
    t
}

/// The answer to a combo: the combo read from the trimmed text as `Debug` writes it, or
/// the note that it is not a valid combo.
pub open spec fn combo_reply_text(input: Seq<char>) -> Seq<char> {
    match combo_of(trimmed(input)) {
        Ok((ms, _)) => combo_debug(ms.map_values(|m: (Seq<Directional>, Button)| (m.0, seq![m.1]))),
        Err(_) => "Sorry that is not a valid combo sequence!"@,
    }
}

/// Answers a combo command (see `combo_reply_text`).
pub fn combo(input: &str) -> (t: String)
    ensures
        t@ == combo_reply_text(input@),
{
    let trimmed_input = trim(input);
    match parse_combo_str(trimmed_input.as_str()) {
        Ok((_, c)) => combo_text(&c),
        Err(_) => String::from_str("Sorry that is not a valid combo sequence!"),
    }
}

} // verus!
