//! Links to Discord messages, such as `https://discord.com/channels/1/2/3`, found in a text.
use vstd::prelude::*;
use crate::commands::{parse_u64, parsed_u64};
use crate::text::{chars_of, string_from_chars};

verus! {

/// The literal `lit` stands in `s` at `i`.
pub open spec fn has_at(s: Seq<char>, i: int, lit: Seq<char>) -> bool {
    0 <= i && i + lit.len() <= s.len() && s.subrange(i, i + lit.len()) == lit
}

/// An ASCII decimal digit.
pub open spec fn is_ascii_digit(c: char) -> bool {
    '0' <= c && c <= '9'
}

/// Where the run of digits that starts at `i` ends.
pub open spec fn digits_end(s: Seq<char>, i: int) -> int
    decreases s.len() - i,
{
    if 0 <= i < s.len() && is_ascii_digit(s[i]) {
        digits_end(s, i + 1)
    } else {
        i
    }
}

/// Where the ids start when a link's host part stands at `i`: `https://discord`, any
/// character but a line break, `com/channels/`; or `https://discordapp`, any character but a
/// line break, `com/channels/`.
pub open spec fn ids_start(s: Seq<char>, i: int) -> Option<int> {
    let j = i + 15;
    if !has_at(s, i, "https://discord"@) {
        None
    } else if j < s.len() && s[j] != '\n' && has_at(s, j + 1, "com/channels/"@) {
        Some(j + 14)
    } else if has_at(s, j, "app"@) && j + 3 < s.len() && s[j + 3] != '\n' && has_at(s, j + 4, "com/channels/"@) {
        Some(j + 17)
    } else {
        None
    }
}

/// The bounds of the three runs of digits (server, channel, message) of a link that starts
/// at `i`: the host part, then one or more digits, `/`, one or more digits, `/`, one or more
/// digits (as many as there are).
pub open spec fn link_at(s: Seq<char>, i: int) -> Option<(int, int, int, int, int, int)> {
    match ids_start(s, i) {
        None => None,
        Some(k1) => {
            let e1 = digits_end(s, k1);
            if e1 > k1 && e1 < s.len() && s[e1] == '/' {
                let k2 = e1 + 1;
                let e2 = digits_end(s, k2);
                if e2 > k2 && e2 < s.len() && s[e2] == '/' {
                    let k3 = e2 + 1;
                    let e3 = digits_end(s, k3);
                    if e3 > k3 {
                        Some((k1, e1, k2, e2, k3, e3))
                    } else {
                        None
                    }
                } else {
                    None
                }
            } else {
                None
            }
        },
    }
}

/// The first link in the text from `i` on: the leftmost place where one starts.
pub open spec fn first_link_from(s: Seq<char>, i: int) -> Option<(int, int, int, int, int, int)>
    decreases s.len() - i,
{
    if i < 0 || i >= s.len() {
        None
    } else if link_at(s, i) is Some {
        link_at(s, i)
    } else {
        first_link_from(s, i + 1)
    }
}

/// The ids of the first link to a message in the text, each read as `str::parse::<u64>`
/// reads it; `None` when there is no link or an id does not fit in a `u64`.
pub open spec fn message_link(s: Seq<char>) -> Option<(u64, u64, u64)> {
    match first_link_from(s, 0) {
        None => None,
        Some((k1, e1, k2, e2, k3, e3)) => match (
            parsed_u64(s.subrange(k1, e1)),
            parsed_u64(s.subrange(k2, e2)),
            parsed_u64(s.subrange(k3, e3)),
        ) {
            (Some(a), Some(b), Some(c)) => Some((a as u64, b as u64, c as u64)),
            _ => None,
        },
    }
}

/// Whether the literal stands in the characters at `i` (see `has_at`).
fn lit_at(cs: &Vec<char>, i: usize, lit: &str) -> (b: bool)
    ensures
        b == has_at(cs@, i as int, lit@),
{
    let l = chars_of(lit);
    if l.len() > cs.len() || i > cs.len() - l.len() {
        return false;
    }
    let n = cs.len();
    let mut k: usize = 0;
    while k < l.len()
        invariant
            n == cs@.len(),
            k <= l@.len(),
            l@ == lit@,
            i + l@.len() <= cs@.len(),
            forall|m: int| 0 <= m < k ==> cs@[i + m] == l@[m],
        decreases l@.len() - k,
    {
        if cs[i + k] != l[k] {
            assert(cs@.subrange(i as int, i + l@.len())[k as int] != l@[k as int]);
            return false;
        }
        k = k + 1;
    }
    assert(cs@.subrange(i as int, i + l@.len()) =~= l@);
    true
}

/// Where the run of digits from `i` ends (see `digits_end`).
fn digits_end_at(cs: &Vec<char>, i: usize) -> (e: usize)
    requires
        i <= cs@.len(),
    ensures
        e == digits_end(cs@, i as int),
        i <= e <= cs@.len(),
        forall|m: int| i <= m < e ==> is_ascii_digit(#[trigger] cs@[m]),
{
    let mut e: usize = i;
    while e < cs.len() && '0' <= cs[e] && cs[e] <= '9'
        invariant
            i <= e <= cs@.len(),
            digits_end(cs@, i as int) == digits_end(cs@, e as int),
            forall|m: int| i <= m < e ==> is_ascii_digit(#[trigger] cs@[m]),
        decreases cs@.len() - e,
    {
        e = e + 1;
    }
    e
}

/// Where the ids start for a host part at `i` (see `ids_start`).
fn ids_start_at(cs: &Vec<char>, i: usize) -> (r: Option<usize>)
    requires
        i < cs@.len(),
    ensures
        match r {
            Some(k) => ids_start(cs@, i as int) == Some(k as int),
            None => ids_start(cs@, i as int) is None,
        },
{
    if !lit_at(cs, i, "https://discord") {
        return None;
    }
    proof {
        reveal_strlit("https://discord");
        reveal_strlit("com/channels/");
        reveal_strlit("app");
    }
    let n = cs.len();
    assert(i + 15 <= n);
    let j = i + 15;
    if j < cs.len() && cs[j] != '\n' && lit_at(cs, j + 1, "com/channels/") {
        return Some(j + 14);
    }
    if lit_at(cs, j, "app") && cs.len() > 3 && j < cs.len() - 3 && cs[j + 3] != '\n' && lit_at(cs, j + 4, "com/channels/") {
        return Some(j + 17);
    }
    None
}

/// The digit runs of a link that starts at `i` (see `link_at`).
fn link_at_exec(cs: &Vec<char>, i: usize) -> (r: Option<(usize, usize, usize, usize, usize, usize)>)
    requires
        i < cs@.len(),
    ensures
        match r {
            Some((a, b, c, d, e, f)) => link_at(cs@, i as int) == Some(
                (a as int, b as int, c as int, d as int, e as int, f as int),
            ) && a <= b <= cs@.len() && c <= d <= cs@.len() && e <= f <= cs@.len(),
            None => link_at(cs@, i as int) is None,
        },
{
    let k1 = match ids_start_at(cs, i) {
        Some(k) => k,
        None => return None,
    };
    proof {
        reveal_strlit("com/channels/");
        reveal_strlit("app");
    }
    let e1 = digits_end_at(cs, k1);
    if !(e1 > k1 && e1 < cs.len() && cs[e1] == '/') {
        return None;
    }
    let k2 = e1 + 1;
    let e2 = digits_end_at(cs, k2);
    if !(e2 > k2 && e2 < cs.len() && cs[e2] == '/') {
        return None;
    }
    let k3 = e2 + 1;
    let e3 = digits_end_at(cs, k3);
    if !(e3 > k3) {
        return None;
    }
    Some((k1, e1, k2, e2, k3, e3))
}

/// The characters from `a` to `b`.
fn chars_between(cs: &Vec<char>, a: usize, b: usize) -> (v: Vec<char>)
    requires
        a <= b <= cs@.len(),
    ensures
        v@ == cs@.subrange(a as int, b as int),
{
    let mut v: Vec<char> = Vec::new();
    let mut k: usize = a;
    while k < b
        invariant
            a <= k <= b,
            b <= cs@.len(),
            v@ == cs@.subrange(a as int, k as int),
        decreases b - k,
    {
        v.push(cs[k]);
        k = k + 1;
        assert(v@ =~= cs@.subrange(a as int, k as int));
    }
    v
}

/// The number the characters from `a` to `b` spell (see `parsed_u64`).
fn number_between(cs: &Vec<char>, a: usize, b: usize) -> (r: Option<u64>)
    requires
        a <= b <= cs@.len(),
    ensures
        match r {
            Some(v) => parsed_u64(cs@.subrange(a as int, b as int)) == Some(v as int),
            None => parsed_u64(cs@.subrange(a as int, b as int)) is None,
        },
{
    let sub = chars_between(cs, a, b);
    let t = string_from_chars(sub.as_slice());
    parse_u64(t.as_str())
}

/// Finds the first link to a message in the text and gives its server, channel and
/// message ids (see `message_link`).
pub fn parse_message_link(text: &str) -> (r: Option<(u64, u64, u64)>)
    ensures
        r == message_link(text@),
{
    let cs = chars_of(text);
    let mut i: usize = 0;
    while i < cs.len()
        invariant
            i <= cs@.len(),
            cs@ == text@,
            first_link_from(cs@, 0) == first_link_from(cs@, i as int),
        decreases cs@.len() - i,
    {
        match link_at_exec(&cs, i) {
            Some((k1, e1, k2, e2, k3, e3)) => {
                let a = number_between(&cs, k1, e1);
                let b = number_between(&cs, k2, e2);
                let c = number_between(&cs, k3, e3);
                return match (a, b, c) {
                    (Some(a), Some(b), Some(c)) => Some((a, b, c)),
                    _ => None,
                };
            },
            None => {
                i = i + 1;
            },
        }
    }
    None
}

} // verus!
