//! Text helpers: character sequences, decimal rendering, joining and chunking.
use vstd::prelude::*;

verus! {

/// Appends one character to a string.
#[verifier::external_body]
pub(crate) fn push_char(s: &mut String, c: char)
    ensures
        final(s)@ == old(s)@.push(c),
{
    s.push(c)
}

/// The characters of a string slice, in order.
pub fn chars_of(s: &str) -> (v: Vec<char>)
    ensures
        v@ == s@,
{
    let mut v: Vec<char> = Vec::new();
    for c in it: s.chars()
        invariant
            v@ == it.seq().take(it.index() as int),
    {
        v.push(c);
    }
    v
}

/// A string holding exactly the given characters.
pub fn string_from_chars(cs: &[char]) -> (s: String)
    ensures
        s@ == cs@,
{
    let mut s = String::new();
    let mut i: usize = 0;
    while i < cs.len()
        invariant
            i <= cs@.len(),
            s@ == cs@.take(i as int),
        decreases cs@.len() - i,
    {
        push_char(&mut s, cs[i]);
        i = i + 1;
        assert(cs@.take(i as int) =~= cs@.take(i - 1).push(cs@[i - 1]));
    }
    assert(cs@.take(cs@.len() as int) =~= cs@);
    s
}

/// The decimal digit character for `d` (which should be below ten).
pub open spec fn digit_char(d: nat) -> char {
    if d == 0 { '0' }
    else if d == 1 { '1' }
    else if d == 2 { '2' }
    else if d == 3 { '3' }
    else if d == 4 { '4' }
    else if d == 5 { '5' }
    else if d == 6 { '6' }
    else if d == 7 { '7' }
    else if d == 8 { '8' }
    else { '9' }
}

/// The decimal notation of a natural number, without leading zeros.
pub open spec fn nat_text(n: nat) -> Seq<char>
    decreases n,
{
    if n < 10 {
        seq![digit_char(n)]
    } else {
        nat_text(n / 10).push(digit_char(n % 10))
    }
}

/// The decimal notation of an integer, with a leading `-` when negative.
pub open spec fn int_text(n: int) -> Seq<char> {
    if n < 0 {
        seq!['-'] + nat_text((-n) as nat)
    } else {
        nat_text(n as nat)
    }
}

fn digit(d: u64) -> (c: char)
    requires
        d < 10,
    ensures
        c == digit_char(d as nat),
{
    if d == 0 { '0' }
    else if d == 1 { '1' }
    else if d == 2 { '2' }
    else if d == 3 { '3' }
    else if d == 4 { '4' }
    else if d == 5 { '5' }
    else if d == 6 { '6' }
    else if d == 7 { '7' }
    else if d == 8 { '8' }
    else { '9' }
}

/// Renders an unsigned number in decimal.
pub fn u64_text(n: u64) -> (s: String)
    ensures
        s@ == nat_text(n as nat),
    decreases n,
{
    if n < 10 {
        let mut s = String::new();
        push_char(&mut s, digit(n));
        s
    } else {
        let mut s = u64_text(n / 10);
        push_char(&mut s, digit(n % 10));
        s
    }
}

/// Renders a signed number in decimal.
pub fn i64_text(n: i64) -> (s: String)
    ensures
        s@ == int_text(n as int),
{
    if n < 0 {
        let m: u64 = if n == i64::MIN {
            9223372036854775808u64
        } else {
            (-n) as u64
        };
        let digits = u64_text(m);
        let mut s = String::new();
        push_char(&mut s, '-');
        s.append(digits.as_str());
        s
    } else {
        u64_text(n as u64)
    }
}


/// The parts joined by the separator: `a`, `a sep b`, `a sep b sep c`, ...
pub open spec fn joined(parts: Seq<Seq<char>>, sep: Seq<char>) -> Seq<char>
    decreases parts.len(),
{
    if parts.len() == 0 {
        Seq::empty()
    } else if parts.len() == 1 {
        parts[0]
    } else {
        joined(parts.drop_last(), sep) + sep + parts.last()
    }
}

/// The views of a list of strings.
pub open spec fn views(parts: Seq<String>) -> Seq<Seq<char>> {
    parts.map_values(|p: String| p@)
}

/// Joins the strings with the separator between each neighbouring pair.
pub fn join(parts: &Vec<String>, sep: &str) -> (s: String)
    ensures
        s@ == joined(views(parts@), sep@),
{
    let mut s = String::new();
    let mut i: usize = 0;
    while i < parts.len()
        invariant
            i <= parts@.len(),
            s@ == joined(views(parts@).take(i as int), sep@),
        decreases parts@.len() - i,
    {
        let ghost before = views(parts@).take(i as int);
        if i > 0 {
            s.append(sep);
        }
        s.append(parts[i].as_str());
        i = i + 1;
        assert(views(parts@).take(i as int).drop_last() =~= before);
        if i == 1 {
            assert(s@ =~= views(parts@).take(1)[0]);
        }
    }
    assert(views(parts@).take(parts@.len() as int) =~= views(parts@));
    s
}

/// The sequence cut into consecutive pieces of `n` characters; the last piece may be
/// shorter, and an empty sequence gives no pieces.
pub open spec fn chunked(s: Seq<char>, n: nat) -> Seq<Seq<char>>
    decreases s.len(),
{
    if s.len() == 0 || n == 0 {
        Seq::empty()
    } else if s.len() <= n {
        seq![s]
    } else {
        seq![s.take(n as int)] + chunked(s.skip(n as int), n)
    }
}

/// The pieces put back together, in order.
pub open spec fn concat_all(pieces: Seq<Seq<char>>) -> Seq<char>
    decreases pieces.len(),
{
    if pieces.len() == 0 {
        Seq::empty()
    } else {
        pieces[0] + concat_all(pieces.drop_first())
    }
}

/// Cutting loses and adds nothing: the pieces put together give the text back, and each
/// piece holds between one and `n` characters.
pub proof fn lemma_chunked_concat(s: Seq<char>, n: nat)
    requires
        n > 0,
    ensures
        concat_all(chunked(s, n)) == s,
        forall|i: int| 0 <= i < chunked(s, n).len() ==>
            0 < #[trigger] chunked(s, n)[i].len() <= n,
    decreases s.len(),
{
    if s.len() == 0 {
        assert(s =~= Seq::<char>::empty());
    } else if s.len() <= n {
        assert(chunked(s, n) =~= seq![s]);
        assert(seq![s].drop_first() =~= Seq::<Seq<char>>::empty());
        assert(concat_all(seq![s]) == s + concat_all(Seq::<Seq<char>>::empty()));
        assert(s + Seq::<char>::empty() =~= s);
    } else {
        lemma_chunked_concat(s.skip(n as int), n);
        let c = chunked(s, n);
        let rest = chunked(s.skip(n as int), n);
        assert(c =~= seq![s.take(n as int)] + rest);
        assert(c.drop_first() =~= rest);
        assert(s.take(n as int) + s.skip(n as int) =~= s);
        assert(concat_all(c) == c[0] + concat_all(c.drop_first()));
        assert forall|i: int| 0 <= i < c.len() implies 0 < #[trigger] c[i].len() <= n by {
            if i > 0 {
                assert(c[i] == rest[i - 1]);
            }
        }
    }
}

/// Cuts the text into consecutive pieces of `n` characters, the last one possibly shorter.
pub fn chunk_chars(text: &str, n: usize) -> (pieces: Vec<String>)
    requires
        n > 0,
    ensures
        views(pieces@) == chunked(text@, n as nat),
{
    let cs = chars_of(text);
    let mut pieces: Vec<String> = Vec::new();
    let mut start: usize = 0;
    assert(cs@.skip(0) =~= cs@);
    assert(views(pieces@) =~= Seq::<Seq<char>>::empty());
    assert(Seq::<Seq<char>>::empty() + chunked(cs@, n as nat) =~= chunked(cs@, n as nat));
    while start < cs.len()
        invariant
            n > 0,
            start <= cs@.len(),
            cs@ == text@,
            views(pieces@) + chunked(cs@.skip(start as int), n as nat) == chunked(cs@, n as nat),
        decreases cs@.len() - start,
    {
        let ghost rest = cs@.skip(start as int);
        let end: usize = if cs.len() - start <= n { cs.len() } else { start + n };
        let piece = string_from_range(&cs, start, end);
        let ghost old_pieces = views(pieces@);
        pieces.push(piece);
        assert(views(pieces@) =~= old_pieces.push(piece@));
        if cs.len() - start <= n {
            assert(rest =~= cs@.subrange(start as int, end as int));
            assert(cs@.skip(end as int) =~= Seq::<char>::empty());
        } else {
            assert(rest.take(n as int) =~= cs@.subrange(start as int, end as int));
            assert(rest.skip(n as int) =~= cs@.skip(end as int));
        }
        assert(old_pieces + chunked(rest, n as nat) =~= views(pieces@) + chunked(cs@.skip(end as int), n as nat));
        start = end;
    }
    assert(cs@.skip(cs@.len() as int) =~= Seq::<char>::empty());
    assert(views(pieces@) + Seq::<Seq<char>>::empty() =~= views(pieces@));
    pieces
}

/// A string holding the characters `from..to` of the vector.
fn string_from_range(cs: &Vec<char>, from: usize, to: usize) -> (s: String)
    requires
        from <= to <= cs@.len(),
    ensures
        s@ == cs@.subrange(from as int, to as int),
{
    let mut s = String::new();
    let mut i: usize = from;
    while i < to
        invariant
            from <= i <= to <= cs@.len(),
            s@ == cs@.subrange(from as int, i as int),
        decreases to - i,
    {
        push_char(&mut s, cs[i]);
        i = i + 1;
        assert(cs@.subrange(from as int, i as int) =~= cs@.subrange(from as int, i - 1).push(cs@[i - 1]));
    }
    s
}

} // verus!
