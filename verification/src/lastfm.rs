//! Last.fm: the request addresses and the listings of recent and top tracks, artists and
//! albums.
use vstd::prelude::*;
use crate::text::{chars_of, i64_text, int_text};

verus! {

/// The Last.fm period for a period argument: `all`, `7d`, `1m`, `3m`, `6m`, `12m`; anything
/// else means the whole time.
pub open spec fn period_of(arg: Seq<char>) -> Seq<char> {
    if arg == "7d"@ {
        "7day"@
    } else if arg == "1m"@ {
        "1month"@
    } else if arg == "3m"@ {
        "3month"@
    } else if arg == "6m"@ {
        "6month"@
    } else if arg == "12m"@ {
        "12month"@
    } else {
        "overall"@
    }
}

/// The period arguments, for every argument: each of `7d`, `1m`, `3m`, `6m` and `12m` names
/// its own Last.fm period, its number followed by `day` for `d` and `month` for `m` (so
/// `3m` is `3month`); every other argument, `all` among them, means `overall`.
pub proof fn lemma_period_names(arg: Seq<char>)
    ensures
        (arg == "7d"@ || arg == "1m"@ || arg == "3m"@ || arg == "6m"@ || arg == "12m"@)
            ==> period_of(arg) == arg.drop_last() + (if arg.last() == 'd' { "day"@ } else { "month"@ }),
        !(arg == "7d"@ || arg == "1m"@ || arg == "3m"@ || arg == "6m"@ || arg == "12m"@)
            ==> period_of(arg) == "overall"@,
{
    reveal_strlit("7d");
    reveal_strlit("1m");
    reveal_strlit("3m");
    reveal_strlit("6m");
    reveal_strlit("12m");
    reveal_strlit("7day");
    reveal_strlit("1month");
    reveal_strlit("3month");
    reveal_strlit("6month");
    reveal_strlit("12month");
    reveal_strlit("day");
    reveal_strlit("month");
    if arg == "7d"@ {
        assert(arg.drop_last() + "day"@ =~= "7day"@);
    } else if arg == "1m"@ {
        assert(arg.drop_last() + "month"@ =~= "1month"@);
    } else if arg == "3m"@ {
        assert(arg.drop_last() + "month"@ =~= "3month"@);
    } else if arg == "6m"@ {
        assert(arg.drop_last() + "month"@ =~= "6month"@);
    } else if arg == "12m"@ {
        assert(arg.drop_last() + "month"@ =~= "12month"@);
    }
}

/// Maps a period argument to the Last.fm period (see `period_of`).
pub fn period(arg: &str) -> (p: String)
    ensures
        p@ == period_of(arg@),
{
    let a = String::from_str(arg);
    if a == String::from_str("7d") {
        String::from_str("7day")
    } else if a == String::from_str("1m") {
        String::from_str("1month")
    } else if a == String::from_str("3m") {
        String::from_str("3month")
    } else if a == String::from_str("6m") {
        String::from_str("6month")
    } else if a == String::from_str("12m") {
        String::from_str("12month")
    } else {
        String::from_str("overall")
    }
}

/// The kinds of Last.fm listings.
#[derive(Clone, Copy, Debug, PartialEq, Eq, Structural)]
pub enum Listing {
    /// The track playing now (the recent tracks, without a limit).
    Now,
    /// The ten most recent tracks.
    Recent,
    /// The ten top artists of a period.
    Artists,
    /// The ten top albums of a period.
    Albums,
    /// The ten top tracks of a period.
    Tracks,
}

/// The API method of a listing.
pub open spec fn method_of(l: Listing) -> Seq<char> {
    match l {
        Listing::Now => "user.getrecenttracks"@,
        Listing::Recent => "user.getrecenttracks"@,
        Listing::Artists => "user.gettopartists"@,
        Listing::Albums => "user.gettopalbums"@,
        Listing::Tracks => "user.gettoptracks"@,
    }
}

/// The request address of a listing for the user, with the API key and, for the top
/// listings, the period.
pub open spec fn url_text(l: Listing, user: Seq<char>, key: Seq<char>, period: Seq<char>) -> Seq<char> {
    let base = "http://ws.audioscrobbler.com/2.0/?method="@ + method_of(l) + "&user="@ + user
        + "&api_key="@ + key + "&format=json"@;
    match l {
        Listing::Now => base,
        Listing::Recent => base + "&limit=10"@,
        _ => base + "&limit=10&period="@ + period,
    }
}

/// Builds the request address of a listing (see `url_text`).
pub fn listing_url(l: Listing, user: &str, key: &str, period: &str) -> (u: String)
    ensures
        u@ == url_text(l, user@, key@, period@),
{
    let mut u = String::from_str("http://ws.audioscrobbler.com/2.0/?method=");
    match l {
        Listing::Now => u.append("user.getrecenttracks"),
        Listing::Recent => u.append("user.getrecenttracks"),
        Listing::Artists => u.append("user.gettopartists"),
        Listing::Albums => u.append("user.gettopalbums"),
        Listing::Tracks => u.append("user.gettoptracks"),
    }
    u.append("&user=");
    u.append(user);
    u.append("&api_key=");
    u.append(key);
    u.append("&format=json");
    match l {
        Listing::Now => {},
        Listing::Recent => u.append("&limit=10"),
        _ => {
            u.append("&limit=10&period=");
            u.append(period);
        },
    }
    u
}

/// A value read from the answer, or the placeholder where it is missing.
pub open spec fn or_default(v: Option<Seq<char>>, default: Seq<char>) -> Seq<char> {
    match v {
        Some(t) => t,
        None => default,
    }
}

/// The plain value of an optional string.
pub open spec fn opt_text(s: Option<String>) -> Option<Seq<char>> {
    match s {
        Some(t) => Some(t@),
        None => None,
    }
}

fn append_or(t: &mut String, v: &Option<String>, default: &str)
    ensures
        final(t)@ == old(t)@ + or_default(opt_text(*v), default@),
{
    match v {
        Some(s) => t.append(s.as_str()),
        None => t.append(default),
    }
}

/// A track in a recent listing: the artist and the title, where the answer has them.
pub struct RecentTrack {
    pub artist: Option<String>,
    pub name: Option<String>,
    pub now_playing: bool,
}

/// The line of a track: `Artist: artist - title`.
pub open spec fn track_line_text(t: RecentTrack) -> Seq<char> {
    "Artist: "@ + or_default(opt_text(t.artist), "Unknown Artist"@) + " - "@
        + or_default(opt_text(t.name), "Unknown Title"@)
}

fn track_line(t: &RecentTrack) -> (s: String)
    ensures
        s@ == track_line_text(*t),
{
    let mut s = String::from_str("Artist: ");
    append_or(&mut s, &t.artist, "Unknown Artist");
    s.append(" - ");
    append_or(&mut s, &t.name, "Unknown Title");
    s
}

/// The messages for the tracks playing now: one per track marked as playing, in order.
pub open spec fn now_playing_texts(ts: Seq<RecentTrack>) -> Seq<Seq<char>>
    decreases ts.len(),
{
    if ts.len() == 0 {
        Seq::empty()
    } else if ts.last().now_playing {
        now_playing_texts(ts.drop_last()).push(track_line_text(ts.last()))
    } else {
        now_playing_texts(ts.drop_last())
    }
}

/// The messages for the tracks playing now (see `now_playing_texts`).
pub fn now_playing(ts: &Vec<RecentTrack>) -> (ms: Vec<String>)
    ensures
        crate::text::views(ms@) == now_playing_texts(ts@),
{
    let mut ms: Vec<String> = Vec::new();
    let mut i: usize = 0;
    while i < ts.len()
        invariant
            i <= ts@.len(),
            crate::text::views(ms@) == now_playing_texts(ts@.take(i as int)),
        decreases ts@.len() - i,
    {
        assert(ts@.take(i + 1).drop_last() =~= ts@.take(i as int));
        if ts[i].now_playing {
            let line = track_line(&ts[i]);
            let ghost before = ms@;
            ms.push(line);
            assert(crate::text::views(ms@) =~= crate::text::views(before).push(line@));
        }
        i = i + 1;
    }
    assert(ts@.take(ts@.len() as int) =~= ts@);
    ms
}

/// The listing of recent tracks: one line per track.
pub open spec fn recent_text(ts: Seq<RecentTrack>) -> Seq<char>
    decreases ts.len(),
{
    if ts.len() == 0 {
        Seq::empty()
    } else {
        recent_text(ts.drop_last()) + track_line_text(ts.last()) + "\n"@
    }
}

/// Writes the listing of recent tracks (see `recent_text`).
pub fn recent(ts: &Vec<RecentTrack>) -> (s: String)
    ensures
        s@ == recent_text(ts@),
{
    let mut s = String::new();
    let mut i: usize = 0;
    while i < ts.len()
        invariant
            i <= ts@.len(),
            s@ == recent_text(ts@.take(i as int)),
        decreases ts@.len() - i,
    {
        assert(ts@.take(i + 1).drop_last() =~= ts@.take(i as int));
        s.append(track_line(&ts[i]).as_str());
        s.append("\n");
        i = i + 1;
    }
    assert(ts@.take(ts@.len() as int) =~= ts@);
    s
}

/// An entry of a top listing of artists or albums: its rank and name.
pub struct RankedEntry {
    pub rank: Option<String>,
    pub name: Option<String>,
}

/// The top listing of artists or albums: `Rank: rank | name` per entry.
pub open spec fn ranked_text(es: Seq<RankedEntry>) -> Seq<char>
    decreases es.len(),
{
    if es.len() == 0 {
        Seq::empty()
    } else {
        ranked_text(es.drop_last()) + "Rank: "@ + or_default(opt_text(es.last().rank), "Unknown Rank"@)
            + " | "@ + or_default(opt_text(es.last().name), "Unknown Artist"@) + "\n"@
    }
}

/// Writes a top listing of artists or albums (see `ranked_text`).
pub fn ranked(es: &Vec<RankedEntry>) -> (s: String)
    ensures
        s@ == ranked_text(es@),
{
    let mut s = String::new();
    let mut i: usize = 0;
    while i < es.len()
        invariant
            i <= es@.len(),
            s@ == ranked_text(es@.take(i as int)),
        decreases es@.len() - i,
    {
        assert(es@.take(i + 1).drop_last() =~= es@.take(i as int));
        s.append("Rank: ");
        append_or(&mut s, &es[i].rank, "Unknown Rank");
        s.append(" | ");
        append_or(&mut s, &es[i].name, "Unknown Artist");
        s.append("\n");
        i = i + 1;
    }
    assert(es@.take(es@.len() as int) =~= es@);
    s
}

/// The value of a decimal text as Rust's `str::parse::<i32>` reads it: an optional sign,
/// then one or more digits, with the value in the range of `i32`; `None` otherwise.
pub open spec fn parsed_i32(s: Seq<char>) -> Option<int> {
    let (neg, digits) = if s.len() > 0 && s[0] == '-' {
        (true, s.drop_first())
    } else if s.len() > 0 && s[0] == '+' {
        (false, s.drop_first())
    } else {
        (false, s)
    };
    if digits.len() == 0 || !all_digits(digits) {
        None
    } else {
        let v = if neg { -digits_value(digits) } else { digits_value(digits) };
        if i32::MIN <= v <= i32::MAX { Some(v) } else { None }
    }
}

/// Every character is an ASCII digit.
pub open spec fn all_digits(s: Seq<char>) -> bool {
    forall|i: int| 0 <= i < s.len() ==> '0' <= #[trigger] s[i] <= '9'
}

/// The value of a string of digits.
pub open spec fn digits_value(s: Seq<char>) -> int
    decreases s.len(),
{
    if s.len() == 0 {
        0
    } else {
        digits_value(s.drop_last()) * 10 + (s.last() as int - '0' as int)
    }
}

pub(crate) proof fn lemma_digits_value_nonneg(s: Seq<char>)
    requires
        all_digits(s),
    ensures
        digits_value(s) >= 0,
    decreases s.len(),
{
    if s.len() > 0 {
        assert(all_digits(s.drop_last())) by {
            assert forall|i: int| 0 <= i < s.drop_last().len() implies '0' <= #[trigger] s.drop_last()[i] <= '9' by {
                assert(s.drop_last()[i] == s[i]);
            }
        }
        lemma_digits_value_nonneg(s.drop_last());
        assert('0' <= s[s.len() - 1] <= '9');
    }
}

pub(crate) proof fn lemma_digits_value_grows(s: Seq<char>, k: int)
    requires
        all_digits(s),
        0 <= k <= s.len(),
    ensures
        digits_value(s.take(k)) <= digits_value(s),
    decreases s.len() - k,
{
    if k < s.len() {
        lemma_digits_value_grows(s, k + 1);
        assert(s.take(k + 1).drop_last() =~= s.take(k));
        assert('0' <= s[k] <= '9');
        assert(all_digits(s.take(k))) by {
            assert forall|i: int| 0 <= i < s.take(k).len() implies '0' <= #[trigger] s.take(k)[i] <= '9' by {
                assert(s.take(k)[i] == s[i]);
            }
        }
        lemma_digits_value_nonneg(s.take(k));
    } else {
        assert(s.take(k) =~= s);
    }
}

/// Reads a number as `str::parse::<i32>` does (see `parsed_i32`).
pub fn parse_i32(text: &str) -> (r: Option<i32>)
    ensures
        match r {
            Some(v) => parsed_i32(text@) == Some(v as int),
            None => parsed_i32(text@) is None,
        },
{
    let cs = chars_of(text);
    let mut start: usize = 0;
    let mut neg = false;
    if cs.len() > 0 && cs[0] == '-' {
        neg = true;
        start = 1;
    } else if cs.len() > 0 && cs[0] == '+' {
        start = 1;
    }
    let ghost digits = cs@.skip(start as int);
    assert(start == 1 ==> digits =~= cs@.drop_first());
    assert(start == 0 ==> digits =~= cs@);
    if start == cs.len() {
        return None;
    }
    let mut value: i64 = 0;
    let mut i: usize = start;
    while i < cs.len()
        invariant
            start <= i <= cs@.len(),
            cs@ == text@,
            digits == cs@.skip(start as int),
            start == 1 ==> digits == cs@.drop_first(),
            start == 0 ==> digits == cs@,
            start <= 1,
            (start == 1) == (cs@.len() > 0 && (cs@[0] == '-' || cs@[0] == '+')),
            neg == (cs@.len() > 0 && cs@[0] == '-'),
            all_digits(digits.take(i - start)),
            value == digits_value(digits.take(i - start)),
            0 <= value <= 2147483648,
        decreases cs@.len() - i,
    {
        let c = cs[i];
        if c < '0' || c > '9' {
            assert(digits[i - start] == c);
            assert(!all_digits(digits));
            return None;
        }
        let d = (c as u32 - '0' as u32) as i64;
        let next = value * 10 + d;
        assert(digits.take(i + 1 - start).drop_last() =~= digits.take(i - start));
        assert(digits.take(i + 1 - start).last() == c);
        if next > 2147483648 {
            proof {
                if all_digits(digits) {
                    lemma_digits_value_grows(digits, i + 1 - start);
                    assert(digits_value(digits) > 2147483648);
                }
            }
            return None;
        }
        value = next;
        i = i + 1;
    }
    assert(digits.take(cs@.len() - start) =~= digits);
    if neg {
        Some((-value) as i32)
    } else if value > 2147483647 {
        None
    } else {
        Some(value as i32)
    }
}

/// An entry of the top tracks: rank, play count, artist and title.
pub struct TopTrack {
    pub rank: Option<String>,
    pub playcount: Option<String>,
    pub artist: Option<String>,
    pub name: Option<String>,
}

/// The plays a track counts for in the total: its play count read as an `i32`, or zero
/// where it is missing or not a number.
pub open spec fn plays_of(t: TopTrack) -> int {
    match t.playcount {
        Some(p) => match parsed_i32(p@) {
            Some(v) => v,
            None => 0,
        },
        None => 0,
    }
}

/// The total plays of the first `k` tracks.
pub open spec fn total_plays(ts: Seq<TopTrack>, k: int) -> int
    decreases k,
{
    if k <= 0 { 0 } else { total_plays(ts, k - 1) + plays_of(ts[k - 1]) }
}

/// The line of a top track: `Rank: rank | Played: count | artist - title`.
pub open spec fn top_track_line_text(t: TopTrack) -> Seq<char> {
    "Rank: "@ + or_default(opt_text(t.rank), "Unknown Rank"@) + " | Played: "@
        + or_default(opt_text(t.playcount), "-"@) + " | "@ + or_default(opt_text(t.artist), "Unknown Artist"@)
        + " - "@ + or_default(opt_text(t.name), "Unknown Track"@) + "\n"@
}

/// The lines of the first `k` top tracks.
pub open spec fn top_tracks_lines(ts: Seq<TopTrack>, k: int) -> Seq<char>
    decreases k,
{
    if k <= 0 { Seq::empty() } else { top_tracks_lines(ts, k - 1) + top_track_line_text(ts[k - 1]) }
}

/// The total of the play counts stays within `i32` at every step (the sum is kept in an
/// `i32`).
pub open spec fn totals_fit(ts: Seq<TopTrack>) -> bool {
    forall|k: int| 0 <= k <= ts.len() ==> i32::MIN <= #[trigger] total_plays(ts, k) <= i32::MAX
}

/// The top tracks listing: a line per track, then the total number of plays.
pub open spec fn tracks_text(ts: Seq<TopTrack>) -> Seq<char> {
    top_tracks_lines(ts, ts.len() as int) + "Overall scrobbles: "@ + int_text(total_plays(ts, ts.len() as int))
        + "\n"@
}

/// Writes the top tracks listing (see `tracks_text`).
pub fn tracks(ts: &Vec<TopTrack>) -> (s: String)
    requires
        totals_fit(ts@),
    ensures
        s@ == tracks_text(ts@),
{
    let mut s = String::new();
    let mut overall: i32 = 0;
    let mut i: usize = 0;
    while i < ts.len()
        invariant
            i <= ts@.len(),
            totals_fit(ts@),
            overall == total_plays(ts@, i as int),
            s@ == top_tracks_lines(ts@, i as int),
        decreases ts@.len() - i,
    {
        let t = &ts[i];
        let plays: i32 = match &t.playcount {
            Some(p) => match parse_i32(p.as_str()) {
                Some(v) => v,
                None => 0,
            },
            None => 0,
        };
        assert(total_plays(ts@, i + 1) == overall + plays);
        assert(i32::MIN <= total_plays(ts@, i + 1) <= i32::MAX);
        overall = overall + plays;
        s.append("Rank: ");
        append_or(&mut s, &t.rank, "Unknown Rank");
        s.append(" | Played: ");
        append_or(&mut s, &t.playcount, "-");
        s.append(" | ");
        append_or(&mut s, &t.artist, "Unknown Artist");
        s.append(" - ");
        append_or(&mut s, &t.name, "Unknown Track");
        s.append("\n");
        i = i + 1;
    }
    s.append("Overall scrobbles: ");
    s.append(i64_text(overall as i64).as_str());
    s.append("\n");
    s
}

/// The footer of a listing: how long Last.fm took to answer.
pub open spec fn took_text(millis: u64) -> Seq<char> {
    "Lastfm response took: "@ + int_text(millis as int) + "ms"@
}

/// Writes the footer of a listing (see `took_text`).
pub fn response_took(millis: u64) -> (t: String)
    ensures
        t@ == took_text(millis),
{
    let mut t = String::from_str("Lastfm response took: ");
    t.append(crate::text::u64_text(millis).as_str());
    t.append("ms");
    t
}

/// The answer to registering a Last.fm name: updated, or added when the user had none.
pub open spec fn register_text(had_name: bool, name: Seq<char>) -> Seq<char> {
    if had_name {
        "Updated your lastfm username to "@ + name
    } else {
        "Added "@ + name + " as your lastfm username!"@
    }
}

/// Writes the answer to registering a Last.fm name (see `register_text`).
pub fn register(had_name: bool, name: &str) -> (t: String)
    ensures
        t@ == register_text(had_name, name@),
{
    if had_name {
        let mut t = String::from_str("Updated your lastfm username to ");
        t.append(name);
        t
    } else {
        let mut t = String::from_str("Added ");
        t.append(name);
        t.append(" as your lastfm username!");
        t
    }
}

} // verus!
