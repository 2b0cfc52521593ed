//! Ad-hoc polls: the question, votes by keycap reactions and the results.
use vstd::prelude::*;
use crate::text::{chars_of, i64_text, int_text, nat_text, u64_text};

verus! {

/// The most answers a poll may have.
pub const MAX_ANSWERS: usize = 9;

/// The question with its numbered answers, one per line.
pub open spec fn answers_lines(answers: Seq<Seq<char>>, k: int) -> Seq<char>
    decreases k,
{
    if k <= 0 {
        Seq::empty()
    } else {
        answers_lines(answers, k - 1) + nat_text(k as nat) + " | "@ + answers[k - 1] + "\n"@
    }
}

/// The poll as posted: who asks what, then the numbered answers.
pub open spec fn question_text(user: Seq<char>, question: Seq<char>, answers: Seq<Seq<char>>) -> Seq<char> {
    user + " asks: "@ + question + "\nPossible answers:\n"@ + answers_lines(answers, answers.len() as int)
}

/// Renders the poll as posted (see `question_text`).
pub fn ask_question(user: &str, question: &str, answers: &Vec<String>) -> (t: String)
    ensures
        t@ == question_text(user@, question@, answers@.map_values(|a: String| a@)),
{
    let ghost av = answers@.map_values(|a: String| a@);
    let mut t = String::new();
    t.append(user);
    t.append(" asks: ");
    t.append(question);
    t.append("\nPossible answers:\n");
    let ghost head = t@;
    let mut i: usize = 0;
    while i < answers.len()
        invariant
            i <= answers@.len(),
            av == answers@.map_values(|a: String| a@),
            t@ == head + answers_lines(av, i as int),
        decreases answers@.len() - i,
    {
        assert(av[i as int] == answers@[i as int]@);
        let n = u64_text((i + 1) as u64);
        t.append(n.as_str());
        t.append(" | ");
        t.append(answers[i].as_str());
        t.append("\n");
        i = i + 1;
        assert(t@ =~= head + answers_lines(av, i as int));
    }
    t
}

/// The keycap emoji for the digits 1 to 9: the digit, a variation selector and the keycap.
pub open spec fn keycap_number(s: Seq<char>) -> Option<usize> {
    if s.len() == 3 && s[1] == '\u{fe0f}' && s[2] == '\u{20e3}' && '1' <= s[0] && s[0] <= '9' {
        Some((s[0] as int - '0' as int) as usize)
    } else {
        None
    }
}

/// The number that a reaction stands for: a keycap digit from 1 to 9 (see
/// `keycap_number`); `None` for any other emoji.
pub fn reaction_to_num(emoji: &str) -> (n: Option<usize>)
    ensures
        n == keycap_number(emoji@),
{
    let cs = chars_of(emoji);
    if cs.len() == 3 && cs[1] == '\u{fe0f}' && cs[2] == '\u{20e3}' && '1' <= cs[0] && cs[0] <= '9' {
        Some((cs[0] as u32 - '0' as u32) as usize)
    } else {
        None
    }
}

/// The number of votes for answer `a` (counted from 1) among the first `k` votes.
pub open spec fn votes_for(votes: Seq<usize>, a: int, k: int) -> nat
    decreases k,
{
    if k <= 0 {
        0
    } else {
        votes_for(votes, a, k - 1) + if votes[k - 1] == a { 1nat } else { 0nat }
    }
}

/// Counts the votes per answer: entry `i` is the number of votes for answer `i + 1`. Votes
/// for numbers beyond the answers are not counted.
pub fn tally(votes: &Vec<usize>, answer_count: usize) -> (counts: Vec<usize>)
    requires
        votes@.len() <= usize::MAX,
    ensures
        counts@.len() == answer_count,
        forall|i: int| 0 <= i < answer_count ==> #[trigger] counts@[i] == votes_for(votes@, i + 1, votes@.len() as int),
{
    let mut counts: Vec<usize> = Vec::new();
    let mut i: usize = 0;
    while i < answer_count
        invariant
            i <= answer_count,
            counts@.len() == i,
            forall|j: int| 0 <= j < i ==> #[trigger] counts@[j] == 0,
        decreases answer_count - i,
    {
        counts.push(0);
        i = i + 1;
    }
    let mut k: usize = 0;
    while k < votes.len()
        invariant
            k <= votes@.len(),
            counts@.len() == answer_count,
            forall|j: int| 0 <= j < answer_count ==> #[trigger] counts@[j] == votes_for(votes@, j + 1, k as int),
            forall|j: int| 0 <= j < answer_count ==> counts@[j] <= k,
        decreases votes@.len() - k,
    {
        let v = votes[k];
        if 1 <= v && v <= answer_count {
            let c = counts[v - 1];
            counts.set(v - 1, c + 1);
        }
        k = k + 1;
    }
    counts
}

/// Answer `i` appears in the results: it has votes, and no later answer with votes has the
/// same text (for answers written twice, the last one with votes stands).
pub open spec fn kept_answer(answers: Seq<Seq<char>>, counts: Seq<usize>, i: int) -> bool {
    &&& counts[i] > 0
    &&& forall|j: int| i < j < counts.len() ==> !(counts[j] > 0 && #[trigger] answers[j] == answers[i])
}

/// The results for the first `k` answers: each kept answer with its votes, in answer order.
pub open spec fn poll_entries(answers: Seq<Seq<char>>, counts: Seq<usize>, k: int) -> Seq<(Seq<char>, usize)>
    decreases k,
{
    if k <= 0 {
        Seq::empty()
    } else {
        poll_entries(answers, counts, k - 1) + if kept_answer(answers, counts, k - 1) {
            seq![(answers[k - 1], counts[k - 1])]
        } else {
            Seq::empty()
        }
    }
}

/// The answers with their votes, as the results show them (see `poll_entries`).
pub fn poll_results(answers: &Vec<String>, counts: &Vec<usize>) -> (r: Vec<(String, usize)>)
    requires
        answers@.len() == counts@.len(),
    ensures
        r@.map_values(|e: (String, usize)| (e.0@, e.1)) == poll_entries(
            answers@.map_values(|a: String| a@),
            counts@,
            counts@.len() as int,
        ),
{
    let ghost av = answers@.map_values(|a: String| a@);
    let mut r: Vec<(String, usize)> = Vec::new();
    let mut i: usize = 0;
    while i < counts.len()
        invariant
            i <= counts@.len(),
            answers@.len() == counts@.len(),
            av == answers@.map_values(|a: String| a@),
            r@.map_values(|e: (String, usize)| (e.0@, e.1)) == poll_entries(av, counts@, i as int),
        decreases counts@.len() - i,
    {
        let ghost before = r@.map_values(|e: (String, usize)| (e.0@, e.1));
        if counts[i] > 0 {
            let mut later = false;
            let mut j: usize = i + 1;
            while j < counts.len()
                invariant
                    i < counts@.len(),
                    i + 1 <= j <= counts@.len(),
                    answers@.len() == counts@.len(),
                    av == answers@.map_values(|a: String| a@),
                    later == exists|m: int| i < m < j && counts@[m] > 0 && #[trigger] av[m] == av[i as int],
                decreases counts@.len() - j,
            {
                assert(av[j as int] == answers@[j as int]@ && av[i as int] == answers@[i as int]@);
                if counts[j] > 0 && answers[j] == answers[i] {
                    later = true;
                }
                j = j + 1;
            }
            if !later {
                assert(av[i as int] == answers@[i as int]@);
                r.push((answers[i].clone(), counts[i]));
                assert(r@.map_values(|e: (String, usize)| (e.0@, e.1)) =~= before.push((av[i as int], counts@[i as int])));
            }
        }
        i = i + 1;
        assert(r@.map_values(|e: (String, usize)| (e.0@, e.1)) =~= poll_entries(av, counts@, i as int));
    }
    r
}

/// The results: the question, each counted answer with its votes, and the winner.
pub open spec fn results_lines(results: Seq<(Seq<char>, usize)>, k: int) -> Seq<char>
    decreases k,
{
    if k <= 0 {
        Seq::empty()
    } else {
        results_lines(results, k - 1) + results[k - 1].0 + " with "@ + nat_text(results[k - 1].1 as nat)
            + " vote(s)!\n"@
    }
}

/// The position of the winner among the first `k` results: the last one with the most
/// votes, or `None` for no results.
pub open spec fn winner_of(results: Seq<(Seq<char>, usize)>, k: int) -> Option<int>
    decreases k,
{
    if k <= 0 {
        None
    } else {
        match winner_of(results, k - 1) {
            None => Some(k - 1),
            Some(w) => if results[k - 1].1 >= results[w].1 { Some(k - 1) } else { Some(w) },
        }
    }
}

/// The results message (see `results_lines` and `winner_of`).
pub open spec fn results_text(question: Seq<char>, results: Seq<(Seq<char>, usize)>) -> Seq<char> {
    "On the question of: "@ + question + "\n"@ + "people answered: \n"@ + results_lines(results, results.len() as int)
        + match winner_of(results, results.len() as int) {
        Some(w) => "**"@ + results[w].0 + "** won with **"@ + nat_text(results[w].1 as nat) + "** vote(s)!"@,
        None => Seq::empty(),
    }
}

/// Renders the results of a poll from the answers and their votes, in the given order.
pub fn render_poll_results(question: &str, poll_results: &Vec<(String, usize)>) -> (t: String)
    ensures
        t@ == results_text(question@, poll_results@.map_values(|r: (String, usize)| (r.0@, r.1))),
{
    let ghost rv = poll_results@.map_values(|r: (String, usize)| (r.0@, r.1));
    let mut t = String::new();
    t.append("On the question of: ");
    t.append(question);
    t.append("\n");
    t.append("people answered: \n");
    let ghost head = t@;
    let mut winner: Option<usize> = None;
    let mut i: usize = 0;
    while i < poll_results.len()
        invariant
            i <= poll_results@.len(),
            rv == poll_results@.map_values(|r: (String, usize)| (r.0@, r.1)),
            t@ == head + results_lines(rv, i as int),
            winner_of(rv, i as int) == match winner {
                Some(w) => Some(w as int),
                None => None::<int>,
            },
            winner matches Some(w) ==> w < i,
        decreases poll_results@.len() - i,
    {
        assert(rv[i as int] == (poll_results@[i as int].0@, poll_results@[i as int].1));
        t.append(poll_results[i].0.as_str());
        t.append(" with ");
        let n = u64_text(poll_results[i].1 as u64);
        t.append(n.as_str());
        t.append(" vote(s)!\n");
        winner = match winner {
            None => Some(i),
            Some(w) => if poll_results[i].1 >= poll_results[w].1 { Some(i) } else { Some(w) },
        };
        i = i + 1;
        assert(t@ =~= head + results_lines(rv, i as int));
    }
    let ghost body = t@;
    match winner {
        Some(w) => {
            assert(rv[w as int] == (poll_results@[w as int].0@, poll_results@[w as int].1));
            t.append("**");
            t.append(poll_results[w].0.as_str());
            t.append("** won with **");
            let n = u64_text(poll_results[w].1 as u64);
            t.append(n.as_str());
            t.append("** vote(s)!");
        },
        None => {},
    }
    assert(t@ =~= results_text(question@, rv));
    t
}

/// The announced winner among the first `k` results, for every list: there is one exactly
/// when there is a result; it is one of them, no result has more votes, and every later
/// result has fewer (a tie goes to the one listed last).
pub proof fn lemma_winner_has_most_votes(results: Seq<(Seq<char>, usize)>, k: int)
    requires
        0 <= k <= results.len(),
    ensures
        winner_of(results, k) is None <==> k == 0,
        winner_of(results, k) matches Some(w) ==> {
            &&& 0 <= w < k
            &&& forall|i: int| 0 <= i < k ==> #[trigger] results[i].1 <= results[w].1
            &&& forall|i: int| w < i < k ==> #[trigger] results[i].1 < results[w].1
        },
    decreases k,
{
    if k > 0 {
        lemma_winner_has_most_votes(results, k - 1);
    }
}

} // verus!
