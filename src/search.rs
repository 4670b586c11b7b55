use vstd::prelude::*;
use crate::args::{push_joined_strings, string_views};
use crate::text::{decimal, join, push_decimal, push_str, str_eq, string_of};

verus! {

/// Where one search stands.
#[derive(Debug, Clone, Copy, PartialEq, Eq, Structural)]
pub enum SearchPhase {
    /// Waiting for the oracle's answer to the latest query.
    Attempting,
    Succeeded,
    FallbackChosen,
    Cancelled,
}

/// A well-formed answer of the oracle: its proposed line, the depth it analysed
/// (1 where it gave none), the score text (`cp <v>` or `mate <m>`) and its rationale.
pub struct OracleReply {
    pub ponder: Vec<String>,
    pub depth: u32,
    pub score: String,
    pub reasoning: Option<String>,
}

pub struct ReplyModel {
    pub ponder: Seq<Seq<char>>,
    pub depth: nat,
    pub score: Seq<char>,
    pub reasoning: Option<Seq<char>>,
}

impl View for OracleReply {
    type V = ReplyModel;

    open spec fn view(&self) -> ReplyModel {
        ReplyModel {
            ponder: string_views(self.ponder@),
            depth: self.depth as nat,
            score: self.score@,
            reasoning: match self.reasoning {
                Some(s) => Some(s@),
                None => None,
            },
        }
    }
}

pub open spec fn reply_view(r: Option<OracleReply>) -> Option<ReplyModel> {
    match r {
        Some(x) => Some(x@),
        None => None,
    }
}

/// What the search asks of its runner after a transition: print the lines, then
/// either query the oracle once more or stop.
pub enum SearchStep {
    Query(Vec<String>),
    Finish(Vec<String>),
}

pub open spec fn step_lines(s: &SearchStep) -> Seq<Seq<char>> {
    match s {
        SearchStep::Query(l) => string_views(l@),
        SearchStep::Finish(l) => string_views(l@),
    }
}

pub struct SearchModel {
    pub legal: Seq<Seq<char>>,
    pub max_tries: nat,
    pub queries: nat,
    pub phase: SearchPhase,
}

/// One search over a fixed list of legal moves (in move notation). It queries the
/// oracle up to `max_tries + 1` times and falls back to a random legal move.
pub struct SearchTask {
    legal: Vec<String>,
    max_tries: u8,
    queries: u16,
    phase: SearchPhase,
}

impl View for SearchTask {
    type V = SearchModel;

    closed spec fn view(&self) -> SearchModel {
        SearchModel {
            legal: string_views(self.legal@),
            max_tries: self.max_tries as nat,
            queries: self.queries as nat,
            phase: self.phase,
        }
    }
}

pub open spec fn model_wf(m: SearchModel) -> bool {
    &&& m.max_tries <= 255
    &&& m.queries <= m.max_tries + 1
    &&& m.phase == SearchPhase::Attempting ==> m.legal.len() >= 2 && m.queries >= 1
}

pub open spec fn best_line(m: Seq<char>) -> Seq<char> {
    "bestmove "@ + m
}

pub open spec fn stalemate_lines() -> Seq<Seq<char>> {
    seq![
        "info string error: refusing to evaluate on a board with no legal moves, considering the position draw by stalemate"@,
        "info depth 1 score cp 0"@,
    ]
}

pub open spec fn start_model(legal: Seq<Seq<char>>, max_tries: nat) -> SearchModel {
    if legal.len() < 2 {
        SearchModel { legal, max_tries, queries: 0, phase: SearchPhase::Succeeded }
    } else {
        SearchModel { legal, max_tries, queries: 1, phase: SearchPhase::Attempting }
    }
}

/// No legal move: a stalemate diagnostic; one legal move: that move; else nothing yet.
pub open spec fn start_lines(legal: Seq<Seq<char>>) -> Seq<Seq<char>> {
    if legal.len() == 0 {
        stalemate_lines()
    } else if legal.len() == 1 {
        seq![best_line(legal[0])]
    } else {
        Seq::empty()
    }
}

/// The oracle's first proposed move is one of the legal moves.
pub open spec fn accepted(legal: Seq<Seq<char>>, r: ReplyModel) -> bool {
    r.ponder.len() > 0 && legal.contains(r.ponder[0])
}

pub open spec fn reasoning_lines(r: ReplyModel) -> Seq<Seq<char>> {
    match r.reasoning {
        Some(t) => if t.len() > 0 {
            seq!["info string reasoning: "@ + t]
        } else {
            Seq::empty()
        },
        None => Seq::empty(),
    }
}

/// The diagnostics about one reply, before the verdict on it.
pub open spec fn reply_notes(legal: Seq<Seq<char>>, reply: Option<ReplyModel>) -> Seq<Seq<char>> {
    match reply {
        None => Seq::empty(),
        Some(r) => reasoning_lines(r) + if r.ponder.len() == 0 {
            seq!["info string error: ai returned no ponder"@]
        } else if !legal.contains(r.ponder[0]) {
            seq!["info string error: ai returned an illegal move"@]
        } else {
            Seq::empty()
        },
    }
}

pub open spec fn analysis_line(r: ReplyModel) -> Seq<char> {
    "info depth "@ + decimal(r.depth) + " score "@ + r.score + " pv "@ + join(r.ponder, " "@)
}

pub open spec fn retry_line(attempt: nat, max_tries: nat) -> Seq<char> {
    "info error: no move found, going to try again ("@ + decimal(attempt) + "/"@ + decimal(
        max_tries,
    ) + ")"@
}

pub open spec fn exhausted_line(tries: nat) -> Seq<char> {
    "info error: no bestmove was found in "@ + decimal(tries)
        + " tries, going to pick a random move"@
}

pub open spec fn reply_accepted(s: SearchModel, reply: Option<ReplyModel>) -> bool {
    reply is Some && accepted(s.legal, reply->Some_0)
}

/// The search after the answer to its latest query.
pub open spec fn next_model(s: SearchModel, reply: Option<ReplyModel>) -> SearchModel {
    if reply_accepted(s, reply) {
        SearchModel { phase: SearchPhase::Succeeded, ..s }
    } else if s.queries <= s.max_tries {
        SearchModel { queries: s.queries + 1, ..s }
    } else {
        SearchModel { phase: SearchPhase::FallbackChosen, ..s }
    }
}

/// The lines printed after the answer to the latest query; `pick` is the index of
/// the fallback move, used only once every attempt has failed.
pub open spec fn next_lines(s: SearchModel, reply: Option<ReplyModel>, pick: int) -> Seq<
    Seq<char>,
> {
    let notes = reply_notes(s.legal, reply);
    if reply_accepted(s, reply) {
        notes + seq![analysis_line(reply->Some_0), best_line(reply->Some_0.ponder[0])]
    } else if s.queries <= s.max_tries {
        notes.push(retry_line(s.queries, s.max_tries))
    } else {
        notes + seq![
            retry_line(s.queries, s.max_tries),
            exhausted_line(s.max_tries + 1),
            best_line(s.legal[pick]),
        ]
    }
}

pub open spec fn cancel_model(s: SearchModel) -> SearchModel {
    if s.phase == SearchPhase::Attempting {
        SearchModel { phase: SearchPhase::Cancelled, ..s }
    } else {
        s
    }
}

/// Relies on `rand::random_range`: a value drawn from `0..n`; it panics on an empty range.
#[verifier::external_body]
fn random_below(n: usize) -> (r: usize)
    requires
        n > 0,
    ensures
        r < n,
{
    rand::random_range(0..n)
}

fn line_of(v: &Vec<char>) -> (r: String)
    ensures
        r@ == v@,
{
    string_of(v)
}

fn text_line(s: &str) -> (r: String)
    ensures
        r@ == s@,
{
    String::from_str(s)
}

fn best_text(m: &str) -> (r: String)
    ensures
        r@ == best_line(m@),
{
    let mut v: Vec<char> = Vec::new();
    push_str(&mut v, "bestmove ");
    push_str(&mut v, m);
    string_of(&v)
}

/// Whether `m` is one of `legal`.
pub fn contains_move(legal: &Vec<String>, m: &str) -> (r: bool)
    ensures
        r == string_views(legal@).contains(m@),
{
    let mut i: usize = 0;
    while i < legal.len()
        invariant
            i <= legal@.len(),
            forall|j: int| 0 <= j < i ==> legal@[j]@ != m@,
        decreases legal@.len() - i,
    {
        if str_eq(legal[i].as_str(), m) {
            assert(string_views(legal@)[i as int] == m@);
            return true;
        }
        i = i + 1;
    }
    assert(!string_views(legal@).contains(m@)) by {
        if string_views(legal@).contains(m@) {
            let j = choose|j: int| 0 <= j < legal@.len() && string_views(legal@)[j] == m@;
            assert(legal@[j]@ == m@);
        }
    }
    false
}

fn analysis_text(r: &OracleReply) -> (t: String)
    ensures
        t@ == analysis_line(r@),
{
    let mut v: Vec<char> = Vec::new();
    push_str(&mut v, "info depth ");
    push_decimal(&mut v, r.depth as u64);
    push_str(&mut v, " score ");
    push_str(&mut v, r.score.as_str());
    push_str(&mut v, " pv ");
    push_joined_strings(&mut v, &r.ponder, " ");
    assert(v@ =~= analysis_line(r@));
    string_of(&v)
}

fn retry_text(attempt: u16, max_tries: u8) -> (t: String)
    ensures
        t@ == retry_line(attempt as nat, max_tries as nat),
{
    let mut v: Vec<char> = Vec::new();
    push_str(&mut v, "info error: no move found, going to try again (");
    push_decimal(&mut v, attempt as u64);
    push_str(&mut v, "/");
    push_decimal(&mut v, max_tries as u64);
    push_str(&mut v, ")");
    assert(v@ =~= retry_line(attempt as nat, max_tries as nat));
    string_of(&v)
}

fn exhausted_text(tries: u16) -> (t: String)
    ensures
        t@ == exhausted_line(tries as nat),
{
    let mut v: Vec<char> = Vec::new();
    push_str(&mut v, "info error: no bestmove was found in ");
    push_decimal(&mut v, tries as u64);
    push_str(&mut v, " tries, going to pick a random move");
    assert(v@ =~= exhausted_line(tries as nat));
    string_of(&v)
}

/// The diagnostics about a reply; also whether it is accepted.
fn notes_for(legal: &Vec<String>, reply: &Option<OracleReply>) -> (r: (Vec<String>, bool))
    ensures
        string_views(r.0@) == reply_notes(string_views(legal@), reply_view(*reply)),
        r.1 == (reply_view(*reply) is Some && accepted(
            string_views(legal@),
            reply_view(*reply)->Some_0,
        )),
{
    let mut lines: Vec<String> = Vec::new();
    match reply {
        None => {
            assert(string_views(lines@) =~= Seq::<Seq<char>>::empty());
            (lines, false)
        },
        Some(rep) => {
            let ghost rv = rep@;
            match &rep.reasoning {
                Some(t) => {
                    if t.as_str().unicode_len() > 0 {
                        let mut v: Vec<char> = Vec::new();
                        push_str(&mut v, "info string reasoning: ");
                        push_str(&mut v, t.as_str());
                        lines.push(line_of(&v));
                    }
                },
                None => {},
            }
            assert(string_views(lines@) =~= reasoning_lines(rv));
            let ok = if rep.ponder.len() == 0 {
                lines.push(text_line("info string error: ai returned no ponder"));
                false
            } else if !contains_move(legal, rep.ponder[0].as_str()) {
                lines.push(text_line("info string error: ai returned an illegal move"));
                false
            } else {
                true
            };
            assert(string_views(lines@) =~= reply_notes(string_views(legal@), Some(rv)));
            (lines, ok)
        },
    }
}

impl SearchTask {
    /// Begins a search over `legal`. With no legal move it reports a stalemate, with
    /// one it plays that move; with more it asks for the first oracle query.
    pub fn start(legal: Vec<String>, max_tries: u8) -> (r: (SearchTask, SearchStep))
        ensures
            r.0@ == start_model(string_views(legal@), max_tries as nat),
            model_wf(r.0@),
            step_lines(&r.1) == start_lines(string_views(legal@)),
            (r.1 is Query) == (legal@.len() >= 2),
    {
        let mut lines: Vec<String> = Vec::new();
        if legal.len() == 0 {
            lines.push(
                text_line(
                    "info string error: refusing to evaluate on a board with no legal moves, considering the position draw by stalemate",
                ),
            );
            lines.push(text_line("info depth 1 score cp 0"));
            assert(string_views(lines@) =~= start_lines(string_views(legal@)));
            let t = SearchTask { legal, max_tries, queries: 0, phase: SearchPhase::Succeeded };
            (t, SearchStep::Finish(lines))
        } else if legal.len() == 1 {
            lines.push(best_text(legal[0].as_str()));
            assert(string_views(lines@) =~= start_lines(string_views(legal@)));
            let t = SearchTask { legal, max_tries, queries: 0, phase: SearchPhase::Succeeded };
            (t, SearchStep::Finish(lines))
        } else {
            assert(string_views(lines@) =~= start_lines(string_views(legal@)));
            let t = SearchTask { legal, max_tries, queries: 1, phase: SearchPhase::Attempting };
            (t, SearchStep::Query(lines))
        }
    }

    pub fn phase(&self) -> (r: SearchPhase)
        ensures
            r == self@.phase,
    {
        self.phase
    }

    /// The number of oracle queries this search has asked for.
    pub fn queries(&self) -> (r: u16)
        ensures
            r as nat == self@.queries,
    {
        self.queries
    }

    /// Stops a search that is waiting for the oracle; it then prints nothing more.
    pub fn cancel(&mut self)
        ensures
            final(self)@ == cancel_model(old(self)@),
    {
        if self.phase == SearchPhase::Attempting {
            self.phase = SearchPhase::Cancelled;
        }
    }

    /// Takes the oracle's answer to the latest query (`None` where the query failed
    /// or the answer did not parse). `pick` is the index of the fallback move.
    pub fn on_reply_with_pick(&mut self, reply: Option<OracleReply>, pick: usize) -> (r:
        SearchStep)
        requires
            model_wf(old(self)@),
            old(self)@.phase == SearchPhase::Attempting,
            pick < old(self)@.legal.len(),
        ensures
            model_wf(final(self)@),
            final(self)@ == next_model(old(self)@, reply_view(reply)),
            step_lines(&r) == next_lines(old(self)@, reply_view(reply), pick as int),
            (r is Query) == (final(self)@.phase == SearchPhase::Attempting),
    {
        let ghost s = self@;
        let (mut lines, ok) = notes_for(&self.legal, &reply);
        let ghost notes = string_views(lines@);
        if ok {
            let rep = match reply {
                Some(rep) => rep,
                None => {
                    return SearchStep::Finish(lines);
                },
            };
            lines.push(analysis_text(&rep));
            lines.push(best_text(rep.ponder[0].as_str()));
            assert(string_views(lines@) =~= next_lines(s, reply_view(Some(rep)), pick as int));
            self.phase = SearchPhase::Succeeded;
            return SearchStep::Finish(lines);
        }
        lines.push(retry_text(self.queries, self.max_tries));
        if (self.queries as u64) <= (self.max_tries as u64) {
            assert(string_views(lines@) =~= next_lines(s, reply_view(reply), pick as int));
            self.queries = self.queries + 1;
            SearchStep::Query(lines)
        } else {
            lines.push(exhausted_text(self.max_tries as u16 + 1));
            lines.push(best_text(self.legal[pick].as_str()));
            assert(string_views(lines@) =~= next_lines(s, reply_view(reply), pick as int));
            self.phase = SearchPhase::FallbackChosen;
            SearchStep::Finish(lines)
        }
    }

    /// Takes the oracle's answer to the latest query; once every attempt has
    /// failed, a legal move drawn at random is played.
    pub fn on_reply(&mut self, reply: Option<OracleReply>) -> (r: SearchStep)
        requires
            model_wf(old(self)@),
            old(self)@.phase == SearchPhase::Attempting,
        ensures
            model_wf(final(self)@),
            final(self)@ == next_model(old(self)@, reply_view(reply)),
            exists|pick: int|
                0 <= pick < old(self)@.legal.len() && step_lines(&r) == next_lines(
                    old(self)@,
                    reply_view(reply),
                    pick,
                ),
            (r is Query) == (final(self)@.phase == SearchPhase::Attempting),
    {
        let pick = random_below(self.legal.len());
        self.on_reply_with_pick(reply, pick)
    }
}

/// The search after `k` failed queries in a row.
pub open spec fn after_failures(s: SearchModel, k: nat) -> SearchModel
    decreases k,
{
    if k == 0 {
        s
    } else {
        next_model(after_failures(s, (k - 1) as nat), None)
    }
}

proof fn lemma_after_failures(legal: Seq<Seq<char>>, max_tries: nat, k: nat)
    requires
        legal.len() >= 2,
        k <= max_tries,
    ensures
        after_failures(start_model(legal, max_tries), k) == (SearchModel {
            legal,
            max_tries,
            queries: k + 1,
            phase: SearchPhase::Attempting,
        }),
    decreases k,
{
    if k > 0 {
        lemma_after_failures(legal, max_tries, (k - 1) as nat);
    }
}

/// With an oracle whose every query fails, a search over two or more legal moves
/// asks exactly `max_tries + 1` queries: it asks again after each of the first
/// `max_tries` failures, and the failure of the last query ends the search with a
/// best move that is one of the legal moves, whichever index is drawn.
pub proof fn lemma_failing_oracle(legal: Seq<Seq<char>>, max_tries: nat, pick: int)
    requires
        legal.len() >= 2,
        0 <= pick < legal.len(),
    ensures
        forall|k: nat|
            k <= max_tries ==> (#[trigger] after_failures(start_model(legal, max_tries), k)).phase
                == SearchPhase::Attempting && after_failures(start_model(legal, max_tries), k).queries
                == k + 1,
        after_failures(start_model(legal, max_tries), max_tries + 1).phase
            == SearchPhase::FallbackChosen,
        after_failures(start_model(legal, max_tries), max_tries + 1).queries == max_tries + 1,
        legal.contains(legal[pick]),
        next_lines(after_failures(start_model(legal, max_tries), max_tries), None, pick).last()
            == best_line(legal[pick]),
{
    assert forall|k: nat| k <= max_tries implies (#[trigger] after_failures(
        start_model(legal, max_tries),
        k,
    )).phase == SearchPhase::Attempting && after_failures(start_model(legal, max_tries), k).queries
        == k + 1 by {
        lemma_after_failures(legal, max_tries, k);
    }
    lemma_after_failures(legal, max_tries, max_tries);
    assert(legal[pick] == legal[pick]);
}

/// When the oracle's first answer proposes a legal move, the search asks exactly one
/// query and plays that move.
pub proof fn lemma_first_answer_played(
    legal: Seq<Seq<char>>,
    max_tries: nat,
    reply: ReplyModel,
    pick: int,
)
    requires
        legal.len() >= 2,
        accepted(legal, reply),
    ensures
        start_model(legal, max_tries).queries == 1,
        next_model(start_model(legal, max_tries), Some(reply)).phase == SearchPhase::Succeeded,
        next_model(start_model(legal, max_tries), Some(reply)).queries == 1,
        next_lines(start_model(legal, max_tries), Some(reply), pick).last() == best_line(
            reply.ponder[0],
        ),
{
}

} // verus!
