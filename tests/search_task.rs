use uci_oracle::search::{OracleReply, SearchPhase, SearchStep, SearchTask};

fn v(s: &[&str]) -> Vec<String> {
    s.iter().map(|x| x.to_string()).collect()
}

fn lines(step: &SearchStep) -> Vec<String> {
    match step {
        SearchStep::Query(l) => l.clone(),
        SearchStep::Finish(l) => l.clone(),
    }
}

fn is_query(step: &SearchStep) -> bool {
    matches!(step, SearchStep::Query(_))
}

fn reply(ponder: &[&str]) -> OracleReply {
    OracleReply { ponder: v(ponder), depth: 12, score: "cp 35".to_string(), reasoning: None }
}

#[test]
fn no_legal_move_is_a_stalemate_without_best_move() {
    let (t, step) = SearchTask::start(vec![], 3);
    assert!(!is_query(&step));
    assert_eq!(t.queries(), 0);
    assert_eq!(
        lines(&step),
        v(&[
            "info string error: refusing to evaluate on a board with no legal moves, considering the position draw by stalemate",
            "info depth 1 score cp 0",
        ])
    );
    assert!(lines(&step).iter().all(|l| !l.starts_with("bestmove")));
}

#[test]
fn one_legal_move_is_played_without_query() {
    let (t, step) = SearchTask::start(v(&["e2e4"]), 3);
    assert!(!is_query(&step));
    assert_eq!(t.queries(), 0);
    assert_eq!(lines(&step), v(&["bestmove e2e4"]));
}

#[test]
fn first_legal_answer_is_played_after_one_query() {
    let (mut t, step) = SearchTask::start(v(&["e2e4", "d2d4", "g1f3"]), 3);
    assert!(is_query(&step));
    assert_eq!(t.queries(), 1);
    let step = t.on_reply(Some(reply(&["d2d4", "d7d5"])));
    assert!(!is_query(&step));
    assert_eq!(t.queries(), 1);
    assert_eq!(t.phase(), SearchPhase::Succeeded);
    assert_eq!(lines(&step), v(&["info depth 12 score cp 35 pv d2d4 d7d5", "bestmove d2d4"]));
}

#[test]
fn failing_oracle_is_asked_max_tries_plus_one_times() {
    let legal = v(&["e2e4", "d2d4"]);
    let (mut t, mut step) = SearchTask::start(legal.clone(), 3);
    let mut asked = 0;
    while is_query(&step) {
        asked += 1;
        step = t.on_reply(None);
    }
    assert_eq!(asked, 4);
    assert_eq!(t.queries(), 4);
    assert_eq!(t.phase(), SearchPhase::FallbackChosen);
    let l = lines(&step);
    assert_eq!(l[0], "info error: no move found, going to try again (4/3)");
    assert_eq!(l[1], "info error: no bestmove was found in 4 tries, going to pick a random move");
    let best = l[2].strip_prefix("bestmove ").unwrap().to_string();
    assert!(legal.contains(&best));
}

#[test]
fn fallback_pick_is_exact() {
    let (mut t, _) = SearchTask::start(v(&["e2e4", "d2d4", "c2c4"]), 0);
    let step = t.on_reply_with_pick(None, 2);
    assert_eq!(
        lines(&step),
        v(&[
            "info error: no move found, going to try again (1/0)",
            "info error: no bestmove was found in 1 tries, going to pick a random move",
            "bestmove c2c4",
        ])
    );
}

#[test]
fn bad_answers_are_retried() {
    let (mut t, _) = SearchTask::start(v(&["e2e4", "d2d4"]), 2);
    let step = t.on_reply(Some(reply(&[])));
    assert!(is_query(&step));
    assert_eq!(lines(&step), v(&["info string error: ai returned no ponder", "info error: no move found, going to try again (1/2)"]));
    let step = t.on_reply(Some(reply(&["a7a5"])));
    assert!(is_query(&step));
    assert_eq!(lines(&step)[0], "info string error: ai returned an illegal move");
    assert_eq!(t.queries(), 3);
}

#[test]
fn reasoning_is_echoed() {
    let (mut t, _) = SearchTask::start(v(&["e2e4", "d2d4"]), 2);
    let mut r = reply(&["e2e4"]);
    r.reasoning = Some("central pawn".to_string());
    let step = t.on_reply(Some(r));
    assert_eq!(lines(&step)[0], "info string reasoning: central pawn");
    assert_eq!(lines(&step)[2], "bestmove e2e4");
}

#[test]
fn cancelled_search_stops() {
    let (mut t, _) = SearchTask::start(v(&["e2e4", "d2d4"]), 2);
    t.cancel();
    assert_eq!(t.phase(), SearchPhase::Cancelled);
    t.cancel();
    assert_eq!(t.phase(), SearchPhase::Cancelled);
}
