use uci_oracle::board::legal_move_texts;
use uci_oracle::command::{Command, Effect, State};
use uci_oracle::oracle::{legal_moves_text, position_text};
use uci_oracle::search::{SearchStep, SearchTask};

fn current_fen(s: &mut State) -> String {
    let out = printed(&Command::process_line("debug".to_string(), s));
    out[0].strip_prefix("Board FEN: ").unwrap().to_string()
}

fn printed(effects: &[Effect]) -> Vec<String> {
    effects
        .iter()
        .filter_map(|e| match e {
            Effect::Print(s) => Some(s.clone()),
            _ => None,
        })
        .collect()
}

#[test]
fn unknown_and_empty_lines_are_ignored() {
    let mut s = State::new();
    assert!(Command::process_line("".to_string(), &mut s).is_empty());
    assert!(Command::process_line("hello world".to_string(), &mut s).is_empty());
}

#[test]
fn uci_advertises_options() {
    let mut s = State::new();
    let out = printed(&Command::process_line("uci".to_string(), &mut s));
    assert_eq!(out[0], "id name Rust UCI Base");
    assert_eq!(out[1], "id author b1ek");
    assert_eq!(out[2], "");
    assert_eq!(out[3], "option name Threads type spin default 1 min 1 max 256");
    assert_eq!(out[out.len() - 1], "uciok");
    assert_eq!(out.len(), 15);
}

#[test]
fn second_go_is_refused_and_stop_cancels() {
    let mut s = State::new();
    assert_eq!(printed(&Command::process_line("isready".to_string(), &mut s)), vec!["readyok".to_string()]);
    assert!(Command::process_line("stop".to_string(), &mut s).is_empty());
    let first = Command::process_line("go wtime 100".to_string(), &mut s);
    assert!(matches!(&first[..], [Effect::StartSearch(_, _, a)] if a == &vec!["wtime".to_string(), "100".to_string()]));
    assert!(s.is_searching());
    let second = Command::process_line("go".to_string(), &mut s);
    assert_eq!(printed(&second), vec!["info string seems another go is running, refusing to run another one".to_string()]);
    assert!(s.is_searching());
    assert!(Command::process_line("isready".to_string(), &mut s).is_empty());
    assert!(matches!(&Command::process_line("stop".to_string(), &mut s)[..], [Effect::CancelSearch]));
    s.search_finished();
    assert!(!s.is_searching());
    assert!(matches!(&Command::process_line("go".to_string(), &mut s)[..], [Effect::StartSearch(..)]));
}

#[test]
fn setoption_changes_search_bound() {
    let mut s = State::new();
    assert!(Command::process_line("setoption name APIMaxTries value 5".to_string(), &mut s).is_empty());
    assert_eq!(s.options().apimaxtries, 5);
    let out = Command::process_line("go".to_string(), &mut s);
    let (options, board) = match &out[..] {
        [Effect::StartSearch(b, o, _)] => (o.snapshot(), *b),
        _ => panic!("no search started"),
    };
    let legal = legal_move_texts(&board);
    assert_eq!(legal.len(), 20);
    let (mut t, mut step) = SearchTask::start(legal, options.apimaxtries);
    let mut asked = 0;
    while matches!(step, SearchStep::Query(_)) {
        asked += 1;
        step = t.on_reply(None);
    }
    assert_eq!(asked, 6);
}

#[test]
fn setoption_errors() {
    let mut s = State::new();
    assert_eq!(printed(&Command::process_line("setoption value 3".to_string(), &mut s)), vec!["info string error: setoption name is required".to_string(), "info string error: invalid setoption syntax".to_string()]);
    assert_eq!(printed(&Command::process_line("setoption name Threads".to_string(), &mut s)), vec!["info string error: setoption value is required".to_string(), "info string error: invalid setoption syntax".to_string()]);
    assert_eq!(printed(&Command::process_line("setoption name Nope value 3".to_string(), &mut s)), vec!["info string error: when setting option Nope: Unknown option: Nope".to_string()]);
    assert_eq!(printed(&Command::process_line("setoption name Threads value 0".to_string(), &mut s)), vec!["info string error: when setting option Threads: number out of range 1..=256".to_string()]);
    assert_eq!(s.options().threads, 1);
}

#[test]
fn setoption_value_keeps_inner_spaces() {
    let mut s = State::new();
    Command::process_line("setoption name AdditionalInstructions value play  fast please".to_string(), &mut s);
    assert_eq!(s.options().additional_instructions, "play  fast please");
    let out = Command::process_line("setoption name AdditionalInstructionsFile value /tmp/notes.txt".to_string(), &mut s);
    assert!(matches!(&out[..], [Effect::LoadInstructions(p)] if p == "/tmp/notes.txt"));
    s.set_additional_instructions("from file".to_string());
    assert_eq!(s.options().additional_instructions, "from file");
}

#[test]
fn position_startpos_with_moves() {
    let mut s = State::new();
    assert!(Command::process_line("position startpos moves e2e4 e7e5".to_string(), &mut s).is_empty());
    let fen = current_fen(&mut s);
    assert!(fen.starts_with("rnbqkbnr/pppp1ppp/8/4p3/4P3/8/PPPP1PPP/RNBQKBNR w KQkq"));
}

#[test]
fn single_reply_is_played_without_query() {
    let mut s = State::new();
    assert!(Command::process_line("position fen k7/8/2K5/8/8/8/8/8 w - - 0 1 moves c6c7".to_string(), &mut s).is_empty());
    let out = Command::process_line("go".to_string(), &mut s);
    let board = match &out[..] {
        [Effect::StartSearch(b, _, _)] => *b,
        _ => panic!("no search started"),
    };
    let legal = legal_move_texts(&board);
    assert_eq!(legal, vec!["a8a7".to_string()]);
    let (t, step) = SearchTask::start(legal, 3);
    assert_eq!(t.queries(), 0);
    assert!(matches!(step, SearchStep::Finish(ref l) if l == &vec!["bestmove a8a7".to_string()]));
}

#[test]
fn illegal_move_stops_replay_after_earlier_moves() {
    let mut s = State::new();
    let out = printed(&Command::process_line("position startpos moves e2e4 e2e4 d2d4".to_string(), &mut s));
    assert_eq!(out, vec!["info string error: Invalid move e2e4: the move is not legal in this position".to_string()]);
    let fen = current_fen(&mut s);
    assert!(fen.starts_with("rnbqkbnr/pppppppp/8/8/4P3/8/PPPP1PPP/RNBQKBNR b"));
    let out = printed(&Command::process_line("position startpos moves zz".to_string(), &mut s));
    assert_eq!(out.len(), 1);
    assert!(out[0].starts_with("info string error: Invalid move zz: "));
}

#[test]
fn refused_fen_keeps_position() {
    let mut s = State::new();
    Command::process_line("position startpos moves e2e4".to_string(), &mut s);
    let before = current_fen(&mut s);
    let out = printed(&Command::process_line("position fen not a fen".to_string(), &mut s));
    assert_eq!(out.len(), 1);
    assert!(out[0].starts_with("info string error: "));
    assert_eq!(current_fen(&mut s), before);
}

#[test]
fn debug_and_quit_and_license() {
    let mut s = State::new();
    let out = printed(&Command::process_line("debug".to_string(), &mut s));
    assert_eq!(out[0], "Board FEN: rnbqkbnr/pppppppp/8/8/8/8/PPPPPPPP/RNBQKBNR w KQkq - 0 1");
    assert_eq!(out[1], "The go command is not running");
    assert!(matches!(&Command::process_line("quit".to_string(), &mut s)[..], [Effect::Quit]));
    assert!(matches!(&Command::process_line("license".to_string(), &mut s)[..], [Effect::ShowLicense]));
}

#[test]
fn oracle_query_texts() {
    let legal = vec!["e2e4".to_string(), "d2d4".to_string()];
    assert_eq!(legal_moves_text(&legal), "Legal moves: e2e4, d2d4");
    let fen = "8/8/8/8/8/8/8/K6k w - - 0 1".to_string();
    assert_eq!(position_text(fen.clone(), false), Ok("FEN: 8/8/8/8/8/8/8/K6k w - - 0 1".to_string()));
    assert!(position_text(fen, true).unwrap().starts_with("# Board\n"));
}

#[test]
fn setoption_without_name_or_value() {
    let mut s = State::new();
    assert_eq!(
        printed(&Command::process_line("setoption".to_string(), &mut s)),
        vec![
            "info string error: setoption name is required".to_string(),
            "info string error: setoption value is required".to_string(),
            "info string error: invalid setoption syntax".to_string(),
        ]
    );
}

#[test]
fn fen_without_kings_is_refused() {
    let mut s = State::new();
    let before = current_fen(&mut s);
    let out = printed(&Command::process_line("position fen 8/8/8/8/8/8/8/8 w - - 0 1".to_string(), &mut s));
    assert_eq!(out, vec!["info string error: Invalid FEN string: 8/8/8/8/8/8/8/8 w - - 0 1".to_string()]);
    assert_eq!(current_fen(&mut s), before);
    let out = printed(&Command::process_line("position fen K7R/8/8/8/8/8/8/7k w - - 0 1".to_string(), &mut s));
    assert_eq!(out.len(), 1);
    assert_eq!(current_fen(&mut s), before);
}

#[test]
fn fen_with_moves_is_replayed() {
    let mut s = State::new();
    let out = Command::process_line("position fen 4k3/8/8/8/8/8/4P3/4K3 w - - 0 1 moves e2e4 e8d7".to_string(), &mut s);
    assert!(out.is_empty());
    assert!(current_fen(&mut s).starts_with("8/3k4/8/8/4P3/8/8/4K3 w"));
}

#[test]
fn process_args_trims_tokens() {
    let mut s = State::new();
    let out = printed(&Command::process_args(vec![" isready\r".to_string()], &mut s));
    assert_eq!(out, vec!["readyok".to_string()]);
}

#[test]
fn fen_with_short_last_rank_is_read() {
    let mut s = State::new();
    let out = Command::process_line("position fen k7/8/8/8/8/8/8/K w - - 0 1".to_string(), &mut s);
    assert!(out.is_empty());
    assert!(current_fen(&mut s).starts_with("k7/8/8/8/8/8/8/K7 w"));
}
