use uci_oracle::fen::{fen2md, ChessPieces};

#[test]
fn two_kings_digest_is_exact() {
    let r = fen2md("8/8/8/8/8/8/8/K6k w - - 0 1".to_string()).unwrap();
    let expected = "# Board\nFEN Notation is: 8/8/8/8/8/8/8/K6k w - - 0 1\n## Readable digest of this FEN\n### Position\nWhite king on a1\nBlack king on h1\n\n### Other\nIts white's turn\n\nNo castling available\n\nNo en passant available\n\nMove clocks:\n- Halfmove clock (for 50-move rule): 0\n- Fullmove clock: 1\n";
    assert_eq!(r, expected);
}

#[test]
fn start_position_digest_lists_pieces_and_metadata() {
    let r = fen2md("rnbqkbnr/pppppppp/8/8/8/8/PPPPPPPP/RNBQKBNR w KQkq - 0 1".to_string()).unwrap();
    assert!(r.contains("Black rook on a8\nBlack knight on b8\n"));
    assert!(r.contains("White pawn on h2\nWhite rook on a1\n"));
    assert!(r.contains("Castling options are:\n- White can castle short\n- White can castle long\n- Black can castle short\n- Black can castle long\n"));
    assert!(r.ends_with("- Fullmove clock: 1\n"));
}

#[test]
fn en_passant_and_black_to_move() {
    let r = fen2md("8/8/8/8/4P3/8/8/K6k b - e3 0 1".to_string()).unwrap();
    assert!(r.contains("White pawn on e4\n"));
    assert!(r.contains("Its black's turn\n\n"));
    assert!(r.contains("En passant available on e3\n"));
}

#[test]
fn invalid_pieces_are_all_reported() {
    let r = fen2md("rnbqkbnr/ppZQp1pp/8/8/8/8/PPPPPPPP/RNBXKBNR w KQkq - 0 1".to_string());
    assert_eq!(r, Err("Invalid pieces: Zc7, Xd1".to_string()));
}

#[test]
fn wrong_component_count() {
    assert_eq!(fen2md("8/8 w - - 0 1".to_string()), Err("Invalid amount of components".to_string()));
}

#[test]
fn wrong_metadata_count() {
    assert_eq!(fen2md("8/8/8/8/8/8/8/K6k w - -".to_string()), Err("Invalid signature".to_string()));
    assert_eq!(fen2md("8/8/8/8/8/8/8/K6k".to_string()), Err("Invalid signature".to_string()));
}

#[test]
fn wrong_turn() {
    assert_eq!(fen2md("8/8/8/8/8/8/8/K6k ww - - 0 1".to_string()), Err("Invalid turn indicator".to_string()));
    assert_eq!(fen2md("8/8/8/8/8/8/8/K6k x - - 0 1".to_string()), Err("Invalid turn, must be either w or b".to_string()));
    assert_eq!(fen2md("8/8/8/8/8/8/8/K6k é - - 0 1".to_string()), Err("Invalid turn indicator".to_string()));
}

#[test]
fn wrong_castling_and_en_passant() {
    assert_eq!(fen2md("8/8/8/8/8/8/8/K6k w KQkqK - 0 1".to_string()), Err("Invalid castles notation".to_string()));
    assert_eq!(fen2md("8/8/8/8/8/8/8/K6k w - e3x 0 1".to_string()), Err("Invalid en passant notation".to_string()));
    assert_eq!(fen2md("8/8/8/8/8/8/8/K6k w KX - 0 1".to_string()), Err("Invalid castling option: X".to_string()));
}

#[test]
fn castling_errors_come_before_piece_errors() {
    let r = fen2md("8/8/8/8/8/8/8/K6z w KX - 0 1".to_string());
    assert_eq!(r, Err("Invalid castling option: X".to_string()));
    let r = fen2md("8/8/8/8/8/8/8/K6z w KQ e3x 0 1".to_string());
    assert_eq!(r, Err("Invalid en passant notation".to_string()));
}

#[test]
fn same_input_same_digest() {
    let f = "r3k2r/8/8/8/8/8/8/R3K2R w Kq - 12 40".to_string();
    assert_eq!(fen2md(f.clone()), fen2md(f));
}

#[test]
fn piece_symbols_and_names() {
    assert_eq!(ChessPieces::from_symbol('Q'), Some(ChessPieces::WhiteQueen));
    assert_eq!(ChessPieces::from_symbol('n'), Some(ChessPieces::BlackKnight));
    assert_eq!(ChessPieces::from_symbol('Z'), None);
    assert_eq!(ChessPieces::WhiteQueen.as_human(), "White queen");
    assert_eq!(ChessPieces::BlackPawn.as_human(), "Black pawn");
}

fn read_back(desc: &str) -> Vec<String> {
    let l: Vec<&str> = desc.split('\n').collect();
    let n = l.len();
    let f = l[n - 2][18..].to_string();
    let h = l[n - 3][37..].to_string();
    let ep = if l[n - 6] == "No en passant available" { "-".to_string() } else { l[n - 6][24..].to_string() };
    let mut i = n - 8;
    let mut castles = String::new();
    loop {
        match l[i] {
            "No castling available" => {
                castles = "-".to_string();
                break;
            }
            "Castling options are:" => break,
            "- White can castle short" => castles.insert(0, 'K'),
            "- White can castle long" => castles.insert(0, 'Q'),
            "- Black can castle short" => castles.insert(0, 'k'),
            "- Black can castle long" => castles.insert(0, 'q'),
            other => panic!("unexpected line {other}"),
        }
        i -= 1;
    }
    let side = if l[i - 2] == "Its white's turn" { "w" } else { "b" };
    vec![side.to_string(), castles, ep, h, f]
}

#[test]
fn metadata_reads_back_from_digest() {
    for (fen, meta) in [
        ("r3k2r/8/8/8/8/8/8/R3K2R b Kq e3 12 40", ["b", "Kq", "e3", "12", "40"]),
        ("8/8/8/8/8/8/8/K6k w - - 0 1", ["w", "-", "-", "0", "1"]),
        ("rnbqkbnr/pppppppp/8/8/8/8/PPPPPPPP/RNBQKBNR w KQkq - 0 1", ["w", "KQkq", "-", "0", "1"]),
    ] {
        let desc = fen2md(fen.to_string()).unwrap();
        let expected: Vec<String> = meta.iter().map(|s| s.to_string()).collect();
        assert_eq!(read_back(&desc), expected);
    }
}
