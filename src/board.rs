use vstd::prelude::*;
use chess::{Board, ChessMove, MoveGen};
use crate::fen::piece_of;
use crate::text::{chars_of, split_chars, split_on, str_eq, string_of, views};

verus! {

#[verifier::external_type_specification]
#[verifier::external_body]
pub struct ExBoard(chess::Board);

#[verifier::external_type_specification]
#[verifier::external_body]
pub struct ExChessMove(chess::ChessMove);

/// What `Board::from_str` gives for a FEN text: the board, or `None` where it
/// refuses the text. It depends on the text alone.
pub uninterp spec fn fen_parse(fen: Seq<char>) -> Option<Board>;

/// What `ChessMove::from_str` gives for a move text, or `None` where it refuses it.
pub uninterp spec fn move_parse(text: Seq<char>) -> Option<ChessMove>;

/// The legal moves that `MoveGen::new_legal` lists for a board, in its order.
pub uninterp spec fn legal_of(b: Board) -> Seq<ChessMove>;

/// The board that `Board::make_move_new` gives after a move.
pub uninterp spec fn board_after(b: Board, m: ChessMove) -> Board;

/// The text that `ChessMove`'s `Display` writes.
pub uninterp spec fn uci_text(m: ChessMove) -> Seq<char>;

/// The FEN text that `Board`'s `Display` writes.
pub uninterp spec fn fen_text(b: Board) -> Seq<char>;

/// The standard starting position.
pub open spec fn start_fen() -> Seq<char> {
    "rnbqkbnr/pppppppp/8/8/8/8/PPPPPPPP/RNBQKBNR w KQkq - 0 1"@
}

/// Where `BoardBuilder::from_str` puts the pieces of a placement field: the rank,
/// the file and the 64 squares (a blank for an empty one) after reading it. Ranks
/// and files count modulo 8, as `Rank::down` and `File::right` wrap around, and a
/// later piece on a square replaces an earlier one. `None` where a character is
/// neither `/`, a digit from 1 to 8 nor a piece letter: the builder refuses the
/// text there, before any board is made.
pub open spec fn placement_state(p: Seq<char>) -> Option<(int, int, Seq<char>)>
    decreases p.len(),
{
    if p.len() == 0 {
        Some((7, 0, Seq::new(64, |i: int| ' ')))
    } else {
        match placement_state(p.drop_last()) {
            None => None,
            Some((r, f, sq)) => {
                let c = p.last();
                if c == '/' {
                    Some(((r + 7) % 8, 0, sq))
                } else if '1' <= c && c <= '8' {
                    Some((r, (f + (c as int - 48)) % 8, sq))
                } else if piece_of(c) is Some {
                    Some((r, (f + 1) % 8, sq.update(r * 8 + f, c)))
                } else {
                    None
                }
            },
        }
    }
}

/// A FEN text that `Board::from_str` reads without fault. It splits the text at
/// single spaces; with fewer than four fields, a character the placement reader
/// refuses, or a side token other than `w`, `W`, `b`, `B`, it returns an error
/// before making a board. Otherwise the side to move must keep its king on the
/// placed squares: without it, `update_pin_info` looks up square 64 in its tables.
pub open spec fn fen_safe(fen: Seq<char>) -> bool {
    let t = split_on(fen, ' ');
    t.len() < 4 || match placement_state(t[0]) {
        None => true,
        Some((_, _, sq)) => {
            &&& (t[1] == "w"@ || t[1] == "W"@) ==> sq.contains('K')
            &&& (t[1] == "b"@ || t[1] == "B"@) ==> sq.contains('k')
        },
    }
}

/// Whether the move written `text` parses and is legal in `b`.
pub open spec fn move_ok(b: Board, text: Seq<char>) -> bool {
    move_parse(text) is Some && legal_of(b).contains(move_parse(text)->Some_0)
}

/// Relies on `Board::default`, which is `Board::from_str` of the starting position.
#[verifier::external_body]
pub(crate) fn start_board() -> (r: Board)
    ensures
        fen_parse(start_fen()) == Some(r),
{
    Board::default()
}

/// Relies on `Board::from_str`: parses a FEN text; the error is shown as text.
#[verifier::external_body]
pub(crate) fn board_from_fen(fen: &str) -> (r: Result<Board, String>)
    requires
        fen_safe(fen@),
    ensures
        r is Ok <==> fen_parse(fen@) is Some,
        r is Ok ==> fen_parse(fen@) == Some(r->Ok_0),
{
    <Board as std::str::FromStr>::from_str(fen).map_err(|e| e.to_string())
}

/// Relies on `Board`'s `Display`: the position as a FEN text.
#[verifier::external_body]
pub(crate) fn board_fen(b: &Board) -> (r: String)
    ensures
        r@ == fen_text(*b),
{
    b.to_string()
}

/// Relies on `MoveGen::new_legal`: the legal moves of the position.
#[verifier::external_body]
pub(crate) fn legal_moves(b: &Board) -> (r: Vec<ChessMove>)
    ensures
        r@ == legal_of(*b),
{
    MoveGen::new_legal(b).collect()
}

/// Relies on `ChessMove`'s `Display`: source and destination squares, then the
/// promotion piece if any, so four or five characters.
#[verifier::external_body]
pub(crate) fn move_text(m: &ChessMove) -> (r: String)
    ensures
        r@ == uci_text(*m),
        r@.len() == 4 || r@.len() == 5,
{
    m.to_string()
}

/// Relies on `ChessMove::from_str`: parses a move in UCI notation; the error is
/// shown as text.
#[verifier::external_body]
pub(crate) fn parse_move(text: &str) -> (r: Result<ChessMove, String>)
    ensures
        r is Ok <==> move_parse(text@) is Some,
        r is Ok ==> move_parse(text@) == Some(r->Ok_0),
{
    <ChessMove as std::str::FromStr>::from_str(text).map_err(|e| e.to_string())
}

/// Relies on `ChessMove`'s derived `PartialEq`, which compares every field.
#[verifier::external_body]
fn same_move(a: &ChessMove, b: &ChessMove) -> (r: bool)
    ensures
        r == (*a == *b),
{
    a == b
}

/// Relies on `Board::make_move_new`: the position after the move. It unwraps the
/// piece on the move's source square, which a legal move always has.
#[verifier::external_body]
fn make_move(b: &Board, m: ChessMove) -> (r: Board)
    requires
        legal_of(*b).contains(m),
    ensures
        r == board_after(*b, m),
{
    b.make_move_new(m)
}

proof fn lemma_placement_none_sticks(p: Seq<char>, i: int)
    requires
        0 <= i <= p.len(),
        placement_state(p.take(i)) is None,
    ensures
        placement_state(p) is None,
    decreases p.len() - i,
{
    if i < p.len() {
        assert(p.take(i + 1).drop_last() =~= p.take(i));
        lemma_placement_none_sticks(p, i + 1);
    } else {
        assert(p.take(i) =~= p);
    }
}

/// The squares as the builder fills them from a placement field, if it reads it.
fn place_pieces(p: &Vec<char>) -> (r: Option<Vec<char>>)
    ensures
        match placement_state(p@) {
            None => r is None,
            Some((_, _, sq)) => r is Some && r->Some_0@ == sq,
        },
{
    let mut sq: Vec<char> = Vec::new();
    let mut k: usize = 0;
    while k < 64
        invariant
            k <= 64,
            sq@ =~= Seq::new(k as nat, |i: int| ' '),
        decreases 64 - k,
    {
        sq.push(' ');
        k = k + 1;
    }
    let mut r: usize = 7;
    let mut f: usize = 0;
    let mut i: usize = 0;
    assert(p@.take(0) =~= Seq::<char>::empty());
    while i < p.len()
        invariant
            i <= p@.len(),
            r < 8,
            f < 8,
            sq@.len() == 64,
            placement_state(p@.take(i as int)) == Some((r as int, f as int, sq@)),
        decreases p@.len() - i,
    {
        let c = p[i];
        assert(p@.take(i as int + 1).drop_last() =~= p@.take(i as int));
        assert(p@.take(i as int + 1).last() == c);
        if c == '/' {
            r = (r + 7) % 8;
            f = 0;
        } else if '1' <= c && c <= '8' {
            f = (f + (c as u32 - 48) as usize) % 8;
        } else if crate::fen::ChessPieces::from_symbol(c).is_some() {
            sq.set(r * 8 + f, c);
            f = (f + 1) % 8;
        } else {
            proof {
                lemma_placement_none_sticks(p@, i as int + 1);
            }
            return None;
        }
        i = i + 1;
    }
    assert(p@.take(p@.len() as int) =~= p@);
    Some(sq)
}

fn contains_char(s: &Vec<char>, c: char) -> (r: bool)
    ensures
        r == s@.contains(c),
{
    let mut i: usize = 0;
    while i < s.len()
        invariant
            i <= s@.len(),
            forall|j: int| 0 <= j < i ==> s@[j] != c,
        decreases s@.len() - i,
    {
        if s[i] == c {
            return true;
        }
        i = i + 1;
    }
    false
}

/// Whether `Board::from_str` may be asked to read `fen`.
pub fn fen_is_safe(fen: &str) -> (r: bool)
    ensures
        r == fen_safe(fen@),
{
    let chars = chars_of(fen);
    let fields = split_chars(&chars, ' ');
    if fields.len() < 4 {
        return true;
    }
    assert(views(fields@)[0] == fields@[0]@);
    assert(views(fields@)[1] == fields@[1]@);
    let sq = match place_pieces(&fields[0]) {
        None => {
            return true;
        },
        Some(sq) => sq,
    };
    let side = string_of(&fields[1]);
    let white = str_eq(side.as_str(), "w") || str_eq(side.as_str(), "W");
    let black = str_eq(side.as_str(), "b") || str_eq(side.as_str(), "B");
    (!white || contains_char(&sq, 'K')) && (!black || contains_char(&sq, 'k'))
}

/// The legal moves of the position in move notation.
pub fn legal_move_texts(b: &Board) -> (r: Vec<String>)
    ensures
        r@.len() == legal_of(*b).len(),
        forall|i: int| 0 <= i < r@.len() ==> (#[trigger] r@[i])@ == uci_text(legal_of(*b)[i]),
        forall|i: int| 0 <= i < r@.len() ==> (#[trigger] r@[i])@.len() == 4 || r@[i]@.len() == 5,
{
    let moves = legal_moves(b);
    let mut r: Vec<String> = Vec::new();
    let mut i: usize = 0;
    while i < moves.len()
        invariant
            i <= moves@.len(),
            moves@ == legal_of(*b),
            r@.len() == i,
            forall|j: int| 0 <= j < r@.len() ==> (#[trigger] r@[j])@ == uci_text(moves@[j]),
            forall|j: int| 0 <= j < r@.len() ==> (#[trigger] r@[j])@.len() == 4 || r@[j]@.len() == 5,
        decreases moves@.len() - i,
    {
        r.push(move_text(&moves[i]));
        i = i + 1;
    }
    r
}

/// Plays the move written `text` if it parses and is legal in `b`. The error says
/// why not: the text is no move, or the move is not legal here.
pub fn play_move(b: &Board, text: &str) -> (r: Result<Board, String>)
    ensures
        r is Ok <==> move_ok(*b, text@),
        r is Ok ==> r->Ok_0 == board_after(*b, move_parse(text@)->Some_0),
{
    let m = match parse_move(text) {
        Ok(m) => m,
        Err(e) => {
            return Err(e);
        },
    };
    let moves = legal_moves(b);
    let mut i: usize = 0;
    while i < moves.len()
        invariant
            i <= moves@.len(),
            moves@ == legal_of(*b),
            move_parse(text@) == Some(m),
            forall|j: int| 0 <= j < i ==> moves@[j] != m,
        decreases moves@.len() - i,
    {
        if same_move(&moves[i], &m) {
            return Ok(make_move(b, moves[i]));
        }
        i = i + 1;
    }
    Err(String::from_str("the move is not legal in this position"))
}

} // verus!
