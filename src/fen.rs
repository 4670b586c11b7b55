use vstd::prelude::*;
use crate::text::{
    chars_of, join, push_chars, push_str, split_chars, split_on, split_words, string_of, views,
    words,
};

verus! {

/// A piece symbol of the compact position encoding.
#[derive(Debug, Clone, Copy, PartialEq, Eq, Structural)]
pub enum ChessPieces {
    BlackRook,
    BlackKnight,
    BlackBishop,
    BlackQueen,
    BlackKing,
    BlackPawn,
    WhiteRook,
    WhiteKnight,
    WhiteBishop,
    WhiteQueen,
    WhiteKing,
    WhitePawn,
}

/// The piece that a symbol stands for, if any.
pub open spec fn piece_of(c: char) -> Option<ChessPieces> {
    if c == 'r' {
        Some(ChessPieces::BlackRook)
    } else if c == 'n' {
        Some(ChessPieces::BlackKnight)
    } else if c == 'b' {
        Some(ChessPieces::BlackBishop)
    } else if c == 'q' {
        Some(ChessPieces::BlackQueen)
    } else if c == 'k' {
        Some(ChessPieces::BlackKing)
    } else if c == 'p' {
        Some(ChessPieces::BlackPawn)
    } else if c == 'R' {
        Some(ChessPieces::WhiteRook)
    } else if c == 'N' {
        Some(ChessPieces::WhiteKnight)
    } else if c == 'B' {
        Some(ChessPieces::WhiteBishop)
    } else if c == 'Q' {
        Some(ChessPieces::WhiteQueen)
    } else if c == 'K' {
        Some(ChessPieces::WhiteKing)
    } else if c == 'P' {
        Some(ChessPieces::WhitePawn)
    } else {
        None
    }
}

/// The readable name of a piece.
pub open spec fn human_name(p: ChessPieces) -> Seq<char> {
    match p {
        ChessPieces::BlackRook => "Black rook"@,
        ChessPieces::BlackKnight => "Black knight"@,
        ChessPieces::BlackBishop => "Black bishop"@,
        ChessPieces::BlackQueen => "Black queen"@,
        ChessPieces::BlackKing => "Black king"@,
        ChessPieces::BlackPawn => "Black pawn"@,
        ChessPieces::WhiteRook => "White rook"@,
        ChessPieces::WhiteKnight => "White knight"@,
        ChessPieces::WhiteBishop => "White bishop"@,
        ChessPieces::WhiteQueen => "White queen"@,
        ChessPieces::WhiteKing => "White king"@,
        ChessPieces::WhitePawn => "White pawn"@,
    }
}

impl ChessPieces {
    /// The piece for a symbol (`r n b q k p` black, upper case white).
    pub fn from_symbol(c: char) -> (r: Option<ChessPieces>)
        ensures
            r == piece_of(c),
    {
        match c {
            'r' => Some(ChessPieces::BlackRook),
            'n' => Some(ChessPieces::BlackKnight),
            'b' => Some(ChessPieces::BlackBishop),
            'q' => Some(ChessPieces::BlackQueen),
            'k' => Some(ChessPieces::BlackKing),
            'p' => Some(ChessPieces::BlackPawn),
            'R' => Some(ChessPieces::WhiteRook),
            'N' => Some(ChessPieces::WhiteKnight),
            'B' => Some(ChessPieces::WhiteBishop),
            'Q' => Some(ChessPieces::WhiteQueen),
            'K' => Some(ChessPieces::WhiteKing),
            'P' => Some(ChessPieces::WhitePawn),
            _ => None,
        }
    }

    fn human_str(&self) -> (r: &'static str)
        ensures
            r@ == human_name(*self),
    {
        match self {
            ChessPieces::BlackRook => "Black rook",
            ChessPieces::BlackKnight => "Black knight",
            ChessPieces::BlackBishop => "Black bishop",
            ChessPieces::BlackQueen => "Black queen",
            ChessPieces::BlackKing => "Black king",
            ChessPieces::BlackPawn => "Black pawn",
            ChessPieces::WhiteRook => "White rook",
            ChessPieces::WhiteKnight => "White knight",
            ChessPieces::WhiteBishop => "White bishop",
            ChessPieces::WhiteQueen => "White queen",
            ChessPieces::WhiteKing => "White king",
            ChessPieces::WhitePawn => "White pawn",
        }
    }

    /// The readable name of the piece, such as "White queen".
    pub fn as_human(&self) -> (r: String)
        ensures
            r@ == human_name(*self),
    {
        let mut v: Vec<char> = Vec::new();
        push_str(&mut v, self.human_str());
        string_of(&v)
    }
}

/// The letter of a file offset; offsets count as an 8-bit counter does, so that
/// offset 1 is `a` and offsets past `h` go on through the code points after it.
pub open spec fn file_letter(file: int) -> char {
    (((96 + file) % 256) as u8) as char
}

pub open spec fn rank_digit(rank: int) -> char {
    ((48 + rank) as u8) as char
}

pub open spec fn square_name(file: int, rank: int) -> Seq<char> {
    seq![file_letter(file), rank_digit(rank)]
}

pub open spec fn is_digit(c: char) -> bool {
    '0' <= c && c <= '9'
}

/// The scan of the first `n` characters of one rank segment: the file offset, whether
/// the scan has stopped (at the space that ends the placement on the last rank),
/// the lines emitted for recognised pieces, and the invalid symbols with their squares.
pub open spec fn rank_scan(seg: Seq<char>, n: int, rank: int) -> (
    int,
    bool,
    Seq<char>,
    Seq<Seq<char>>,
)
    decreases n,
{
    if n <= 0 {
        (0, false, Seq::empty(), Seq::empty())
    } else {
        let (file, stopped, text, bad) = rank_scan(seg, n - 1, rank);
        let c = seg[n - 1];
        if stopped {
            (file, stopped, text, bad)
        } else if is_digit(c) {
            ((file + (c as int - 48)) % 256, false, text, bad)
        } else if c == ' ' && rank == 1 {
            (file, true, text, bad)
        } else {
            let f = (file + 1) % 256;
            match piece_of(c) {
                Some(p) => (
                    f,
                    false,
                    text + human_name(p) + " on "@ + square_name(f, rank) + "\n"@,
                    bad,
                ),
                None => (f, false, text, bad.push(seq![c] + square_name(f, rank))),
            }
        }
    }
}

/// The scan of the first `k` rank segments, top rank (8) first.
pub open spec fn board_scan(segs: Seq<Seq<char>>, k: int) -> (Seq<char>, Seq<Seq<char>>)
    decreases k,
{
    if k <= 0 {
        (Seq::empty(), Seq::empty())
    } else {
        let (text, bad) = board_scan(segs, k - 1);
        let r = rank_scan(segs[k - 1], segs[k - 1].len() as int, 9 - k);
        (text + r.2, bad + r.3)
    }
}

pub open spec fn char_width(c: char) -> int {
    if (c as u32) < 0x80 {
        1
    } else if (c as u32) < 0x800 {
        2
    } else if (c as u32) < 0x10000 {
        3
    } else {
        4
    }
}

/// Length in bytes of the UTF-8 encoding.
pub open spec fn utf8_len(s: Seq<char>) -> int
    decreases s.len(),
{
    if s.len() == 0 {
        0
    } else {
        utf8_len(s.drop_last()) + char_width(s.last())
    }
}

/// The metadata tokens: the words of the last rank segment after the placement.
pub open spec fn metadata(last_seg: Seq<char>) -> Seq<Seq<char>> {
    let w = words(last_seg);
    if w.len() == 0 {
        w
    } else {
        w.drop_first()
    }
}

pub open spec fn castle_line(c: char) -> Option<Seq<char>> {
    if c == 'K' {
        Some("White can castle short"@)
    } else if c == 'Q' {
        Some("White can castle long"@)
    } else if c == 'k' {
        Some("Black can castle short"@)
    } else if c == 'q' {
        Some("Black can castle long"@)
    } else {
        None
    }
}

/// The castling list for the first `n` symbols, or the first invalid symbol.
pub open spec fn castle_list(s: Seq<char>, n: int) -> Result<Seq<char>, char>
    decreases n,
{
    if n <= 0 {
        Ok(Seq::empty())
    } else {
        match castle_list(s, n - 1) {
            Err(c) => Err(c),
            Ok(t) => match castle_line(s[n - 1]) {
                Some(l) => Ok(t + "- "@ + l + "\n"@),
                None => Err(s[n - 1]),
            },
        }
    }
}

pub open spec fn castling_text(castles: Seq<char>) -> Result<Seq<char>, Seq<char>> {
    if castles == "-"@ {
        Ok("No castling available\n"@)
    } else {
        match castle_list(castles, castles.len() as int) {
            Ok(t) => Ok("Castling options are:\n"@ + t),
            Err(c) => Err("Invalid castling option: "@ + seq![c]),
        }
    }
}

pub open spec fn side_name(c: char) -> Seq<char> {
    if c == 'w' {
        "white"@
    } else {
        "black"@
    }
}

pub open spec fn en_passant_text(ep: Seq<char>) -> Seq<char> {
    if ep == "-"@ {
        "No en passant available\n"@
    } else {
        "En passant available on "@ + ep + "\n"@
    }
}

pub open spec fn header(fen: Seq<char>) -> Seq<char> {
    "# Board\nFEN Notation is: "@ + fen + "\n## Readable digest of this FEN\n### Position\n"@
}

/// The opening of the part that follows the piece list: the side to move.
pub open spec fn other_head(meta: Seq<Seq<char>>) -> Seq<char> {
    "\n### Other\n"@ + "Its "@ + side_name(meta[0][0]) + "'s turn\n\n"@
}

/// The close of the part that follows the piece list: en passant and the clocks.
pub open spec fn other_tail(meta: Seq<Seq<char>>) -> Seq<char> {
    "\n"@ + en_passant_text(meta[2]) + "\nMove clocks:\n- Halfmove clock (for 50-move rule): "@
        + meta[3] + "\n- Fullmove clock: "@ + meta[4] + "\n"@
}

/// The part of the description that follows the piece list.
pub open spec fn other_text(meta: Seq<Seq<char>>, castles: Seq<char>) -> Seq<char> {
    other_head(meta) + castles + other_tail(meta)
}

/// Structural checks of the metadata tokens, in the order they are made.
pub open spec fn metadata_error(meta: Seq<Seq<char>>) -> Option<Seq<char>> {
    if meta.len() != 5 {
        Some("Invalid signature"@)
    } else if utf8_len(meta[0]) != 1 {
        Some("Invalid turn indicator"@)
    } else if meta[0][0] != 'w' && meta[0][0] != 'b' {
        Some("Invalid turn, must be either w or b"@)
    } else if !(1 <= utf8_len(meta[1]) && utf8_len(meta[1]) <= 4) {
        Some("Invalid castles notation"@)
    } else if castling_text(meta[1]) is Err {
        Some(castling_text(meta[1])->Err_0)
    } else if !(1 <= utf8_len(meta[2]) && utf8_len(meta[2]) <= 2) {
        Some("Invalid en passant notation"@)
    } else {
        None
    }
}

/// The readable description of a position encoding, or the reason it is refused.
pub open spec fn describe(fen: Seq<char>) -> Result<Seq<char>, Seq<char>> {
    let segs = split_on(fen, '/');
    if segs.len() != 8 {
        Err("Invalid amount of components"@)
    } else {
        let meta = metadata(segs[7]);
        match metadata_error(meta) {
            Some(e) => Err(e),
            None => {
                let (pieces, bad) = board_scan(segs, 8);
                if bad.len() > 0 {
                    Err("Invalid pieces: "@ + join(bad, ", "@))
                } else {
                    match castling_text(meta[1]) {
                        Err(e) => Err(e),
                        Ok(ct) => Ok(header(fen) + pieces + other_text(meta, ct)),
                    }
                }
            },
        }
    }
}

pub open spec fn seq_result(r: Result<Vec<char>, Vec<char>>) -> Result<Seq<char>, Seq<char>> {
    match r {
        Ok(v) => Ok(v@),
        Err(e) => Err(e@),
    }
}

pub open spec fn string_result(r: Result<String, String>) -> Result<Seq<char>, Seq<char>> {
    match r {
        Ok(v) => Ok(v@),
        Err(e) => Err(e@),
    }
}

proof fn lemma_utf8_len_prefix(s: Seq<char>, i: int)
    requires
        0 <= i <= s.len(),
    ensures
        utf8_len(s.take(i)) <= utf8_len(s),
    decreases s.len(),
{
    if i < s.len() {
        lemma_utf8_len_prefix(s.drop_last(), i);
        assert(s.drop_last().take(i) =~= s.take(i));
    } else {
        assert(s.take(i) =~= s);
    }
}

/// Whether the UTF-8 length of `s` lies in `lo..=hi`.
fn utf8_len_within(s: &Vec<char>, lo: usize, hi: usize) -> (r: bool)
    requires
        hi <= 4,
    ensures
        r == (lo <= utf8_len(s@) && utf8_len(s@) <= hi),
{
    let mut acc: usize = 0;
    let mut i: usize = 0;
    while i < s.len()
        invariant
            i <= s@.len(),
            hi <= 4,
            acc as int == utf8_len(s@.take(i as int)),
            acc <= hi,
        decreases s@.len() - i,
    {
        let c = s[i];
        let w: usize = if (c as u32) < 0x80 {
            1
        } else if (c as u32) < 0x800 {
            2
        } else if (c as u32) < 0x10000 {
            3
        } else {
            4
        };
        assert(s@.take(i as int + 1).drop_last() =~= s@.take(i as int));
        acc = acc + w;
        i = i + 1;
        if acc > hi {
            proof {
                lemma_utf8_len_prefix(s@, i as int);
            }
            return false;
        }
    }
    assert(s@.take(s@.len() as int) =~= s@);
    lo <= acc
}

fn push_square(out: &mut Vec<char>, file: u8, rank: u8)
    requires
        1 <= rank <= 8,
    ensures
        final(out)@ == old(out)@ + square_name(file as int, rank as int),
{
    let letter = ((96u16 + file as u16) % 256) as u8;
    out.push(letter as char);
    out.push((48u8 + rank) as char);
    assert(final(out)@ =~= old(out)@ + square_name(file as int, rank as int));
}

/// Scans one rank segment, appending piece lines to `text` and invalid symbols to `bad`.
fn scan_rank(seg: &Vec<char>, rank: u8, text: &mut Vec<char>, bad: &mut Vec<Vec<char>>)
    requires
        1 <= rank <= 8,
    ensures
        final(text)@ == old(text)@ + rank_scan(seg@, seg@.len() as int, rank as int).2,
        views(final(bad)@) == views(old(bad)@) + rank_scan(seg@, seg@.len() as int, rank as int).3,
{
    let mut file: u8 = 0;
    let mut stopped = false;
    let mut i: usize = 0;
    assert(text@ =~= old(text)@ + Seq::<char>::empty());
    assert(views(bad@) =~= views(old(bad)@) + Seq::<Seq<char>>::empty());
    while i < seg.len()
        invariant
            i <= seg@.len(),
            1 <= rank <= 8,
            rank_scan(seg@, i as int, rank as int).0 == file as int,
            rank_scan(seg@, i as int, rank as int).1 == stopped,
            text@ == old(text)@ + rank_scan(seg@, i as int, rank as int).2,
            views(bad@) == views(old(bad)@) + rank_scan(seg@, i as int, rank as int).3,
        decreases seg@.len() - i,
    {
        let c = seg[i];
        let ghost prev = rank_scan(seg@, i as int, rank as int);
        if !stopped {
            if '0' <= c && c <= '9' {
                file = ((file as u16 + (c as u32 - 48) as u16) % 256) as u8;
            } else if c == ' ' && rank == 1 {
                stopped = true;
            } else {
                file = ((file as u16 + 1) % 256) as u8;
                match ChessPieces::from_symbol(c) {
                    Some(p) => {
                        push_str(text, p.human_str());
                        push_str(text, " on ");
                        push_square(text, file, rank);
                        push_str(text, "\n");
                        assert(text@ =~= old(text)@ + (prev.2 + human_name(p) + " on "@
                            + square_name(file as int, rank as int) + "\n"@));
                    },
                    None => {
                        let mut e: Vec<char> = Vec::new();
                        e.push(c);
                        push_square(&mut e, file, rank);
                        assert(e@ =~= seq![c] + square_name(file as int, rank as int));
                        let ghost bad_before = bad@;
                        bad.push(e);
                        assert(views(bad@) =~= views(bad_before).push(
                            seq![c] + square_name(file as int, rank as int),
                        ));
                        assert(views(bad@) =~= views(old(bad)@) + prev.3.push(
                            seq![c] + square_name(file as int, rank as int),
                        ));
                    },
                }
            }
        }
        i = i + 1;
    }
}

/// Scans the eight rank segments, top rank first.
fn scan_board(segs: &Vec<Vec<char>>) -> (r: (Vec<char>, Vec<Vec<char>>))
    requires
        segs@.len() == 8,
    ensures
        r.0@ == board_scan(views(segs@), 8).0,
        views(r.1@) == board_scan(views(segs@), 8).1,
{
    let mut text: Vec<char> = Vec::new();
    let mut bad: Vec<Vec<char>> = Vec::new();
    let mut k: usize = 0;
    assert(views(bad@) =~= Seq::<Seq<char>>::empty());
    while k < 8
        invariant
            k <= 8,
            segs@.len() == 8,
            text@ == board_scan(views(segs@), k as int).0,
            views(bad@) == board_scan(views(segs@), k as int).1,
        decreases 8 - k,
    {
        let rank: u8 = 8 - k as u8;
        scan_rank(&segs[k], rank, &mut text, &mut bad);
        k = k + 1;
    }
    (text, bad)
}

/// Appends the parts joined by `sep`.
fn push_joined(out: &mut Vec<char>, parts: &Vec<Vec<char>>, sep: &str)
    ensures
        final(out)@ == old(out)@ + join(views(parts@), sep@),
{
    let mut i: usize = 0;
    assert(views(parts@).take(0) =~= Seq::<Seq<char>>::empty());
    assert(out@ =~= old(out)@ + join(views(parts@).take(0), sep@));
    while i < parts.len()
        invariant
            i <= parts@.len(),
            out@ == old(out)@ + join(views(parts@).take(i as int), sep@),
        decreases parts@.len() - i,
    {
        let ghost before = out@;
        assert(views(parts@).take(i as int + 1).drop_last() =~= views(parts@).take(i as int));
        if i > 0 {
            push_str(out, sep);
        }
        push_chars(out, &parts[i]);
        i = i + 1;
        assert(out@ =~= old(out)@ + join(views(parts@).take(i as int), sep@));
    }
    assert(views(parts@).take(parts@.len() as int) =~= views(parts@));
}

fn is_dash(s: &Vec<char>) -> (r: bool)
    ensures
        r == (s@ == "-"@),
{
    proof {
        reveal_strlit("-");
    }
    if s.len() == 1 && s[0] == '-' {
        assert(s@ =~= "-"@);
        true
    } else {
        false
    }
}

/// The castling statements for a castling token.
fn castling(castles: &Vec<char>) -> (r: Result<Vec<char>, Vec<char>>)
    ensures
        seq_result(r) == castling_text(castles@),
{
    let mut out: Vec<char> = Vec::new();
    if is_dash(castles) {
        push_str(&mut out, "No castling available\n");
        assert(out@ =~= "No castling available\n"@);
        return Ok(out);
    }
    push_str(&mut out, "Castling options are:\n");
    let ghost head = out@;
    let mut i: usize = 0;
    while i < castles.len()
        invariant
            i <= castles@.len(),
            castles@ != "-"@,
            castle_list(castles@, i as int) is Ok,
            out@ == head + castle_list(castles@, i as int)->Ok_0,
        decreases castles@.len() - i,
    {
        let c = castles[i];
        let line: &str = if c == 'K' {
            "White can castle short"
        } else if c == 'Q' {
            "White can castle long"
        } else if c == 'k' {
            "Black can castle short"
        } else if c == 'q' {
            "Black can castle long"
        } else {
            let mut e: Vec<char> = Vec::new();
            push_str(&mut e, "Invalid castling option: ");
            e.push(c);
            assert(e@ =~= "Invalid castling option: "@ + seq![c]);
            assert(castle_list(castles@, i as int + 1) == Err::<Seq<char>, char>(c));
            assert(castle_list(castles@, castles@.len() as int) == Err::<Seq<char>, char>(c))
                by {
                lemma_castle_list_err_sticks(castles@, i as int + 1, castles@.len() as int);
            }
            return Err(e);
        };
        push_str(&mut out, "- ");
        push_str(&mut out, line);
        push_str(&mut out, "\n");
        i = i + 1;
        assert(out@ =~= head + castle_list(castles@, i as int)->Ok_0);
    }
    Ok(out)
}

proof fn lemma_castle_list_err_sticks(s: Seq<char>, i: int, j: int)
    requires
        0 <= i <= j,
        castle_list(s, i) is Err,
    ensures
        castle_list(s, j) == castle_list(s, i),
    decreases j - i,
{
    if j > i {
        lemma_castle_list_err_sticks(s, i, j - 1);
    }
}

fn err_text(s: &str) -> (r: Result<String, String>)
    ensures
        string_result(r) == Err::<Seq<char>, Seq<char>>(s@),
{
    Err(String::from_str(s))
}

fn check_metadata(meta: &Vec<Vec<char>>) -> (r: Option<String>)
    ensures
        match r {
            Some(e) => metadata_error(views(meta@)) == Some(e@),
            None => metadata_error(views(meta@)) is None,
        },
{
    if meta.len() != 5 {
        return Some(String::from_str("Invalid signature"));
    }
    if !utf8_len_within(&meta[0], 1, 1) {
        return Some(String::from_str("Invalid turn indicator"));
    }
    let turn = meta[0][0];
    if turn != 'w' && turn != 'b' {
        return Some(String::from_str("Invalid turn, must be either w or b"));
    }
    if !utf8_len_within(&meta[1], 1, 4) {
        return Some(String::from_str("Invalid castles notation"));
    }
    if let Err(e) = castling(&meta[1]) {
        return Some(string_of(&e));
    }
    if !utf8_len_within(&meta[2], 1, 2) {
        return Some(String::from_str("Invalid en passant notation"));
    }
    None
}

fn push_other(out: &mut Vec<char>, meta: &Vec<Vec<char>>, ct: &Vec<char>)
    requires
        metadata_error(views(meta@)) is None,
    ensures
        final(out)@ == old(out)@ + other_text(views(meta@), ct@),
{
    let ghost m = views(meta@);
    let turn = meta[0][0];
    push_str(out, "\n### Other\n");
    push_str(out, "Its ");
    push_str(out, if turn == 'w' { "white" } else { "black" });
    push_str(out, "'s turn\n\n");
    assert(out@ =~= old(out)@ + other_head(m));
    push_chars(out, ct);
    let ghost after_ct = out@;
    push_str(out, "\n");
    let ghost mid = out@;
    if is_dash(&meta[2]) {
        push_str(out, "No en passant available\n");
    } else {
        push_str(out, "En passant available on ");
        push_chars(out, &meta[2]);
        push_str(out, "\n");
        assert(out@ =~= mid + en_passant_text(m[2]));
    }
    push_str(out, "\nMove clocks:\n- Halfmove clock (for 50-move rule): ");
    push_chars(out, &meta[3]);
    push_str(out, "\n- Fullmove clock: ");
    push_chars(out, &meta[4]);
    push_str(out, "\n");
    assert(out@ =~= after_ct + other_tail(m));
    assert(out@ =~= old(out)@ + other_text(m, ct@));
}

/// Validates a compact position encoding and describes it in readable text.
///
/// The encoding must have eight rank segments separated by `/`, and five metadata
/// tokens after the placement (side to move, castling, en passant, two clocks).
/// The metadata tokens, castling symbols included, are checked first; then every
/// invalid piece symbol on the board is reported in one error, with its square.
pub fn fen2md(fen: String) -> (r: Result<String, String>)
    ensures
        string_result(r) == describe(fen@),
{
    let chars = chars_of(fen.as_str());
    let segs = split_chars(&chars, '/');
    if segs.len() != 8 {
        return err_text("Invalid amount of components");
    }
    let mut meta = split_words(&segs[7]);
    if meta.len() > 0 {
        meta.remove(0);
    }
    assert(views(meta@) =~= metadata(views(segs@)[7]));
    if let Some(e) = check_metadata(&meta) {
        return Err(e);
    }
    let (pieces, bad) = scan_board(&segs);
    if bad.len() > 0 {
        let mut e: Vec<char> = Vec::new();
        push_str(&mut e, "Invalid pieces: ");
        push_joined(&mut e, &bad, ", ");
        return Err(string_of(&e));
    }
    let ct = match castling(&meta[1]) {
        Ok(t) => t,
        Err(e) => {
            return Err(string_of(&e));
        },
    };
    let mut out: Vec<char> = Vec::new();
    push_str(&mut out, "# Board\nFEN Notation is: ");
    push_chars(&mut out, &chars);
    push_str(&mut out, "\n## Readable digest of this FEN\n### Position\n");
    assert(out@ =~= header(fen@));
    push_chars(&mut out, &pieces);
    push_other(&mut out, &meta, &ct);
    assert(out@ =~= header(fen@) + pieces@ + other_text(views(meta@), ct@));
    Ok(string_of(&out))
}

} // verus!
