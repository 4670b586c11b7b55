use vstd::prelude::*;
use chess::Board;
use crate::args::{push_joined_strings, string_views};
use crate::board::{board_fen, fen_text};
use crate::fen::{describe, fen2md, string_result};
use crate::text::{join, push_str, string_of};

verus! {

/// What the oracle is told: the position (a FEN text or `startpos`) and the legal
/// moves in move notation.
pub struct LLMInput {
    pub fen: Option<String>,
    pub legal_moves: Option<Vec<String>>,
}

/// How the position is put to the oracle: the readable digest, or the raw FEN text.
pub open spec fn position_prompt(fen: Seq<char>, as_markdown: bool) -> Result<Seq<char>, Seq<char>> {
    if as_markdown {
        describe(fen)
    } else {
        Ok("FEN: "@ + fen)
    }
}

pub open spec fn moves_prompt(legal: Seq<Seq<char>>) -> Seq<char> {
    "Legal moves: "@ + join(legal, ", "@)
}

/// The position part of an oracle query; the digest fails where the FEN text is refused.
pub fn position_text(fen: String, as_markdown: bool) -> (r: Result<String, String>)
    ensures
        string_result(r) == position_prompt(fen@, as_markdown),
{
    if as_markdown {
        fen2md(fen)
    } else {
        let mut v: Vec<char> = Vec::new();
        push_str(&mut v, "FEN: ");
        push_str(&mut v, fen.as_str());
        Ok(string_of(&v))
    }
}

/// The legal-move part of an oracle query.
pub fn legal_moves_text(legal: &Vec<String>) -> (r: String)
    ensures
        r@ == moves_prompt(string_views(legal@)),
{
    let mut v: Vec<char> = Vec::new();
    push_str(&mut v, "Legal moves: ");
    push_joined_strings(&mut v, legal, ", ");
    string_of(&v)
}

/// The position part of an oracle query for a board, from its FEN text.
pub fn board_position_text(board: &Board, as_markdown: bool) -> (r: Result<String, String>)
    ensures
        string_result(r) == position_prompt(fen_text(*board), as_markdown),
{
    position_text(board_fen(board), as_markdown)
}

} // verus!
