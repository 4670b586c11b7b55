use vstd::prelude::*;
use chess::Board;
use crate::args::{
    consume_args, find_from, find_word, head_until, push_joined_strings, string_views, tail_from,
    without_word,
};
use crate::board::{
    board_after, board_fen, board_from_fen, fen_is_safe, fen_parse, fen_safe, fen_text, legal_of,
    move_ok, move_parse, play_move, start_board, start_fen, uci_text,
};
use crate::options::{advertisement, apply_option, default_model, Options, OptionsModel};
use crate::search::{best_line, cancel_model, start_lines, start_model, SearchModel, SearchPhase};
use crate::text::{
    chars_of, join, line_tokens, push_str, str_eq, string_of, tokenize, trim_chars, trimmed,
};

verus! {

/// Work that the session hands to whoever runs it.
pub enum Effect {
    /// Print one output line.
    Print(String),
    /// Start the background search on this position, with a snapshot of the
    /// options and the search-control arguments.
    StartSearch(Board, Options, Vec<String>),
    /// Cancel the running search.
    CancelSearch,
    /// Read this file; its text replaces the additional instructions.
    LoadInstructions(String),
    /// Print the licence text.
    ShowLicense,
    /// Cancel any search, wait a bounded time for it to end, and exit.
    Quit,
}

pub enum EffectModel {
    Print(Seq<char>),
    StartSearch(Board, OptionsModel, Seq<Seq<char>>),
    CancelSearch,
    LoadInstructions(Seq<char>),
    ShowLicense,
    Quit,
}

pub open spec fn effect_view(e: Effect) -> EffectModel {
    match e {
        Effect::Print(s) => EffectModel::Print(s@),
        Effect::StartSearch(b, o, a) => EffectModel::StartSearch(b, o@, string_views(a@)),
        Effect::CancelSearch => EffectModel::CancelSearch,
        Effect::LoadInstructions(p) => EffectModel::LoadInstructions(p@),
        Effect::ShowLicense => EffectModel::ShowLicense,
        Effect::Quit => EffectModel::Quit,
    }
}

pub open spec fn effects_view(v: Seq<Effect>) -> Seq<EffectModel> {
    v.map_values(|e: Effect| effect_view(e))
}

pub open spec fn prints(lines: Seq<Seq<char>>) -> Seq<EffectModel> {
    lines.map_values(|l: Seq<char>| EffectModel::Print(l))
}

/// The session: the current position, the options, and whether a search runs.
pub struct State {
    board: Board,
    options: Options,
    searching: bool,
}

impl State {
    /// The option values.
    pub closed spec fn opts(&self) -> OptionsModel {
        self.options@
    }

    /// The current position.
    pub closed spec fn position(&self) -> Board {
        self.board
    }

    pub fn options(&self) -> (r: &Options)
        ensures
            r@ == self.opts(),
    {
        &self.options
    }

    pub fn board(&self) -> (r: &Board)
        ensures
            *r == self.position(),
    {
        &self.board
    }

    /// Whether a search is running (the search handle exists).
    pub closed spec fn running(&self) -> bool {
        self.searching
    }

    pub fn is_searching(&self) -> (r: bool)
        ensures
            r == self.running(),
    {
        self.searching
    }

    /// The session at start: the starting position, default options, no search.
    pub fn new() -> (r: State)
        ensures
            r.opts() == default_model(),
            fen_parse(start_fen()) == Some(r.position()),
            !r.running(),
    {
        State { board: start_board(), options: Options::default(), searching: false }
    }

    /// Clears the search handle once the background search has ended, for any reason.
    pub fn search_finished(&mut self)
        ensures
            !final(self).running(),
            final(self).opts() == old(self).opts(),
            final(self).position() == old(self).position(),
    {
        self.searching = false;
    }

    /// Replaces the additional instructions with the text read from a file.
    pub fn set_additional_instructions(&mut self, text: String)
        ensures
            final(self).opts() == (OptionsModel {
                additional_instructions: text@,
                ..old(self).opts()
            }),
            final(self).running() == old(self).running(),
            final(self).position() == old(self).position(),
    {
        self.options.additional_instructions = text;
    }
}

impl Options {
    /// A copy of the option values.
    pub fn snapshot(&self) -> (r: Options)
        ensures
            r@ == self@,
    {
        Options {
            threads: self.threads,
            debug: self.debug,
            output_reasoning: self.output_reasoning,
            apimodel: self.apimodel.clone(),
            apibaseurl: self.apibaseurl.clone(),
            apikey: self.apikey.clone(),
            apimaxtries: self.apimaxtries,
            fenasmd: self.fenasmd,
            additional_instructions: self.additional_instructions.clone(),
            additional_instructions_file: self.additional_instructions_file.clone(),
        }
    }
}

fn print(s: &str) -> (r: Effect)
    ensures
        effect_view(r) == EffectModel::Print(s@),
{
    Effect::Print(String::from_str(s))
}

pub struct UciCommand;

pub struct PositionCommand;

pub struct DebugCommand;

pub struct GoCommand;

pub struct StopCommand;

pub struct QuitCommand;

pub struct IsReadyCommand;

pub struct LicenseCommand;

pub struct SetOptionCommand;

pub open spec fn uci_lines() -> Seq<Seq<char>> {
    seq!["id name Rust UCI Base"@, "id author b1ek"@, Seq::empty()] + advertisement() + seq![
        Seq::empty(),
        "uciok"@,
    ]
}

impl UciCommand {
    /// Identity, the option advertisement, and the readiness marker.
    pub fn execute(&self, args: Vec<String>, state: &mut State) -> (r: Result<Vec<Effect>, String>)
        ensures
            r is Ok,
            effects_view(r->Ok_0@) == prints(uci_lines()),
            *final(state) == *old(state),
    {
        let mut text: Vec<String> = Vec::new();
        text.push(String::from_str("id name Rust UCI Base"));
        text.push(String::from_str("id author b1ek"));
        text.push(String::new());
        let ghost head = string_views(text@);
        let mut lines = state.options.format_uci_options();
        assert(string_views(lines@) == advertisement());
        text.append(&mut lines);
        text.push(String::new());
        text.push(String::from_str("uciok"));
        proof {
            reveal_strlit("");
        }
        assert(string_views(text@) =~= uci_lines());
        Ok(to_prints(text))
    }
}

/// One print effect per line.
fn to_prints(lines: Vec<String>) -> (r: Vec<Effect>)
    ensures
        effects_view(r@) == prints(string_views(lines@)),
{
    let mut out: Vec<Effect> = Vec::new();
    let mut i: usize = 0;
    while i < lines.len()
        invariant
            i <= lines@.len(),
            out@.len() == i,
            forall|j: int| 0 <= j < i ==> effect_view(#[trigger] out@[j]) == EffectModel::Print(
                lines@[j]@,
            ),
        decreases lines@.len() - i,
    {
        out.push(Effect::Print(lines[i].clone()));
        i = i + 1;
    }
    assert(effects_view(out@) =~= prints(string_views(lines@)));
    out
}

impl IsReadyCommand {
    /// Answers the readiness probe, but only while no search runs.
    pub fn execute(&self, args: Vec<String>, state: &mut State) -> (r: Result<Vec<Effect>, String>)
        ensures
            r is Ok,
            effects_view(r->Ok_0@) == if old(state).running() {
                Seq::<EffectModel>::empty()
            } else {
                seq![EffectModel::Print("readyok"@)]
            },
            *final(state) == *old(state),
    {
        let mut out: Vec<Effect> = Vec::new();
        if !state.searching {
            out.push(print("readyok"));
        }
        assert(effects_view(out@) =~= if old(state).running() {
            Seq::<EffectModel>::empty()
        } else {
            seq![EffectModel::Print("readyok"@)]
        });
        Ok(out)
    }
}

impl StopCommand {
    /// Asks the running search to stop; with none running it does nothing.
    pub fn execute(&self, args: Vec<String>, state: &mut State) -> (r: Result<Vec<Effect>, String>)
        ensures
            r is Ok,
            effects_view(r->Ok_0@) == if old(state).running() {
                seq![EffectModel::CancelSearch]
            } else {
                Seq::<EffectModel>::empty()
            },
            *final(state) == *old(state),
    {
        let mut out: Vec<Effect> = Vec::new();
        if state.searching {
            out.push(Effect::CancelSearch);
        }
        assert(effects_view(out@) =~= if old(state).running() {
            seq![EffectModel::CancelSearch]
        } else {
            Seq::<EffectModel>::empty()
        });
        Ok(out)
    }
}

impl QuitCommand {
    pub fn execute(&self, args: Vec<String>, state: &mut State) -> (r: Result<Vec<Effect>, String>)
        ensures
            r is Ok,
            effects_view(r->Ok_0@) == seq![EffectModel::Quit],
            *final(state) == *old(state),
    {
        let mut out: Vec<Effect> = Vec::new();
        out.push(Effect::Quit);
        assert(effects_view(out@) =~= seq![EffectModel::Quit]);
        Ok(out)
    }
}

impl LicenseCommand {
    pub fn execute(&self, args: Vec<String>, state: &mut State) -> (r: Result<Vec<Effect>, String>)
        ensures
            r is Ok,
            effects_view(r->Ok_0@) == seq![EffectModel::ShowLicense],
            *final(state) == *old(state),
    {
        let mut out: Vec<Effect> = Vec::new();
        out.push(Effect::ShowLicense);
        assert(effects_view(out@) =~= seq![EffectModel::ShowLicense]);
        Ok(out)
    }
}

pub open spec fn search_line(running: bool) -> Seq<char> {
    if running {
        "The go command is running"@
    } else {
        "The go command is not running"@
    }
}

impl DebugCommand {
    /// The position as FEN text, then whether a search runs.
    pub fn execute(&self, args: Vec<String>, state: &mut State) -> (r: Result<Vec<Effect>, String>)
        ensures
            r is Ok,
            r->Ok_0@.len() == 2,
            effect_view(r->Ok_0@[0]) == EffectModel::Print(
                "Board FEN: "@ + fen_text(old(state).position()),
            ),
            effect_view(r->Ok_0@[1]) == EffectModel::Print(search_line(old(state).running())),
            *final(state) == *old(state),
    {
        let mut out: Vec<Effect> = Vec::new();
        let fen = board_fen(&state.board);
        let mut v: Vec<char> = Vec::new();
        push_str(&mut v, "Board FEN: ");
        push_str(&mut v, fen.as_str());
        out.push(Effect::Print(string_of(&v)));
        if state.searching {
            out.push(print("The go command is running"));
        } else {
            out.push(print("The go command is not running"));
        }
        Ok(out)
    }
}

pub open spec fn refusal_line() -> Seq<char> {
    "info string seems another go is running, refusing to run another one"@
}

impl GoCommand {
    /// Starts a search unless one runs already: then it only says so, and the
    /// running search and the session are left as they are.
    pub fn execute(&self, args: Vec<String>, state: &mut State) -> (r: Result<Vec<Effect>, String>)
        ensures
            r is Ok,
            old(state).running() ==> effects_view(r->Ok_0@) == seq![
                EffectModel::Print(refusal_line()),
            ] && *final(state) == *old(state),
            !old(state).running() ==> effects_view(r->Ok_0@) == seq![
                EffectModel::StartSearch(old(state).position(), old(state).opts(), string_views(args@)),
            ] && final(state).running() && final(state).opts() == old(state).opts()
                && final(state).position() == old(state).position(),
    {
        let mut out: Vec<Effect> = Vec::new();
        if state.searching {
            out.push(print("info string seems another go is running, refusing to run another one"));
            assert(effects_view(out@) =~= seq![EffectModel::Print(refusal_line())]);
            return Ok(out);
        }
        state.searching = true;
        let snapshot = state.options.snapshot();
        out.push(Effect::StartSearch(state.board, snapshot, args));
        assert(effects_view(out@) =~= seq![
            EffectModel::StartSearch(old(state).position(), old(state).opts(), string_views(args@)),
        ]);
        Ok(out)
    }
}

/// The option name: the argument after the first `name`.
pub open spec fn setoption_name(args: Seq<Seq<char>>) -> Option<Seq<char>> {
    match find_from(args, "name"@, 0) {
        Some(i) => if i + 1 < args.len() {
            Some(args[i + 1])
        } else {
            None
        },
        None => None,
    }
}

/// The option value: everything after the first `value`, joined by spaces.
pub open spec fn setoption_value(args: Seq<Seq<char>>) -> Option<Seq<char>> {
    match find_from(args, "value"@, 0) {
        Some(i) => Some(join(args.subrange(i + 1, args.len() as int), " "@)),
        None => None,
    }
}

/// The diagnostics of a `setoption` line without a name or without a value.
pub open spec fn setoption_notes(args: Seq<Seq<char>>) -> Seq<EffectModel> {
    (if setoption_name(args) is None {
        seq![EffectModel::Print("info string error: setoption name is required"@)]
    } else {
        Seq::empty()
    }) + (if setoption_value(args) is None {
        seq![EffectModel::Print("info string error: setoption value is required"@)]
    } else {
        Seq::empty()
    })
}

/// The options and effects after `setoption` with these arguments, or its error.
pub open spec fn setoption_outcome(opts: OptionsModel, args: Seq<Seq<char>>) -> Result<
    (OptionsModel, Seq<EffectModel>),
    Seq<char>,
> {
    if setoption_name(args) is None || setoption_value(args) is None {
        Err("invalid setoption syntax"@)
    } else {
        let n = setoption_name(args)->Some_0;
        let v = setoption_value(args)->Some_0;
        match apply_option(opts, n, v) {
            Ok(m) => Ok(
                (
                    m,
                    if n == "AdditionalInstructionsFile"@ {
                        seq![EffectModel::LoadInstructions(v)]
                    } else {
                        Seq::empty()
                    },
                ),
            ),
            Err(e) => Err("when setting option "@ + n + ": "@ + e),
        }
    }
}

impl SetOptionCommand {
    /// `setoption name <name> value <value...>`: validates and applies the option.
    /// Setting the instructions file also asks for the file to be read. Returns the
    /// effects, diagnostics included, and the command's error if any.
    pub fn execute(&self, args: Vec<String>, state: &mut State) -> (r: (
        Vec<Effect>,
        Result<(), String>,
    ))
        ensures
            match setoption_outcome(old(state).opts(), string_views(args@)) {
                Ok((m, eff)) => r.1 is Ok && effects_view(r.0@) == eff && final(state).opts() == m,
                Err(e) => r.1 is Err && r.1->Err_0@ == e && effects_view(r.0@) == setoption_notes(
                    string_views(args@),
                ) && final(state).opts() == old(state).opts(),
            },
            final(state).running() == old(state).running(),
            final(state).position() == old(state).position(),
    {
        let ghost a = string_views(args@);
        let n = args.len();
        let name: Option<String> = match find_word(&args, "name") {
            Some(i) => if i + 1 < n {
                Some(args[i + 1].clone())
            } else {
                None
            },
            None => None,
        };
        let vi = find_word(&args, "value");
        let mut notes: Vec<Effect> = Vec::new();
        if name.is_none() {
            notes.push(print("info string error: setoption name is required"));
        }
        if vi.is_none() {
            notes.push(print("info string error: setoption value is required"));
        }
        assert(effects_view(notes@) =~= setoption_notes(a));
        let (name, vi) = match (name, vi) {
            (Some(nm), Some(v)) => (nm, v),
            _ => {
                return (notes, Err(String::from_str("invalid setoption syntax")));
            },
        };
        let rest = tail_from(&args, vi + 1);
        let mut vchars: Vec<char> = Vec::new();
        push_joined_strings(&mut vchars, &rest, " ");
        let value = string_of(&vchars);
        assert(value@ == setoption_value(a)->Some_0);
        let mut out: Vec<Effect> = Vec::new();
        match state.options.set_by_name_value(name.as_str(), value.as_str()) {
            Ok(()) => {},
            Err(e) => {
                let mut v: Vec<char> = Vec::new();
                push_str(&mut v, "when setting option ");
                push_str(&mut v, name.as_str());
                push_str(&mut v, ": ");
                push_str(&mut v, e.as_str());
                return (notes, Err(string_of(&v)));
            },
        }
        if str_eq(name.as_str(), "AdditionalInstructionsFile") {
            out.push(Effect::LoadInstructions(value));
        }
        assert(effects_view(out@) =~= setoption_outcome(old(state).opts(), a)->Ok_0.1);
        (out, Ok(()))
    }
}

/// The position text of `position fen ...`: the arguments before the first `moves`.
pub open spec fn position_fen(rest: Seq<Seq<char>>) -> Seq<char> {
    match find_from(rest, "moves"@, 0) {
        Some(i) => join(rest.take(i), " "@),
        None => join(rest, " "@),
    }
}

/// The moves to replay: the arguments after the first `moves`, other than `moves`.
pub open spec fn position_moves(rest: Seq<Seq<char>>) -> Seq<Seq<char>> {
    match find_from(rest, "moves"@, 0) {
        Some(i) => without_word(rest.subrange(i + 1, rest.len() as int), "moves"@),
        None => Seq::empty(),
    }
}

/// The moves to replay, in order.
fn move_list(rest: &Vec<String>) -> (r: Vec<String>)
    ensures
        string_views(r@) == position_moves(string_views(rest@)),
{
    let ghost a = string_views(rest@);
    let mut out: Vec<String> = Vec::new();
    let k = match find_word(rest, "moves") {
        Some(k) => k,
        None => {
            assert(string_views(out@) =~= Seq::<Seq<char>>::empty());
            return out;
        },
    };
    let n = rest.len();
    let mut i: usize = k + 1;
    assert(a.subrange(k + 1, k + 1) =~= Seq::<Seq<char>>::empty());
    assert(string_views(out@) =~= Seq::<Seq<char>>::empty());
    while i < n
        invariant
            k + 1 <= i <= n,
            n == rest@.len(),
            a == string_views(rest@),
            string_views(out@) == without_word(a.subrange(k + 1, i as int), "moves"@),
        decreases n - i,
    {
        let ghost before = out@;
        assert(a.subrange(k + 1, i + 1).drop_last() =~= a.subrange(k + 1, i as int));
        assert(a.subrange(k + 1, i + 1).last() == rest@[i as int]@);
        if !str_eq(rest[i].as_str(), "moves") {
            out.push(rest[i].clone());
            assert(string_views(out@) =~= string_views(before).push(rest@[i as int]@));
        }
        i = i + 1;
    }
    out
}

/// The board that replaying `ms` from `b` reaches: each move is played while it
/// parses and is legal; the first that is not stops the replay.
pub open spec fn replay(b: Board, ms: Seq<Seq<char>>) -> Board
    decreases ms.len(),
{
    if ms.len() == 0 {
        b
    } else if move_ok(b, ms[0]) {
        replay(board_after(b, move_parse(ms[0])->Some_0), ms.drop_first())
    } else {
        b
    }
}

/// Whether every move of `ms` parses and is legal in turn from `b`.
pub open spec fn replay_ok(b: Board, ms: Seq<Seq<char>>) -> bool
    decreases ms.len(),
{
    if ms.len() == 0 {
        true
    } else if move_ok(b, ms[0]) {
        replay_ok(board_after(b, move_parse(ms[0])->Some_0), ms.drop_first())
    } else {
        false
    }
}

/// The position a `position` command sets before its moves, where it sets one.
pub open spec fn position_base(args: Seq<Seq<char>>) -> Option<Board> {
    if args.len() > 0 && args[0] == "startpos"@ {
        fen_parse(start_fen())
    } else if args.len() > 0 && args[0] == "fen"@ {
        let f = position_fen(args.drop_first());
        if fen_safe(f) {
            fen_parse(f)
        } else {
            None
        }
    } else {
        None
    }
}

/// What `position` with arguments `args` does to the session, with `ok` telling
/// whether it succeeded. Another first argument than `startpos` or `fen` is
/// ignored; a position text that is refused leaves the session as it was;
/// otherwise the session holds the board reached by the replay from the base.
pub open spec fn position_done(pre: State, post: State, args: Seq<Seq<char>>, ok: bool) -> bool {
    &&& post.running() == pre.running()
    &&& post.opts() == pre.opts()
    &&& if args.len() == 0 || (args[0] != "startpos"@ && args[0] != "fen"@) {
        ok && post == pre
    } else {
        match position_base(args) {
            None => !ok && post == pre,
            Some(b0) => {
                &&& ok == replay_ok(b0, position_moves(args.drop_first()))
                &&& post.position() == replay(b0, position_moves(args.drop_first()))
            },
        }
    }
}

/// Replays `ms` from the current position; the first move that does not parse or
/// is not legal stops the replay, and the moves before it stay played.
fn replay_moves(ms: &Vec<String>, state: &mut State) -> (r: Result<(), String>)
    ensures
        final(state).opts() == old(state).opts(),
        final(state).running() == old(state).running(),
        final(state).position() == replay(old(state).position(), string_views(ms@)),
        r is Ok == replay_ok(old(state).position(), string_views(ms@)),
{
    let ghost a = string_views(ms@);
    let ghost b0 = state.board;
    let mut j: usize = 0;
    assert(a.skip(0) =~= a);
    while j < ms.len()
        invariant
            j <= ms@.len(),
            a == string_views(ms@),
            state.opts() == old(state).opts(),
            state.running() == old(state).running(),
            b0 == old(state).position(),
            replay(b0, a) == replay(state.board, a.skip(j as int)),
            replay_ok(b0, a) == replay_ok(state.board, a.skip(j as int)),
        decreases ms@.len() - j,
    {
        let m = ms[j].as_str();
        assert(a.skip(j as int)[0] == m@);
        assert(a.skip(j as int).drop_first() =~= a.skip(j as int + 1));
        match play_move(&state.board, m) {
            Ok(b) => {
                state.board = b;
            },
            Err(e) => {
                let mut v: Vec<char> = Vec::new();
                push_str(&mut v, "Invalid move ");
                push_str(&mut v, m);
                push_str(&mut v, ": ");
                push_str(&mut v, e.as_str());
                return Err(string_of(&v));
            },
        }
        j = j + 1;
    }
    assert(a.skip(ms@.len() as int) =~= Seq::<Seq<char>>::empty());
    Ok(())
}

impl PositionCommand {
    /// `position startpos|fen <fen...> [moves <m1> ...]`: sets the position, then
    /// replays the moves. A refused position text leaves the position unchanged; a
    /// refused move stops the replay with the earlier moves played.
    pub fn execute(&self, args: Vec<String>, state: &mut State) -> (r: Result<Vec<Effect>, String>)
        ensures
            position_done(*old(state), *final(state), string_views(args@), r is Ok),
            r is Ok ==> r->Ok_0@.len() == 0,
    {
        let out: Vec<Effect> = Vec::new();
        if args.len() == 0 {
            return Ok(out);
        }
        proof {
            reveal_strlit("startpos");
            reveal_strlit("fen");
        }
        let is_start = str_eq(args[0].as_str(), "startpos");
        let is_fen = str_eq(args[0].as_str(), "fen");
        if !is_start && !is_fen {
            return Ok(out);
        }
        let ghost a0 = string_views(args@);
        let rest = consume_args(args);
        assert(string_views(rest@) =~= a0.drop_first());
        if is_start {
            state.board = start_board();
        } else {
            let fen_args = match find_word(&rest, "moves") {
                Some(k) => head_until(&rest, k),
                None => {
                    let n = rest.len();
                    let h = head_until(&rest, n);
                    assert(string_views(rest@).take(n as int) =~= string_views(rest@));
                    h
                },
            };
            let mut fen: Vec<char> = Vec::new();
            push_joined_strings(&mut fen, &fen_args, " ");
            let fen_text = string_of(&fen);
            assert(fen_text@ == position_fen(string_views(rest@)));
            if !fen_is_safe(fen_text.as_str()) {
                let mut v: Vec<char> = Vec::new();
                push_str(&mut v, "Invalid FEN string: ");
                push_str(&mut v, fen_text.as_str());
                return Err(string_of(&v));
            }
            match board_from_fen(fen_text.as_str()) {
                Ok(b) => {
                    state.board = b;
                },
                Err(e) => {
                    return Err(e);
                },
            }
        }
        assert(position_base(a0) == Some(state.board));
        let ms = move_list(&rest);
        match replay_moves(&ms, state) {
            Ok(()) => Ok(out),
            Err(e) => Err(e),
        }
    }
}

/// A protocol command, selected by the first token of a line.
pub enum Command {
    Uci(UciCommand),
    Position(PositionCommand),
    Debug(DebugCommand),
    Go(GoCommand),
    Stop(StopCommand),
    Quit(QuitCommand),
    IsReady(IsReadyCommand),
    License(LicenseCommand),
    SetOption(SetOptionCommand),
}

pub open spec fn command_of(name: Seq<char>) -> Option<Command> {
    if name == "uci"@ {
        Some(Command::Uci(UciCommand))
    } else if name == "position"@ {
        Some(Command::Position(PositionCommand))
    } else if name == "debug"@ {
        Some(Command::Debug(DebugCommand))
    } else if name == "go"@ {
        Some(Command::Go(GoCommand))
    } else if name == "stop"@ {
        Some(Command::Stop(StopCommand))
    } else if name == "quit"@ {
        Some(Command::Quit(QuitCommand))
    } else if name == "isready"@ {
        Some(Command::IsReady(IsReadyCommand))
    } else if name == "license"@ {
        Some(Command::License(LicenseCommand))
    } else if name == "setoption"@ {
        Some(Command::SetOption(SetOptionCommand))
    } else {
        None
    }
}

/// What running a command with arguments `rest` does to the session and which
/// effects it hands out; a command's error becomes one diagnostic line.
pub open spec fn command_done(
    c: Command,
    pre: State,
    post: State,
    rest: Seq<Seq<char>>,
    out: Seq<EffectModel>,
) -> bool {
    match c {
        Command::Go(_) => if pre.running() {
            post == pre && out == seq![EffectModel::Print(refusal_line())]
        } else {
            &&& post.running()
            &&& post.opts() == pre.opts()
            &&& post.position() == pre.position()
            &&& out == seq![EffectModel::StartSearch(pre.position(), pre.opts(), rest)]
        },
        Command::Stop(_) => post == pre && out == if pre.running() {
            seq![EffectModel::CancelSearch]
        } else {
            Seq::<EffectModel>::empty()
        },
        Command::IsReady(_) => post == pre && out == if pre.running() {
            Seq::<EffectModel>::empty()
        } else {
            seq![EffectModel::Print("readyok"@)]
        },
        Command::Quit(_) => post == pre && out == seq![EffectModel::Quit],
        Command::License(_) => post == pre && out == seq![EffectModel::ShowLicense],
        Command::Uci(_) => post == pre && out == prints(uci_lines()),
        Command::Debug(_) => {
            &&& post == pre
            &&& out.len() == 2
            &&& out[0] == EffectModel::Print("Board FEN: "@ + fen_text(pre.position()))
            &&& out[1] == EffectModel::Print(search_line(pre.running()))
        },
        Command::SetOption(_) => {
            &&& post.running() == pre.running()
            &&& post.position() == pre.position()
            &&& match setoption_outcome(pre.opts(), rest) {
                Ok((m, eff)) => post.opts() == m && out == eff,
                Err(e) => post.opts() == pre.opts() && out == setoption_notes(rest).push(
                    EffectModel::Print("info string error: "@ + e),
                ),
            }
        },
        Command::Position(_) => {
            &&& position_done(pre, post, rest, out.len() == 0)
            &&& out.len() == 0 || exists|e: Seq<char>|
                out == seq![EffectModel::Print(#[trigger] ("info string error: "@ + e))]
        },
    }
}

/// What handling the tokens `args` does: nothing for an empty line or an unknown
/// command, else what the command does with the remaining tokens.
pub open spec fn dispatched(pre: State, post: State, args: Seq<Seq<char>>, out: Seq<EffectModel>) -> bool {
    if args.len() == 0 || command_of(args[0]) is None {
        post == pre && out.len() == 0
    } else {
        command_done(command_of(args[0])->Some_0, pre, post, args.drop_first(), out)
    }
}

impl Command {
    /// The command called `name`, if any.
    pub fn from_name(name: &str) -> (r: Option<Command>)
        ensures
            r == command_of(name@),
    {
        if str_eq(name, "uci") {
            Some(Command::Uci(UciCommand))
        } else if str_eq(name, "position") {
            Some(Command::Position(PositionCommand))
        } else if str_eq(name, "debug") {
            Some(Command::Debug(DebugCommand))
        } else if str_eq(name, "go") {
            Some(Command::Go(GoCommand))
        } else if str_eq(name, "stop") {
            Some(Command::Stop(StopCommand))
        } else if str_eq(name, "quit") {
            Some(Command::Quit(QuitCommand))
        } else if str_eq(name, "isready") {
            Some(Command::IsReady(IsReadyCommand))
        } else if str_eq(name, "license") {
            Some(Command::License(LicenseCommand))
        } else if str_eq(name, "setoption") {
            Some(Command::SetOption(SetOptionCommand))
        } else {
            None
        }
    }

    /// Runs the command; an error becomes the line `info string error: <error>`.
    pub fn execute(&self, args: Vec<String>, state: &mut State) -> (r: Vec<Effect>)
        ensures
            command_done(*self, *old(state), *final(state), string_views(args@), effects_view(r@)),
    {
        match self {
            Command::Uci(c) => finish(c.execute(args, state)),
            Command::Position(c) => finish(c.execute(args, state)),
            Command::Debug(c) => finish(c.execute(args, state)),
            Command::Go(c) => finish(c.execute(args, state)),
            Command::Stop(c) => finish(c.execute(args, state)),
            Command::Quit(c) => finish(c.execute(args, state)),
            Command::IsReady(c) => finish(c.execute(args, state)),
            Command::License(c) => finish(c.execute(args, state)),
            Command::SetOption(c) => {
                let (mut notes, res) = c.execute(args, state);
                match res {
                    Ok(()) => notes,
                    Err(e) => {
                        let ghost before = notes@;
                        notes.push(error_line(e.as_str()));
                        assert(effects_view(notes@) =~= effects_view(before).push(
                            EffectModel::Print("info string error: "@ + e@),
                        ));
                        notes
                    },
                }
            },
        }
    }
}

fn error_line(e: &str) -> (r: Effect)
    ensures
        effect_view(r) == EffectModel::Print("info string error: "@ + e@),
{
    let mut t: Vec<char> = Vec::new();
    push_str(&mut t, "info string error: ");
    push_str(&mut t, e);
    Effect::Print(string_of(&t))
}

/// The effects of a command, or its error as one diagnostic line.
fn finish(res: Result<Vec<Effect>, String>) -> (r: Vec<Effect>)
    ensures
        match res {
            Ok(v) => r@ == v@,
            Err(e) => effects_view(r@) == seq![EffectModel::Print("info string error: "@ + e@)],
        },
{
    match res {
        Ok(v) => v,
        Err(e) => {
            let mut v: Vec<Effect> = Vec::new();
            v.push(error_line(e.as_str()));
            assert(effects_view(v@) =~= seq![EffectModel::Print("info string error: "@ + e@)]);
            v
        },
    }
}

impl Command {
    fn dispatch_tokens(args: Vec<String>, state: &mut State) -> (r: Vec<Effect>)
        ensures
            dispatched(*old(state), *final(state), string_views(args@), effects_view(r@)),
    {
        if args.len() == 0 {
            let v: Vec<Effect> = Vec::new();
            assert(effects_view(v@) =~= Seq::<EffectModel>::empty());
            return v;
        }
        match Command::from_name(args[0].as_str()) {
            None => {
                let v: Vec<Effect> = Vec::new();
                assert(effects_view(v@) =~= Seq::<EffectModel>::empty());
                v
            },
            Some(c) => {
                let ghost a = string_views(args@);
                let rest = consume_args(args);
                assert(string_views(rest@) =~= a.drop_first());
                c.execute(rest, state)
            },
        }
    }

    /// Handles one line of tokens, each trimmed first: the first selects the
    /// command, the rest are its arguments. Unknown commands are ignored.
    pub fn process_args(args: Vec<String>, state: &mut State) -> (r: Vec<Effect>)
        ensures
            dispatched(
                *old(state),
                *final(state),
                string_views(args@).map_values(|t: Seq<char>| trimmed(t)),
                effects_view(r@),
            ),
    {
        let ghost a = string_views(args@);
        let mut t: Vec<String> = Vec::new();
        let mut i: usize = 0;
        while i < args.len()
            invariant
                i <= args@.len(),
                a == string_views(args@),
                t@.len() == i,
                forall|j: int| 0 <= j < i ==> (#[trigger] t@[j])@ == trimmed(a[j]),
            decreases args@.len() - i,
        {
            let c = chars_of(args[i].as_str());
            let tc = trim_chars(&c);
            t.push(string_of(&tc));
            i = i + 1;
        }
        assert(string_views(t@) =~= a.map_values(|x: Seq<char>| trimmed(x)));
        Command::dispatch_tokens(t, state)
    }

    /// Handles one input line, split at single spaces into trimmed tokens.
    pub fn process_line(line: String, state: &mut State) -> (r: Vec<Effect>)
        ensures
            dispatched(*old(state), *final(state), line_tokens(line@), effects_view(r@)),
    {
        let args = tokenize(line.as_str());
        assert(string_views(args@) == line_tokens(line@));
        Command::dispatch_tokens(args, state)
    }
}

impl Default for State {
    fn default() -> (r: State)
        ensures
            r.opts() == default_model(),
            fen_parse(start_fen()) == Some(r.position()),
            !r.running(),
    {
        State::new()
    }
}

/// Single flight: after a `go` line, a second `go` line starts nothing. The second
/// only prints the refusal, the search started by the first stays the running one,
/// and the session is left as the first line left it.
pub proof fn lemma_second_go_refused(
    s0: State,
    s1: State,
    s2: State,
    first: Seq<Seq<char>>,
    second: Seq<Seq<char>>,
    out1: Seq<EffectModel>,
    out2: Seq<EffectModel>,
)
    requires
        first.len() > 0 && first[0] == "go"@,
        second.len() > 0 && second[0] == "go"@,
        dispatched(s0, s1, first, out1),
        dispatched(s1, s2, second, out2),
    ensures
        s1.running(),
        s2 == s1,
        out2 == seq![EffectModel::Print(refusal_line())],
        out1.len() == 1,
        !s0.running() ==> out1[0] is StartSearch,
{
    reveal_strlit("go");
    reveal_strlit("uci");
    reveal_strlit("position");
    reveal_strlit("debug");
    assert("go"@ != "uci"@ && "go"@ != "position"@ && "go"@ != "debug"@) by {
        assert("go"@.len() != "uci"@.len());
        assert("go"@.len() != "position"@.len());
        assert("go"@.len() != "debug"@.len());
    }
    assert(command_of("go"@) == Some(Command::Go(GoCommand)));
}

/// `stop` while a search runs asks for its cancellation, and a cancelled search
/// ends in the cancelled phase. Only `on_reply` prints a best move once a search has
/// started, and it asks for a search that still waits for an answer, so a cancelled
/// search prints nothing more. `stop` while idle does nothing at all.
pub proof fn lemma_stop_cancels(
    s0: State,
    s1: State,
    args: Seq<Seq<char>>,
    out: Seq<EffectModel>,
    search: SearchModel,
)
    requires
        args.len() > 0 && args[0] == "stop"@,
        dispatched(s0, s1, args, out),
        search.phase == SearchPhase::Attempting,
    ensures
        s1 == s0,
        s0.running() ==> out == seq![EffectModel::CancelSearch],
        !s0.running() ==> out.len() == 0,
        cancel_model(search).phase == SearchPhase::Cancelled,
{
    reveal_strlit("stop");
    reveal_strlit("uci");
    reveal_strlit("position");
    reveal_strlit("debug");
    reveal_strlit("go");
    assert("stop"@ != "uci"@ && "stop"@ != "position"@ && "stop"@ != "debug"@ && "stop"@
        != "go"@) by {
        assert("stop"@.len() != "uci"@.len());
        assert("stop"@.len() != "position"@.len());
        assert("stop"@.len() != "debug"@.len());
        assert("stop"@.len() != "go"@.len());
    }
    assert(command_of("stop"@) == Some(Command::Stop(StopCommand)));
}

/// A position with a single legal reply: `go` starts the search on the session's
/// board, and a search over that board's legal moves plays the reply at once,
/// asking the oracle nothing.
pub proof fn lemma_single_reply_needs_no_oracle(
    s0: State,
    s1: State,
    args: Seq<Seq<char>>,
    out: Seq<EffectModel>,
    max_tries: nat,
)
    requires
        args.len() > 0 && args[0] == "go"@,
        !s0.running(),
        dispatched(s0, s1, args, out),
        legal_of(s0.position()).len() == 1,
    ensures
        out == seq![EffectModel::StartSearch(s0.position(), s0.opts(), args.drop_first())],
        start_model(legal_of(s0.position()).map_values(|m| uci_text(m)), max_tries).queries == 0,
        start_lines(legal_of(s0.position()).map_values(|m| uci_text(m))) == seq![
            best_line(uci_text(legal_of(s0.position())[0])),
        ],
{
    reveal_strlit("go");
    reveal_strlit("uci");
    reveal_strlit("position");
    reveal_strlit("debug");
    assert("go"@ != "uci"@ && "go"@ != "position"@ && "go"@ != "debug"@) by {
        assert("go"@.len() != "uci"@.len());
        assert("go"@.len() != "position"@.len());
        assert("go"@.len() != "debug"@.len());
    }
    assert(command_of("go"@) == Some(Command::Go(GoCommand)));
}

} // verus!
