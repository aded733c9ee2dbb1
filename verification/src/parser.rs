//! Reading a line of text as messages.
//!
//! A line is split into words at white space. A word that names a command
//! starts a message; any other word is passed over, so that a line nobody
//! understands yields no message and no error. `uci`, `isready` and the other
//! commands without parameters take one word, `debug` and `bestmove` take the
//! words of their parameters, and reading goes on behind them. `register`,
//! `position`, `setoption`, `go` and `id` take the rest of the line: their
//! parameters are found by their keywords, in any order, and where a keyword
//! comes twice the later one counts. A free text (a name, a code, a position)
//! runs up to the next keyword of its command or to the end of the line, and its
//! words are joined by single spaces. A number that cannot be read leaves its
//! field as it was, and the word is looked at again as a keyword.
//!
//! A command whose parameters make no message is passed over like an unknown
//! word: `debug` without `on` or `off`, `bestmove` without a move, `setoption`
//! without a name. Keywords are matched as they are spelled, in lower case.
//! Black's remaining time is read under `btime` and under `bt`.

use vstd::prelude::*;
use crate::number::{parse_u64, parse_u8, u64_of, u8_of};
use crate::text::{join, push_joined, split_words, word_is, word_views, words};
use crate::uci::{
    MessageList,
    MessageView,
    SearchControlView,
    UciFen,
    UciMessage,
    UciMove,
    UciPiece,
    UciSearchControl,
    UciSquare,
    UciTimeControl,
};

verus! {

/// The commands whose parameters hold free text.
#[derive(Copy, Clone, Eq, PartialEq, Debug, Structural)]
pub enum Section {
    Register,
    Position,
    SetOption,
    Id,
}

/// Tells whether `w` is a keyword of the given command. A free text of that
/// command ends before such a word.
pub open spec fn is_key(sec: Section, w: Seq<char>) -> bool {
    match sec {
        Section::Register => w == "later"@ || w == "name"@ || w == "code"@,
        Section::Position => w == "startpos"@ || w == "fen"@ || w == "moves"@,
        Section::SetOption => w == "name"@ || w == "value"@,
        Section::Id => w == "name"@ || w == "author"@,
    }
}

/// The number of words from `ws[i]` to the end of the line.
pub open spec fn words_left(ws: Seq<Seq<char>>, i: int) -> nat {
    if i < ws.len() {
        (ws.len() - i) as nat
    } else {
        0
    }
}

/// The square that a file letter and a rank digit name, where the letter is
/// one of `a` to `h` and the digit one of `1` to `8`.
pub open spec fn square_of(file: char, rank: char) -> Option<UciSquare> {
    if 'a' <= file && file <= 'h' && '1' <= rank && rank <= '8' {
        Some(UciSquare { file, rank: (rank as int - '0' as int) as u8 })
    } else {
        None
    }
}

/// The piece that a promotion letter names: the piece that has this letter.
pub open spec fn promotion_of(c: char) -> Option<UciPiece> {
    if c == 'n' {
        Some(UciPiece::Knight)
    } else if c == 'b' {
        Some(UciPiece::Bishop)
    } else if c == 'r' {
        Some(UciPiece::Rook)
    } else if c == 'q' {
        Some(UciPiece::Queen)
    } else if c == 'k' {
        Some(UciPiece::King)
    } else {
        None
    }
}

/// The move that a word writes: two squares, and possibly a promotion letter.
pub open spec fn move_of(w: Seq<char>) -> Option<UciMove> {
    if w.len() == 4 || w.len() == 5 {
        match (square_of(w[0], w[1]), square_of(w[2], w[3])) {
            (Some(from), Some(to)) => {
                if w.len() == 4 {
                    Some(UciMove { from, to, promotion: None })
                } else {
                    match promotion_of(w[4]) {
                        Some(p) => Some(UciMove { from, to, promotion: Some(p) }),
                        None => None,
                    }
                }
            },
            _ => None,
        }
    } else {
        None
    }
}

/// The number of words from `ws[i]` on that are not keywords of `sec`, up to
/// the first that is one.
pub open spec fn run_len(ws: Seq<Seq<char>>, i: int, sec: Section) -> nat
    decreases ws.len() - i,
{
    if 0 <= i < ws.len() && !is_key(sec, ws[i]) {
        1 + run_len(ws, i + 1, sec)
    } else {
        0
    }
}

/// The free text that starts at `ws[i]`.
pub open spec fn free_text(ws: Seq<Seq<char>>, i: int, sec: Section) -> Seq<char> {
    join(ws.subrange(i, i + run_len(ws, i, sec)))
}

/// The number of words from `ws[i]` on that write moves, up to the first that
/// does not.
pub open spec fn moves_len(ws: Seq<Seq<char>>, i: int) -> nat
    decreases ws.len() - i,
{
    if 0 <= i < ws.len() && move_of(ws[i]) is Some {
        1 + moves_len(ws, i + 1)
    } else {
        0
    }
}

/// The moves that start at `ws[i]`.
pub open spec fn moves_at(ws: Seq<Seq<char>>, i: int) -> Seq<UciMove> {
    Seq::new(moves_len(ws, i), |k: int| move_of(ws[i + k])->0)
}

/// The number that `ws[i]` writes, if there is such a word and it writes one.
pub open spec fn number_at(ws: Seq<Seq<char>>, i: int) -> Option<u64> {
    if 0 <= i < ws.len() {
        u64_of(ws[i])
    } else {
        None
    }
}

/// As [`number_at`], for a small number.
pub open spec fn small_number_at(ws: Seq<Seq<char>>, i: int) -> Option<u8> {
    if 0 <= i < ws.len() {
        u8_of(ws[i])
    } else {
        None
    }
}

/// What has been read of a `register` message.
pub struct RegisterState {
    pub later: bool,
    pub name: Option<Seq<char>>,
    pub code: Option<Seq<char>>,
}

/// What has been read of a `position` message.
pub struct PositionState {
    pub startpos: bool,
    pub fen: Option<Seq<char>>,
    pub moves: Seq<UciMove>,
}

/// What has been read of a `setoption` or an `id` message: in the first, the
/// name and the value; in the second, the name and the author.
pub struct PairState {
    pub name: Option<Seq<char>>,
    pub other: Option<Seq<char>>,
}

/// What has been read of a `go` message.
pub struct GoState {
    pub time_control: Option<UciTimeControl>,
    pub search: SearchControlView,
}

/// The `register` message that the words from `ws[i]` on make of `st`.
pub open spec fn register_from(ws: Seq<Seq<char>>, i: int, st: RegisterState) -> RegisterState
    decreases words_left(ws, i),
{
    if !(0 <= i < ws.len()) {
        st
    } else if ws[i] == "later"@ {
        register_from(ws, i + 1, RegisterState { later: true, ..st })
    } else if ws[i] == "name"@ {
        register_from(
            ws,
            i + 1 + run_len(ws, i + 1, Section::Register),
            RegisterState { name: Some(free_text(ws, i + 1, Section::Register)), ..st },
        )
    } else if ws[i] == "code"@ {
        register_from(
            ws,
            i + 1 + run_len(ws, i + 1, Section::Register),
            RegisterState { code: Some(free_text(ws, i + 1, Section::Register)), ..st },
        )
    } else {
        register_from(ws, i + 1, st)
    }
}

/// The `position` message that the words from `ws[i]` on make of `st`.
pub open spec fn position_from(ws: Seq<Seq<char>>, i: int, st: PositionState) -> PositionState
    decreases words_left(ws, i),
{
    if !(0 <= i < ws.len()) {
        st
    } else if ws[i] == "startpos"@ {
        position_from(ws, i + 1, PositionState { startpos: true, ..st })
    } else if ws[i] == "fen"@ {
        position_from(
            ws,
            i + 1 + run_len(ws, i + 1, Section::Position),
            PositionState { fen: Some(free_text(ws, i + 1, Section::Position)), ..st },
        )
    } else if ws[i] == "moves"@ {
        position_from(
            ws,
            i + 1 + moves_len(ws, i + 1),
            PositionState { moves: moves_at(ws, i + 1), ..st },
        )
    } else {
        position_from(ws, i + 1, st)
    }
}

/// The two texts that the words from `ws[i]` on make of `st`, where the first
/// text stands behind `name` and the second behind `other_key`.
pub open spec fn pair_from(
    ws: Seq<Seq<char>>,
    i: int,
    sec: Section,
    other_key: Seq<char>,
    st: PairState,
) -> PairState
    decreases words_left(ws, i),
{
    if !(0 <= i < ws.len()) {
        st
    } else if ws[i] == "name"@ {
        pair_from(
            ws,
            i + 1 + run_len(ws, i + 1, sec),
            sec,
            other_key,
            PairState { name: Some(free_text(ws, i + 1, sec)), ..st },
        )
    } else if ws[i] == other_key {
        pair_from(
            ws,
            i + 1 + run_len(ws, i + 1, sec),
            sec,
            other_key,
            PairState { other: Some(free_text(ws, i + 1, sec)), ..st },
        )
    } else {
        pair_from(ws, i + 1, sec, other_key, st)
    }
}

/// The clocks that a time control shows: its own, where it is a `TimeLeft`;
/// none otherwise.
pub open spec fn clocks(tc: Option<UciTimeControl>) -> UciTimeControl {
    match tc {
        Some(UciTimeControl::TimeLeft { .. }) => tc->0,
        _ => UciTimeControl::no_time_left(),
    }
}

/// The fields of the clocks, one name for each.
#[derive(Copy, Clone, Eq, PartialEq, Debug, Structural)]
pub enum Clock {
    WhiteTime,
    BlackTime,
    WhiteIncrement,
    BlackIncrement,
}

/// The clocks of `tc` with one field set to `v`.
pub open spec fn set_clock(tc: Option<UciTimeControl>, which: Clock, v: u64) -> UciTimeControl {
    match clocks(tc) {
        UciTimeControl::TimeLeft {
            white_time,
            black_time,
            white_increment,
            black_increment,
            moves_to_go,
        } => UciTimeControl::TimeLeft {
            white_time: if which == Clock::WhiteTime {
                Some(v)
            } else {
                white_time
            },
            black_time: if which == Clock::BlackTime {
                Some(v)
            } else {
                black_time
            },
            white_increment: if which == Clock::WhiteIncrement {
                Some(v)
            } else {
                white_increment
            },
            black_increment: if which == Clock::BlackIncrement {
                Some(v)
            } else {
                black_increment
            },
            moves_to_go,
        },
        other => other,
    }
}

/// The clocks of `tc` with the number of moves to go set to `v`.
pub open spec fn set_moves_to_go(tc: Option<UciTimeControl>, v: u8) -> UciTimeControl {
    match clocks(tc) {
        UciTimeControl::TimeLeft {
            white_time,
            black_time,
            white_increment,
            black_increment,
            moves_to_go,
        } => UciTimeControl::TimeLeft {
            white_time,
            black_time,
            white_increment,
            black_increment,
            moves_to_go: Some(v),
        },
        other => other,
    }
}

/// The clock that a keyword of `go` names. Black's time has two names.
pub open spec fn clock_of(w: Seq<char>) -> Option<Clock> {
    if w == "wtime"@ {
        Some(Clock::WhiteTime)
    } else if w == "btime"@ || w == "bt"@ {
        Some(Clock::BlackTime)
    } else if w == "winc"@ {
        Some(Clock::WhiteIncrement)
    } else if w == "binc"@ {
        Some(Clock::BlackIncrement)
    } else {
        None
    }
}

/// What the word `ws[i]` of a `go` message makes of `st`, and how many words
/// behind `ws[i]` it takes with it.
pub open spec fn go_step(ws: Seq<Seq<char>>, i: int, st: GoState) -> (nat, GoState) {
    let w = ws[i];
    if w == "infinite"@ {
        (0, GoState { time_control: Some(UciTimeControl::Infinite), ..st })
    } else if w == "ponder"@ {
        (0, GoState { time_control: Some(UciTimeControl::Ponder), ..st })
    } else if w == "movetime"@ {
        match number_at(ws, i + 1) {
            Some(v) => (1, GoState { time_control: Some(UciTimeControl::MoveTime(v)), ..st }),
            None => (0, st),
        }
    } else if clock_of(w) is Some {
        match number_at(ws, i + 1) {
            Some(v) => (
                1,
                GoState { time_control: Some(set_clock(st.time_control, clock_of(w)->0, v)), ..st },
            ),
            None => (0, st),
        }
    } else if w == "movestogo"@ {
        match small_number_at(ws, i + 1) {
            Some(v) => (
                1,
                GoState { time_control: Some(set_moves_to_go(st.time_control, v)), ..st },
            ),
            None => (0, st),
        }
    } else if w == "depth"@ {
        match small_number_at(ws, i + 1) {
            Some(v) => (1, GoState { search: SearchControlView { depth: Some(v), ..st.search }, ..st }),
            None => (0, st),
        }
    } else if w == "nodes"@ {
        match number_at(ws, i + 1) {
            Some(v) => (1, GoState { search: SearchControlView { nodes: Some(v), ..st.search }, ..st }),
            None => (0, st),
        }
    } else if w == "mate"@ {
        match small_number_at(ws, i + 1) {
            Some(v) => (1, GoState { search: SearchControlView { mate: Some(v), ..st.search }, ..st }),
            None => (0, st),
        }
    } else if w == "searchmoves"@ {
        (
            moves_len(ws, i + 1),
            GoState {
                search: SearchControlView { search_moves: moves_at(ws, i + 1), ..st.search },
                ..st
            },
        )
    } else {
        (0, st)
    }
}

/// What the words from `ws[i]` on make of `st` in a `go` message.
pub open spec fn go_from(ws: Seq<Seq<char>>, i: int, st: GoState) -> GoState
    decreases words_left(ws, i),
{
    if !(0 <= i < ws.len()) {
        st
    } else {
        let (taken, next) = go_step(ws, i, st);
        go_from(ws, i + 1 + taken, next)
    }
}

/// Nothing read yet of a `register` message.
pub open spec fn register_start() -> RegisterState {
    RegisterState { later: false, name: None, code: None }
}

/// Nothing read yet of a `position` message.
pub open spec fn position_start() -> PositionState {
    PositionState { startpos: false, fen: None, moves: Seq::empty() }
}

/// Nothing read yet of a `setoption` or an `id` message.
pub open spec fn pair_start() -> PairState {
    PairState { name: None, other: None }
}

/// Nothing read yet of a `go` message.
pub open spec fn go_start() -> GoState {
    GoState {
        time_control: None,
        search: SearchControlView {
            search_moves: Seq::empty(),
            mate: None,
            depth: None,
            nodes: None,
        },
    }
}

/// The `register` message that the words from `ws[i]` on stand for.
pub open spec fn register_message(ws: Seq<Seq<char>>, i: int) -> MessageView {
    let st = register_from(ws, i, register_start());
    MessageView::Register { later: st.later, name: st.name, code: st.code }
}

/// The `position` message that the words from `ws[i]` on stand for.
pub open spec fn position_message(ws: Seq<Seq<char>>, i: int) -> MessageView {
    let st = position_from(ws, i, position_start());
    MessageView::Position { startpos: st.startpos, fen: st.fen, moves: st.moves }
}

/// The `setoption` message that the words from `ws[i]` on stand for, if they
/// name an option.
pub open spec fn option_message(ws: Seq<Seq<char>>, i: int) -> Option<MessageView> {
    let st = pair_from(ws, i, Section::SetOption, "value"@, pair_start());
    match st.name {
        Some(name) => Some(MessageView::SetOption { name, value: st.other }),
        None => None,
    }
}

/// The `id` message that the words from `ws[i]` on stand for.
pub open spec fn id_message(ws: Seq<Seq<char>>, i: int) -> MessageView {
    let st = pair_from(ws, i, Section::Id, "author"@, pair_start());
    MessageView::Id { name: st.name, author: st.other }
}

/// The `go` message that the words from `ws[i]` on stand for. A search control
/// in which nothing is set is no search control.
pub open spec fn go_message(ws: Seq<Seq<char>>, i: int) -> MessageView {
    let st = go_from(ws, i, go_start());
    MessageView::Go {
        time_control: st.time_control,
        search_control: if st.search.is_empty() {
            None
        } else {
            Some(st.search)
        },
    }
}

/// The word `ws[i]`, where there is one.
pub open spec fn word_at(ws: Seq<Seq<char>>, i: int) -> Option<Seq<char>> {
    if 0 <= i < ws.len() {
        Some(ws[i])
    } else {
        None
    }
}

/// The move that `ws[i]` writes, if there is such a word and it writes one.
pub open spec fn move_at(ws: Seq<Seq<char>>, i: int) -> Option<UciMove> {
    if 0 <= i < ws.len() {
        move_of(ws[i])
    } else {
        None
    }
}

/// The message that starts with the command `ws[i]`, if `ws[i]` is a command
/// and its parameters make a message, and the number of words that the command
/// takes behind `ws[i]`.
pub open spec fn command_at(ws: Seq<Seq<char>>, i: int) -> (Option<MessageView>, nat)
    recommends
        0 <= i < ws.len(),
{
    let w = ws[i];
    let rest = (ws.len() - i - 1) as nat;
    if w == "uci"@ {
        (Some(MessageView::Uci), 0)
    } else if w == "isready"@ {
        (Some(MessageView::IsReady), 0)
    } else if w == "ucinewgame"@ {
        (Some(MessageView::UciNewGame), 0)
    } else if w == "stop"@ {
        (Some(MessageView::Stop), 0)
    } else if w == "ponderhit"@ {
        (Some(MessageView::PonderHit), 0)
    } else if w == "quit"@ {
        (Some(MessageView::Quit), 0)
    } else if w == "uciok"@ {
        (Some(MessageView::UciOk), 0)
    } else if w == "readyok"@ {
        (Some(MessageView::ReadyOk), 0)
    } else if w == "debug"@ {
        if word_at(ws, i + 1) == Some("on"@) {
            (Some(MessageView::Debug(true)), 1)
        } else if word_at(ws, i + 1) == Some("off"@) {
            (Some(MessageView::Debug(false)), 1)
        } else {
            (None, 0)
        }
    } else if w == "bestmove"@ {
        match move_at(ws, i + 1) {
            Some(best_move) => {
                if word_at(ws, i + 2) == Some("ponder"@) && move_at(ws, i + 3) is Some {
                    (Some(MessageView::BestMove { best_move, ponder: move_at(ws, i + 3) }), 3)
                } else {
                    (Some(MessageView::BestMove { best_move, ponder: None }), 1)
                }
            },
            None => (None, 0),
        }
    } else if w == "register"@ {
        (Some(register_message(ws, i + 1)), rest)
    } else if w == "position"@ {
        (Some(position_message(ws, i + 1)), rest)
    } else if w == "setoption"@ {
        (option_message(ws, i + 1), rest)
    } else if w == "go"@ {
        (Some(go_message(ws, i + 1)), rest)
    } else if w == "id"@ {
        (Some(id_message(ws, i + 1)), rest)
    } else {
        (None, 0)
    }
}

/// Tells whether `w` names a command.
pub open spec fn is_command(w: Seq<char>) -> bool {
    w == "uci"@ || w == "isready"@ || w == "ucinewgame"@ || w == "stop"@ || w == "ponderhit"@ || w
        == "quit"@ || w == "uciok"@ || w == "readyok"@ || w == "debug"@ || w == "bestmove"@ || w
        == "register"@ || w == "position"@ || w == "setoption"@ || w == "go"@ || w == "id"@
}

/// The messages that the words from `ws[i]` on stand for.
pub open spec fn messages_from(ws: Seq<Seq<char>>, i: int) -> Seq<MessageView>
    decreases words_left(ws, i),
{
    if !(0 <= i < ws.len()) {
        Seq::empty()
    } else {
        let (message, taken) = command_at(ws, i);
        let later = messages_from(ws, i + 1 + taken);
        match message {
            Some(m) => seq![m] + later,
            None => later,
        }
    }
}

/// The messages that a line of text stands for.
pub open spec fn decode(line: Seq<char>) -> Seq<MessageView> {
    messages_from(words(line), 0)
}

/// What a list of messages holds, message by message.
pub open spec fn message_views(ms: Seq<UciMessage>) -> Seq<MessageView> {
    Seq::new(ms.len(), |i: int| ms[i]@)
}

/// A run of free text ends within the line.
pub proof fn lemma_run_len_bound(ws: Seq<Seq<char>>, i: int, sec: Section)
    requires
        0 <= i <= ws.len(),
    ensures
        i + run_len(ws, i, sec) <= ws.len(),
    decreases ws.len() - i,
{
    if i < ws.len() && !is_key(sec, ws[i]) {
        lemma_run_len_bound(ws, i + 1, sec);
    }
}

/// A run of moves ends within the line.
pub proof fn lemma_moves_len_bound(ws: Seq<Seq<char>>, i: int)
    requires
        0 <= i <= ws.len(),
    ensures
        i + moves_len(ws, i) <= ws.len(),
    decreases ws.len() - i,
{
    if i < ws.len() && move_of(ws[i]) is Some {
        lemma_moves_len_bound(ws, i + 1);
    }
}

/// Words of which none names a command stand for no message.
pub proof fn lemma_unknown_words(ws: Seq<Seq<char>>, i: int)
    requires
        forall|k: int| 0 <= k < ws.len() ==> !is_command(#[trigger] ws[k]),
    ensures
        messages_from(ws, i) == Seq::<MessageView>::empty(),
    decreases words_left(ws, i),
{
    if 0 <= i < ws.len() {
        assert(!is_command(ws[i]));
        assert(command_at(ws, i) == (None::<MessageView>, 0nat));
        lemma_unknown_words(ws, i + 1);
    }
}

/// A line of which no word names a command stands for no message.
pub proof fn lemma_unknown_line(line: Seq<char>)
    requires
        forall|k: int| 0 <= k < words(line).len() ==> !is_command(#[trigger] words(line)[k]),
    ensures
        decode(line) == Seq::<MessageView>::empty(),
{
    lemma_unknown_words(words(line), 0);
}

fn read_square(file: char, rank: char) -> (r: Option<UciSquare>)
    ensures
        r == square_of(file, rank),
{
    if 'a' <= file && file <= 'h' && '1' <= rank && rank <= '8' {
        Some(UciSquare { file, rank: (rank as u32 - 48) as u8 })
    } else {
        None
    }
}

fn read_promotion(c: char) -> (r: Option<UciPiece>)
    ensures
        r == promotion_of(c),
{
    if c == 'n' {
        Some(UciPiece::Knight)
    } else if c == 'b' {
        Some(UciPiece::Bishop)
    } else if c == 'r' {
        Some(UciPiece::Rook)
    } else if c == 'q' {
        Some(UciPiece::Queen)
    } else if c == 'k' {
        Some(UciPiece::King)
    } else {
        None
    }
}

/// Reads a word as a move.
pub fn read_move(w: &Vec<char>) -> (r: Option<UciMove>)
    ensures
        r == move_of(w@),
{
    if w.len() != 4 && w.len() != 5 {
        return None;
    }
    let from = match read_square(w[0], w[1]) {
        Some(sq) => sq,
        None => {
            return None;
        },
    };
    let to = match read_square(w[2], w[3]) {
        Some(sq) => sq,
        None => {
            return None;
        },
    };
    if w.len() == 4 {
        Some(UciMove { from, to, promotion: None })
    } else {
        match read_promotion(w[4]) {
            Some(p) => Some(UciMove { from, to, promotion: Some(p) }),
            None => None,
        }
    }
}

fn key_word(sec: Section, w: &Vec<char>) -> (b: bool)
    ensures
        b == is_key(sec, w@),
{
    match sec {
        Section::Register => word_is(w, "later") || word_is(w, "name") || word_is(w, "code"),
        Section::Position => word_is(w, "startpos") || word_is(w, "fen") || word_is(w, "moves"),
        Section::SetOption => word_is(w, "name") || word_is(w, "value"),
        Section::Id => word_is(w, "name") || word_is(w, "author"),
    }
}

/// Reads the free text that starts at `ws[from]`, and tells where it ends.
fn read_text(ws: &Vec<Vec<char>>, from: usize, sec: Section) -> (r: (String, usize))
    requires
        from <= ws.len(),
    ensures
        r.0@ == free_text(word_views(ws@), from as int, sec),
        r.1 == from + run_len(word_views(ws@), from as int, sec),
        r.1 <= ws.len(),
{
    let ghost wv = word_views(ws@);
    let mut end: usize = from;
    while end < ws.len() && !key_word(sec, &ws[end])
        invariant
            from <= end <= ws.len(),
            wv == word_views(ws@),
            run_len(wv, from as int, sec) == (end - from) + run_len(wv, end as int, sec),
        decreases ws.len() - end,
    {
        end += 1;
    }
    let mut text = String::new();
    push_joined(&mut text, ws, from, end);
    assert(text@ =~= free_text(wv, from as int, sec));
    (text, end)
}

/// Reads the moves that start at `ws[from]`, and tells where they end.
fn read_moves(ws: &Vec<Vec<char>>, from: usize) -> (r: (Vec<UciMove>, usize))
    requires
        from <= ws.len(),
    ensures
        r.0@ == moves_at(word_views(ws@), from as int),
        r.1 == from + moves_len(word_views(ws@), from as int),
        r.1 <= ws.len(),
{
    let ghost wv = word_views(ws@);
    let mut moves: Vec<UciMove> = Vec::new();
    let mut end: usize = from;
    while end < ws.len()
        invariant
            from <= end <= ws.len(),
            wv == word_views(ws@),
            moves@.len() == end - from,
            moves_len(wv, from as int) == (end - from) + moves_len(wv, end as int),
            forall|k: int| 0 <= k < end - from ==> moves@[k] == move_of(#[trigger] wv[from + k])->0,
        decreases ws.len() - end,
    {
        match read_move(&ws[end]) {
            Some(m) => {
                moves.push(m);
                end += 1;
            },
            None => {
                assert(moves@ =~= moves_at(wv, from as int));
                return (moves, end);
            },
        }
    }
    assert(moves@ =~= moves_at(wv, from as int));
    (moves, end)
}

/// Reads the parameters of a `register` message from `ws[from]` on.
fn read_register(ws: &Vec<Vec<char>>, from: usize) -> (r: UciMessage)
    requires
        from <= ws.len(),
    ensures
        r@ == register_message(word_views(ws@), from as int),
{
    let ghost wv = word_views(ws@);
    let mut later = false;
    let mut name: Option<String> = None;
    let mut code: Option<String> = None;
    let mut i: usize = from;
    while i < ws.len()
        invariant
            from <= i <= ws.len(),
            wv == word_views(ws@),
            register_from(
                wv,
                i as int,
                RegisterState {
                    later,
                    name: crate::uci::text_view(name),
                    code: crate::uci::text_view(code),
                },
            ) == register_from(wv, from as int, register_start()),
        decreases ws.len() - i,
    {
        let w = &ws[i];
        if word_is(w, "later") {
            later = true;
            i += 1;
        } else if word_is(w, "name") {
            let (text, end) = read_text(ws, i + 1, Section::Register);
            name = Some(text);
            i = end;
        } else if word_is(w, "code") {
            let (text, end) = read_text(ws, i + 1, Section::Register);
            code = Some(text);
            i = end;
        } else {
            i += 1;
        }
    }
    UciMessage::Register { later, name, code }
}

/// Reads the parameters of a `position` message from `ws[from]` on.
fn read_position(ws: &Vec<Vec<char>>, from: usize) -> (r: UciMessage)
    requires
        from <= ws.len(),
    ensures
        r@ == position_message(word_views(ws@), from as int),
{
    let ghost wv = word_views(ws@);
    let mut startpos = false;
    let mut fen: Option<UciFen> = None;
    let mut moves: Vec<UciMove> = Vec::new();
    let mut i: usize = from;
    while i < ws.len()
        invariant
            from <= i <= ws.len(),
            wv == word_views(ws@),
            position_from(
                wv,
                i as int,
                PositionState {
                    startpos,
                    fen: match fen {
                        Some(f) => Some(f@),
                        None => None,
                    },
                    moves: moves@,
                },
            ) == position_from(wv, from as int, position_start()),
        decreases ws.len() - i,
    {
        let w = &ws[i];
        if word_is(w, "startpos") {
            startpos = true;
            i += 1;
        } else if word_is(w, "fen") {
            let (text, end) = read_text(ws, i + 1, Section::Position);
            fen = Some(UciFen(text));
            i = end;
        } else if word_is(w, "moves") {
            let (found, end) = read_moves(ws, i + 1);
            moves = found;
            i = end;
        } else {
            i += 1;
        }
    }
    UciMessage::Position { startpos, fen, moves }
}

/// Reads the two texts of a `setoption` or an `id` message from `ws[from]` on.
fn read_pair(ws: &Vec<Vec<char>>, from: usize, sec: Section, other_key: &str) -> (r: (
    Option<String>,
    Option<String>,
))
    requires
        from <= ws.len(),
    ensures
        (PairState { name: crate::uci::text_view(r.0), other: crate::uci::text_view(r.1) })
            == pair_from(word_views(ws@), from as int, sec, other_key@, pair_start()),
{
    let ghost wv = word_views(ws@);
    let mut name: Option<String> = None;
    let mut other: Option<String> = None;
    let mut i: usize = from;
    while i < ws.len()
        invariant
            from <= i <= ws.len(),
            wv == word_views(ws@),
            pair_from(
                wv,
                i as int,
                sec,
                other_key@,
                PairState {
                    name: crate::uci::text_view(name),
                    other: crate::uci::text_view(other),
                },
            ) == pair_from(wv, from as int, sec, other_key@, pair_start()),
        decreases ws.len() - i,
    {
        let w = &ws[i];
        if word_is(w, "name") {
            let (text, end) = read_text(ws, i + 1, sec);
            name = Some(text);
            i = end;
        } else if word_is(w, other_key) {
            let (text, end) = read_text(ws, i + 1, sec);
            other = Some(text);
            i = end;
        } else {
            i += 1;
        }
    }
    (name, other)
}

fn read_clock(w: &Vec<char>) -> (r: Option<Clock>)
    ensures
        r == clock_of(w@),
{
    if word_is(w, "wtime") {
        Some(Clock::WhiteTime)
    } else if word_is(w, "btime") || word_is(w, "bt") {
        Some(Clock::BlackTime)
    } else if word_is(w, "winc") {
        Some(Clock::WhiteIncrement)
    } else if word_is(w, "binc") {
        Some(Clock::BlackIncrement)
    } else {
        None
    }
}

fn with_clock(tc: Option<UciTimeControl>, which: Clock, v: u64) -> (r: UciTimeControl)
    ensures
        r == set_clock(tc, which, v),
{
    match tc {
        Some(
            UciTimeControl::TimeLeft {
                white_time,
                black_time,
                white_increment,
                black_increment,
                moves_to_go,
            },
        ) => match which {
            Clock::WhiteTime => UciTimeControl::TimeLeft {
                white_time: Some(v),
                black_time,
                white_increment,
                black_increment,
                moves_to_go,
            },
            Clock::BlackTime => UciTimeControl::TimeLeft {
                white_time,
                black_time: Some(v),
                white_increment,
                black_increment,
                moves_to_go,
            },
            Clock::WhiteIncrement => UciTimeControl::TimeLeft {
                white_time,
                black_time,
                white_increment: Some(v),
                black_increment,
                moves_to_go,
            },
            Clock::BlackIncrement => UciTimeControl::TimeLeft {
                white_time,
                black_time,
                white_increment,
                black_increment: Some(v),
                moves_to_go,
            },
        },
        _ => match which {
            Clock::WhiteTime => UciTimeControl::TimeLeft {
                white_time: Some(v),
                black_time: None,
                white_increment: None,
                black_increment: None,
                moves_to_go: None,
            },
            Clock::BlackTime => UciTimeControl::TimeLeft {
                white_time: None,
                black_time: Some(v),
                white_increment: None,
                black_increment: None,
                moves_to_go: None,
            },
            Clock::WhiteIncrement => UciTimeControl::TimeLeft {
                white_time: None,
                black_time: None,
                white_increment: Some(v),
                black_increment: None,
                moves_to_go: None,
            },
            Clock::BlackIncrement => UciTimeControl::TimeLeft {
                white_time: None,
                black_time: None,
                white_increment: None,
                black_increment: Some(v),
                moves_to_go: None,
            },
        },
    }
}

fn with_moves_to_go(tc: Option<UciTimeControl>, v: u8) -> (r: UciTimeControl)
    ensures
        r == set_moves_to_go(tc, v),
{
    match tc {
        Some(
            UciTimeControl::TimeLeft {
                white_time,
                black_time,
                white_increment,
                black_increment,
                moves_to_go,
            },
        ) => UciTimeControl::TimeLeft {
            white_time,
            black_time,
            white_increment,
            black_increment,
            moves_to_go: Some(v),
        },
        _ => UciTimeControl::TimeLeft {
            white_time: None,
            black_time: None,
            white_increment: None,
            black_increment: None,
            moves_to_go: Some(v),
        },
    }
}

fn read_number(ws: &Vec<Vec<char>>, i: usize) -> (r: Option<u64>)
    ensures
        r == number_at(word_views(ws@), i as int),
{
    if i < ws.len() {
        parse_u64(&ws[i])
    } else {
        None
    }
}

fn read_small_number(ws: &Vec<Vec<char>>, i: usize) -> (r: Option<u8>)
    ensures
        r == small_number_at(word_views(ws@), i as int),
{
    if i < ws.len() {
        parse_u8(&ws[i])
    } else {
        None
    }
}

/// Reads the parameters of a `go` message from `ws[from]` on.
fn read_go(ws: &Vec<Vec<char>>, from: usize) -> (r: UciMessage)
    requires
        from <= ws.len(),
    ensures
        r@ == go_message(word_views(ws@), from as int),
{
    let ghost wv = word_views(ws@);
    let mut tc: Option<UciTimeControl> = None;
    let mut sc = UciSearchControl { search_moves: Vec::new(), mate: None, depth: None, nodes: None };
    let mut i: usize = from;
    while i < ws.len()
        invariant
            from <= i <= ws.len(),
            wv == word_views(ws@),
            go_from(wv, i as int, GoState { time_control: tc, search: sc@ }) == go_from(
                wv,
                from as int,
                go_start(),
            ),
        decreases ws.len() - i,
    {
        let w = &ws[i];
        let ghost st = GoState { time_control: tc, search: sc@ };
        let mut taken: usize = 0;
        if word_is(w, "infinite") {
            tc = Some(UciTimeControl::Infinite);
        } else if word_is(w, "ponder") {
            tc = Some(UciTimeControl::Ponder);
        } else if word_is(w, "movetime") {
            if let Some(v) = read_number(ws, i + 1) {
                tc = Some(UciTimeControl::MoveTime(v));
                taken = 1;
            }
        } else if let Some(which) = read_clock(w) {
            if let Some(v) = read_number(ws, i + 1) {
                tc = Some(with_clock(tc, which, v));
                taken = 1;
            }
        } else if word_is(w, "movestogo") {
            if let Some(v) = read_small_number(ws, i + 1) {
                tc = Some(with_moves_to_go(tc, v));
                taken = 1;
            }
        } else if word_is(w, "depth") {
            if let Some(v) = read_small_number(ws, i + 1) {
                sc.depth = Some(v);
                taken = 1;
            }
        } else if word_is(w, "nodes") {
            if let Some(v) = read_number(ws, i + 1) {
                sc.nodes = Some(v);
                taken = 1;
            }
        } else if word_is(w, "mate") {
            if let Some(v) = read_small_number(ws, i + 1) {
                sc.mate = Some(v);
                taken = 1;
            }
        } else if word_is(w, "searchmoves") {
            let (found, end) = read_moves(ws, i + 1);
            sc.search_moves = found;
            taken = end - (i + 1);
        }
        assert(go_step(wv, i as int, st) == (
            taken as nat,
            GoState { time_control: tc, search: sc@ },
        ));
        i = i + 1 + taken;
    }
    let search_control = if sc.is_empty() {
        None
    } else {
        Some(sc)
    };
    UciMessage::Go { time_control: tc, search_control }
}

/// Reads the command `ws[i]` with its parameters, and tells how many words it
/// takes behind `ws[i]`.
fn read_command(ws: &Vec<Vec<char>>, i: usize) -> (r: (Option<UciMessage>, usize))
    requires
        i < ws.len(),
    ensures
        command_at(word_views(ws@), i as int) == (
            match r.0 {
                Some(m) => Some(m@),
                None => None,
            },
            r.1 as nat,
        ),
        i + 1 + r.1 <= ws.len(),
{
    let ghost wv = word_views(ws@);
    let w = &ws[i];
    let rest: usize = ws.len() - i - 1;
    if word_is(w, "uci") {
        (Some(UciMessage::Uci), 0)
    } else if word_is(w, "isready") {
        (Some(UciMessage::IsReady), 0)
    } else if word_is(w, "ucinewgame") {
        (Some(UciMessage::UciNewGame), 0)
    } else if word_is(w, "stop") {
        (Some(UciMessage::Stop), 0)
    } else if word_is(w, "ponderhit") {
        (Some(UciMessage::PonderHit), 0)
    } else if word_is(w, "quit") {
        (Some(UciMessage::Quit), 0)
    } else if word_is(w, "uciok") {
        (Some(UciMessage::UciOk), 0)
    } else if word_is(w, "readyok") {
        (Some(UciMessage::ReadyOk), 0)
    } else if word_is(w, "debug") {
        if i + 1 < ws.len() && word_is(&ws[i + 1], "on") {
            (Some(UciMessage::Debug(true)), 1)
        } else if i + 1 < ws.len() && word_is(&ws[i + 1], "off") {
            (Some(UciMessage::Debug(false)), 1)
        } else {
            (None, 0)
        }
    } else if word_is(w, "bestmove") {
        let first = if i + 1 < ws.len() {
            read_move(&ws[i + 1])
        } else {
            None
        };
        match first {
            Some(best_move) => {
                let second = if ws.len() - i > 3 && word_is(&ws[i + 2], "ponder") {
                    read_move(&ws[i + 3])
                } else {
                    None
                };
                match second {
                    Some(p) => (Some(UciMessage::BestMove { best_move, ponder: Some(p) }), 3),
                    None => (Some(UciMessage::BestMove { best_move, ponder: None }), 1),
                }
            },
            None => (None, 0),
        }
    } else if word_is(w, "register") {
        (Some(read_register(ws, i + 1)), rest)
    } else if word_is(w, "position") {
        (Some(read_position(ws, i + 1)), rest)
    } else if word_is(w, "setoption") {
        let (name, value) = read_pair(ws, i + 1, Section::SetOption, "value");
        match name {
            Some(name) => (Some(UciMessage::SetOption { name, value }), rest),
            None => (None, rest),
        }
    } else if word_is(w, "go") {
        (Some(read_go(ws, i + 1)), rest)
    } else if word_is(w, "id") {
        let (name, author) = read_pair(ws, i + 1, Section::Id, "author");
        (Some(UciMessage::Id { name, author }), rest)
    } else {
        (None, 0)
    }
}

/// Reads a line as the messages that it stands for. A line that holds no
/// command yields no message.
pub fn parse(line: &str) -> (r: MessageList)
    ensures
        message_views(r@) == decode(line@),
{
    let ws = split_words(line);
    let ghost wv = word_views(ws@);
    let mut out: Vec<UciMessage> = Vec::new();
    let mut i: usize = 0;
    assert(message_views(out@) + messages_from(wv, 0) =~= messages_from(wv, 0));
    while i < ws.len()
        invariant
            i <= ws.len(),
            wv == word_views(ws@),
            message_views(out@) + messages_from(wv, i as int) == messages_from(wv, 0),
        decreases ws.len() - i,
    {
        let ghost had = message_views(out@);
        let (message, taken) = read_command(&ws, i);
        if let Some(m) = message {
            out.push(m);
            assert(message_views(out@) =~= had + seq![m@]);
            assert((had + seq![m@]) + messages_from(wv, i + 1 + taken) =~= had + (seq![m@]
                + messages_from(wv, i + 1 + taken)));
        }
        i = i + 1 + taken;
    }
    assert(message_views(out@) + messages_from(wv, i as int) =~= message_views(out@));
    out
}

} // verus!
