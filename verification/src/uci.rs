//! The messages of the protocol and the values they are made of.
//!
//! Every type that owns text or a list has a view: the same value with
//! `Seq<char>` in place of `String` and `Seq` in place of `Vec`. The contracts
//! of this crate speak of those views.

use vstd::prelude::*;
use crate::number::{bool_of, i32_of, parse_bool, parse_i32};

verus! {

/// Specifies whether a message is engine- or GUI-bound.
#[derive(Copy, Clone, Eq, PartialEq, Debug, Structural)]
pub enum CommunicationDirection {
    /// An engine-bound message.
    GuiToEngine,
    /// A GUI-bound message.
    EngineToGui,
}

/// The kinds of option an engine can declare.
#[derive(Copy, Clone, Eq, PartialEq, Debug, Structural)]
pub enum OptionType {
    Check,
    Spin,
    Combo,
    Button,
    String,
}

/// The chess piece types.
#[derive(Copy, Clone, Eq, PartialEq, Debug, Hash, Structural)]
pub enum UciPiece {
    Pawn,
    Knight,
    Bishop,
    Rook,
    Queen,
    King,
}

/// The error of `std::fmt`, which says no more than that something failed. It
/// is what a text that names no piece is answered with.
#[verifier::external_type_specification]
#[verifier::external_body]
pub struct ExFmtError(core::fmt::Error);

/// Makes the one value of `std::fmt::Error`. Nothing is claimed of it.
#[verifier::external_body]
fn no_such_piece() -> core::fmt::Error {
    core::fmt::Error
}

/// A chessboard square.
///
/// Neither field is checked. The default square, with file `'\0'` and rank `0`,
/// stands for "no square" and differs from every square of a board.
#[derive(Copy, Clone, Eq, PartialEq, Debug, Hash)]
pub struct UciSquare {
    /// The file. A character in the range of `a..h`.
    pub file: char,
    /// The rank. A number in the range of `1..8`.
    pub rank: u8,
}

/// A chess move in coordinate notation.
#[derive(Copy, Clone, Eq, PartialEq, Debug, Hash)]
pub struct UciMove {
    /// The source square.
    pub from: UciSquare,
    /// The destination square.
    pub to: UciSquare,
    /// The piece to be promoted to, if any.
    pub promotion: Option<UciPiece>,
}

/// A position in Forsyth-Edwards notation, kept as it was given.
#[derive(Clone, Eq, PartialEq, Debug, Hash)]
pub struct UciFen(pub String);

/// The part of a `go` message that deals with the clock and the engine's
/// thinking time.
#[derive(Clone, Eq, PartialEq, Debug, Hash)]
pub enum UciTimeControl {
    /// The `go ponder` message.
    Ponder,
    /// The `go infinite` message.
    Infinite,
    /// What the clocks show. A field that is `None` was not given; it is not zero.
    TimeLeft {
        /// White's time on the clock, in milliseconds.
        white_time: Option<u64>,
        /// Black's time on the clock, in milliseconds.
        black_time: Option<u64>,
        /// White's increment per move, in milliseconds.
        white_increment: Option<u64>,
        /// Black's increment per move, in milliseconds.
        black_increment: Option<u64>,
        /// The number of moves to go to the next time control.
        moves_to_go: Option<u8>,
    },
    /// How long the engine should think about the move, in milliseconds.
    MoveTime(u64),
}

/// The part of a `go` message that limits the search by anything but time.
#[derive(Clone, Eq, PartialEq, Debug, Hash)]
pub struct UciSearchControl {
    /// Limits the search to these moves.
    pub search_moves: Vec<UciMove>,
    /// Search for mate in this many moves.
    pub mate: Option<u8>,
    /// Search to this ply depth.
    pub depth: Option<u8>,
    /// Search no more than this many nodes (positions).
    pub nodes: Option<u64>,
}

/// The view of a [`UciSearchControl`].
pub struct SearchControlView {
    pub search_moves: Seq<UciMove>,
    pub mate: Option<u8>,
    pub depth: Option<u8>,
    pub nodes: Option<u64>,
}

/// One message of the protocol.
#[allow(inconsistent_fields)]
#[derive(Clone, Eq, PartialEq, Debug, Hash)]
pub enum UciMessage {
    /// The `uci` engine-bound message.
    Uci,
    /// The `debug` engine-bound message: debug mode on (`true`) or off.
    Debug(bool),
    /// The `isready` engine-bound message.
    IsReady,
    /// The `register` engine-bound message.
    Register {
        /// Register later: the other two fields then do not count.
        later: bool,
        /// The name to register with.
        name: Option<String>,
        /// The code to register with.
        code: Option<String>,
    },
    /// The `position` engine-bound message.
    Position {
        /// The game's starting position. Where this is `true`, `fen` is
        /// generally `None`.
        startpos: bool,
        /// The position to set up.
        fen: Option<UciFen>,
        /// The moves to play from that position.
        moves: Vec<UciMove>,
    },
    /// The `setoption` engine-bound message.
    SetOption {
        /// The name of the option to set.
        name: String,
        /// The value to set it to, if the option takes one.
        value: Option<String>,
    },
    /// The `ucinewgame` engine-bound message.
    UciNewGame,
    /// The `stop` engine-bound message.
    Stop,
    /// The `ponderhit` engine-bound message.
    PonderHit,
    /// The `quit` engine-bound message.
    Quit,
    /// The `go` engine-bound message.
    Go {
        /// Time-control-related `go` parameters (sub-commands).
        time_control: Option<UciTimeControl>,
        /// Search-related `go` parameters (sub-commands).
        search_control: Option<UciSearchControl>,
    },
    /// The `id` GUI-bound message.
    Id {
        /// The name of the engine, possibly including the version.
        name: Option<String>,
        /// The name of the author of the engine.
        author: Option<String>,
    },
    /// The `uciok` GUI-bound message.
    UciOk,
    /// The `readyok` GUI-bound message.
    ReadyOk,
    /// The `bestmove` GUI-bound message.
    BestMove {
        /// The move the engine thinks is the best one in the position.
        best_move: UciMove,
        /// The move the engine would like to ponder on.
        ponder: Option<UciMove>,
    },
}

/// The view of a [`UciMessage`].
#[allow(inconsistent_fields)]
pub enum MessageView {
    Uci,
    Debug(bool),
    IsReady,
    Register { later: bool, name: Option<Seq<char>>, code: Option<Seq<char>> },
    Position { startpos: bool, fen: Option<Seq<char>>, moves: Seq<UciMove> },
    SetOption { name: Seq<char>, value: Option<Seq<char>> },
    UciNewGame,
    Stop,
    PonderHit,
    Quit,
    Go { time_control: Option<UciTimeControl>, search_control: Option<SearchControlView> },
    Id { name: Option<Seq<char>>, author: Option<Seq<char>> },
    UciOk,
    ReadyOk,
    BestMove { best_move: UciMove, ponder: Option<UciMove> },
}

/// A vector containing several `UciMessage`s.
pub type MessageList = Vec<UciMessage>;

/// The view of an optional `String`.
pub open spec fn text_view(s: Option<String>) -> Option<Seq<char>> {
    match s {
        Some(t) => Some(t@),
        None => None,
    }
}

impl View for UciFen {
    type V = Seq<char>;

    open spec fn view(&self) -> Seq<char> {
        self.0@
    }
}

impl View for UciSearchControl {
    type V = SearchControlView;

    open spec fn view(&self) -> SearchControlView {
        SearchControlView {
            search_moves: self.search_moves@,
            mate: self.mate,
            depth: self.depth,
            nodes: self.nodes,
        }
    }
}

impl SearchControlView {
    /// No field is set.
    pub open spec fn is_empty(self) -> bool {
        self.search_moves.len() == 0 && self.mate is None && self.depth is None
            && self.nodes is None
    }
}

impl View for UciMessage {
    type V = MessageView;

    open spec fn view(&self) -> MessageView {
        match *self {
            UciMessage::Uci => MessageView::Uci,
            UciMessage::Debug(on) => MessageView::Debug(on),
            UciMessage::IsReady => MessageView::IsReady,
            UciMessage::Register { later, name, code } => MessageView::Register {
                later,
                name: text_view(name),
                code: text_view(code),
            },
            UciMessage::Position { startpos, fen, moves } => MessageView::Position {
                startpos,
                fen: match fen {
                    Some(f) => Some(f@),
                    None => None,
                },
                moves: moves@,
            },
            UciMessage::SetOption { name, value } => MessageView::SetOption {
                name: name@,
                value: text_view(value),
            },
            UciMessage::UciNewGame => MessageView::UciNewGame,
            UciMessage::Stop => MessageView::Stop,
            UciMessage::PonderHit => MessageView::PonderHit,
            UciMessage::Quit => MessageView::Quit,
            UciMessage::Go { time_control, search_control } => MessageView::Go {
                time_control,
                search_control: match search_control {
                    Some(sc) => Some(sc@),
                    None => None,
                },
            },
            UciMessage::Id { name, author } => MessageView::Id {
                name: text_view(name),
                author: text_view(author),
            },
            UciMessage::UciOk => MessageView::UciOk,
            UciMessage::ReadyOk => MessageView::ReadyOk,
            UciMessage::BestMove { best_move, ponder } => MessageView::BestMove {
                best_move,
                ponder,
            },
        }
    }
}

impl MessageView {
    /// The side that a message is meant for: every message is either engine-bound
    /// or GUI-bound.
    pub open spec fn direction(self) -> CommunicationDirection {
        match self {
            MessageView::Id { .. }
            | MessageView::UciOk
            | MessageView::ReadyOk
            | MessageView::BestMove { .. } => CommunicationDirection::EngineToGui,
            _ => CommunicationDirection::GuiToEngine,
        }
    }

    /// The value of a `setoption` message, if this is one and it has a value.
    pub open spec fn option_value(self) -> Option<Seq<char>> {
        match self {
            MessageView::SetOption { value, .. } => value,
            _ => None,
        }
    }
}

impl UciPiece {
    /// The letter of a piece in move notation, where a move promotes to it:
    /// `n`, `b`, `r`, `q` or `k`. A pawn has none.
    pub open spec fn letter(self) -> Option<char> {
        match self {
            UciPiece::Pawn => None,
            UciPiece::Knight => Some('n'),
            UciPiece::Bishop => Some('b'),
            UciPiece::Rook => Some('r'),
            UciPiece::Queen => Some('q'),
            UciPiece::King => Some('k'),
        }
    }

    /// The piece that a letter names, in either case: `n`, `p`, `b`, `r`, `k`
    /// or `q`.
    pub open spec fn named_by(c: char) -> Option<UciPiece> {
        if c == 'n' || c == 'N' {
            Some(UciPiece::Knight)
        } else if c == 'p' || c == 'P' {
            Some(UciPiece::Pawn)
        } else if c == 'b' || c == 'B' {
            Some(UciPiece::Bishop)
        } else if c == 'r' || c == 'R' {
            Some(UciPiece::Rook)
        } else if c == 'k' || c == 'K' {
            Some(UciPiece::King)
        } else if c == 'q' || c == 'Q' {
            Some(UciPiece::Queen)
        } else {
            None
        }
    }

    /// The piece that a text names: the text is one letter, which names it.
    pub open spec fn named(s: Seq<char>) -> Option<UciPiece> {
        if s.len() == 1 {
            Self::named_by(s[0])
        } else {
            None
        }
    }

    /// Returns a character representing a piece in UCI move notation. Used for
    /// specifying promotion in moves.
    pub fn as_char(self) -> (r: Option<char>)
        ensures
            r == self.letter(),
    {
        match self {
            UciPiece::Pawn => None,
            UciPiece::Knight => Some('n'),
            UciPiece::Bishop => Some('b'),
            UciPiece::Rook => Some('r'),
            UciPiece::Queen => Some('q'),
            UciPiece::King => Some('k'),
        }
    }

}

impl core::str::FromStr for UciPiece {
    type Err = core::fmt::Error;

    /// Creates a `UciPiece` from a text of one letter, in either case: `n` is
    /// the knight, `p` the pawn, `b` the bishop, `r` the rook, `k` the king and
    /// `q` the queen. Any other text is an error.
    fn from_str(s: &str) -> (r: Result<UciPiece, core::fmt::Error>)
        ensures
            match UciPiece::named(s@) {
                Some(p) => r == Ok::<UciPiece, core::fmt::Error>(p),
                None => r is Err,
            },
    {
        let cs = crate::text::chars_of(s);
        if cs.len() != 1 {
            return Err(no_such_piece());
        }
        let c = cs[0];
        if c == 'n' || c == 'N' {
            Ok(UciPiece::Knight)
        } else if c == 'p' || c == 'P' {
            Ok(UciPiece::Pawn)
        } else if c == 'b' || c == 'B' {
            Ok(UciPiece::Bishop)
        } else if c == 'r' || c == 'R' {
            Ok(UciPiece::Rook)
        } else if c == 'k' || c == 'K' {
            Ok(UciPiece::King)
        } else if c == 'q' || c == 'Q' {
            Ok(UciPiece::Queen)
        } else {
            Err(no_such_piece())
        }
    }
}

impl UciSquare {
    /// Create a `UciSquare` from file character and a rank number.
    pub fn from(file: char, rank: u8) -> (r: UciSquare)
        ensures
            r == (UciSquare { file, rank }),
    {
        UciSquare { file, rank }
    }
}

impl Default for UciSquare {
    /// The square that stands for "no square": file `'\0'`, rank `0`.
    fn default() -> (r: UciSquare)
        ensures
            r == (UciSquare { file: '\0', rank: 0 }),
    {
        UciSquare { file: '\0', rank: 0 }
    }
}

impl UciMove {
    /// Create a regular, non-promotion move from the `from` square to the `to`
    /// square.
    pub fn from_to(from: UciSquare, to: UciSquare) -> (r: UciMove)
        ensures
            r == (UciMove { from, to, promotion: None }),
    {
        UciMove { from, to, promotion: None }
    }
}

impl UciFen {
    /// Returns the FEN string.
    #[inline]
    pub fn as_str(&self) -> (r: &str)
        ensures
            r@ == self@,
    {
        self.0.as_str()
    }
}

impl From<&str> for UciFen {
    /// Constructs an `UciFen` from a text that holds a position. The text is
    /// not checked.
    fn from(s: &str) -> (r: UciFen)
        ensures
            r@ == s@,
    {
        UciFen(s.to_owned())
    }
}

impl vstd::std_specs::convert::FromSpecImpl<&str> for UciFen {
    /// The conversion is specified by the view of its result: two strings of
    /// the same characters need not be the same value.
    open spec fn obeys_from_spec() -> bool {
        false
    }

    open spec fn from_spec(s: &str) -> UciFen {
        arbitrary()
    }
}

impl UciTimeControl {
    /// The `TimeLeft` in which no field is given.
    pub open spec fn no_time_left() -> UciTimeControl {
        UciTimeControl::TimeLeft {
            white_time: None,
            black_time: None,
            white_increment: None,
            black_increment: None,
            moves_to_go: None,
        }
    }

    /// Returns a `UciTimeControl::TimeLeft` with all members set to `None`.
    pub fn time_left() -> (r: UciTimeControl)
        ensures
            r == Self::no_time_left(),
    {
        UciTimeControl::TimeLeft {
            white_time: None,
            black_time: None,
            white_increment: None,
            black_increment: None,
            moves_to_go: None,
        }
    }
}

impl UciSearchControl {
    /// Creates an `UciSearchControl` with `depth` set to the parameter and
    /// everything else set to empty or `None`.
    pub fn depth(depth: u8) -> (r: UciSearchControl)
        ensures
            r@ == (SearchControlView {
                search_moves: Seq::empty(),
                mate: None,
                depth: Some(depth),
                nodes: None,
            }),
    {
        UciSearchControl { search_moves: Vec::new(), mate: None, depth: Some(depth), nodes: None }
    }

    /// Creates an `UciSearchControl` with `mate` set to the parameter and
    /// everything else set to empty or `None`.
    pub fn mate(mate: u8) -> (r: UciSearchControl)
        ensures
            r@ == (SearchControlView {
                search_moves: Seq::empty(),
                mate: Some(mate),
                depth: None,
                nodes: None,
            }),
    {
        UciSearchControl { search_moves: Vec::new(), mate: Some(mate), depth: None, nodes: None }
    }

    /// Creates an `UciSearchControl` with `nodes` set to the parameter and
    /// everything else set to empty or `None`.
    pub fn nodes(nodes: u64) -> (r: UciSearchControl)
        ensures
            r@ == (SearchControlView {
                search_moves: Seq::empty(),
                mate: None,
                depth: None,
                nodes: Some(nodes),
            }),
    {
        UciSearchControl { search_moves: Vec::new(), mate: None, depth: None, nodes: Some(nodes) }
    }

    /// Returns `true` if all of the struct's settings are either `None` or
    /// empty.
    pub fn is_empty(&self) -> (r: bool)
        ensures
            r == self@.is_empty(),
    {
        self.search_moves.len() == 0 && self.mate.is_none() && self.depth.is_none()
            && self.nodes.is_none()
    }
}

impl Default for UciSearchControl {
    /// Creates an empty `UciSearchControl`.
    fn default() -> (r: UciSearchControl)
        ensures
            r@.is_empty(),
            r@.search_moves == Seq::<UciMove>::empty(),
    {
        UciSearchControl { search_moves: Vec::new(), mate: None, depth: None, nodes: None }
    }
}

impl UciMessage {
    /// Constructs a `register later` message.
    pub fn register_later() -> (r: UciMessage)
        ensures
            r@ == (MessageView::Register { later: true, name: None, code: None }),
    {
        UciMessage::Register { later: true, name: None, code: None }
    }

    /// Constructs a `register` message that gives a name and a code.
    pub fn register_code(name: &str, code: &str) -> (r: UciMessage)
        ensures
            r@ == (MessageView::Register { later: false, name: Some(name@), code: Some(code@) }),
    {
        UciMessage::Register {
            later: false,
            name: Some(name.to_owned()),
            code: Some(code.to_owned()),
        }
    }

    /// Constructs a `go ponder` message.
    pub fn go_ponder() -> (r: UciMessage)
        ensures
            r@ == (MessageView::Go {
                time_control: Some(UciTimeControl::Ponder),
                search_control: None,
            }),
    {
        UciMessage::Go { search_control: None, time_control: Some(UciTimeControl::Ponder) }
    }

    /// Constructs a `go infinite` message.
    pub fn go_infinite() -> (r: UciMessage)
        ensures
            r@ == (MessageView::Go {
                time_control: Some(UciTimeControl::Infinite),
                search_control: None,
            }),
    {
        UciMessage::Go { search_control: None, time_control: Some(UciTimeControl::Infinite) }
    }

    /// Constructs a `go movetime <milliseconds>` message, with `milliseconds` as
    /// the argument.
    pub fn go_movetime(milliseconds: u64) -> (r: UciMessage)
        ensures
            r@ == (MessageView::Go {
                time_control: Some(UciTimeControl::MoveTime(milliseconds)),
                search_control: None,
            }),
    {
        UciMessage::Go {
            search_control: None,
            time_control: Some(UciTimeControl::MoveTime(milliseconds)),
        }
    }

    /// Constructs an `id name <name>` GUI-bound message.
    pub fn id_name(name: &str) -> (r: UciMessage)
        ensures
            r@ == (MessageView::Id { name: Some(name@), author: None }),
    {
        UciMessage::Id { name: Some(name.to_owned()), author: None }
    }

    /// Constructs an `id author <author>` GUI-bound message.
    pub fn id_author(author: &str) -> (r: UciMessage)
        ensures
            r@ == (MessageView::Id { name: None, author: Some(author@) }),
    {
        UciMessage::Id { name: None, author: Some(author.to_owned()) }
    }

    /// Constructs a `bestmove` GUI-bound message without the ponder move.
    pub fn best_move(best_move: UciMove) -> (r: UciMessage)
        ensures
            r@ == (MessageView::BestMove { best_move, ponder: None }),
    {
        UciMessage::BestMove { best_move, ponder: None }
    }

    /// Constructs a `bestmove` GUI-bound message _with_ the ponder move.
    pub fn best_move_with_ponder(best_move: UciMove, ponder: UciMove) -> (r: UciMessage)
        ensures
            r@ == (MessageView::BestMove { best_move, ponder: Some(ponder) }),
    {
        UciMessage::BestMove { best_move, ponder: Some(ponder) }
    }

    /// Returns whether the command was meant for the engine or for the GUI.
    pub fn direction(&self) -> (r: CommunicationDirection)
        ensures
            r == self@.direction(),
    {
        match self {
            UciMessage::Uci
            | UciMessage::Debug(..)
            | UciMessage::IsReady
            | UciMessage::Register { .. }
            | UciMessage::Position { .. }
            | UciMessage::SetOption { .. }
            | UciMessage::UciNewGame
            | UciMessage::Stop
            | UciMessage::PonderHit
            | UciMessage::Quit
            | UciMessage::Go { .. } => CommunicationDirection::GuiToEngine,
            _ => CommunicationDirection::EngineToGui,
        }
    }

    /// If this is a `setoption` message whose value reads as a `bool`, that
    /// `bool`; otherwise `None`.
    pub fn as_bool(&self) -> (r: Option<bool>)
        ensures
            r == match self@.option_value() {
                Some(v) => bool_of(v),
                None => None,
            },
    {
        match self {
            UciMessage::SetOption { value, .. } => {
                match value {
                    Some(val) => parse_bool(val.as_str()),
                    None => None,
                }
            },
            _ => None,
        }
    }

    /// If this is a `setoption` message whose value reads as an integer that
    /// fits an `i32`, that integer; otherwise `None`.
    pub fn as_i32(&self) -> (r: Option<i32>)
        ensures
            r == match self@.option_value() {
                Some(v) => i32_of(v),
                None => None,
            },
    {
        match self {
            UciMessage::SetOption { value, .. } => {
                match value {
                    Some(val) => parse_i32(val.as_str()),
                    None => None,
                }
            },
            _ => None,
        }
    }
}

} // verus!
