//! The canonical text of every message, without a line terminator.
//!
//! A text is made of pieces, keywords and values, with one space between
//! neighbours. Two choices are made here on purpose.
//!
//! Black's remaining time is written under the keyword `bt`, not under the
//! protocol's `btime`. Programs that read what this encoder writes know the
//! short keyword, so it stays; a program that knows only `btime` will not see
//! black's clock. The reader in [`crate::parser`] takes both spellings.
//!
//! The text of a `go` message ends with a space, so that the bare message is
//! `"go "`. No other text ends with a space that its values do not hold.

use vstd::prelude::*;
use vstd::string::StringExecFns;
use crate::number::{decimal, push_decimal};
use crate::text::{join, lemma_join_push};
use crate::uci::{
    MessageView,
    OptionType,
    SearchControlView,
    UciFen,
    UciMessage,
    UciMove,
    UciPiece,
    UciSearchControl,
    UciSquare,
    UciTimeControl,
};

verus! {

/// A square as text: its file, then its rank in decimal, as in `e4`.
pub open spec fn square_text(sq: UciSquare) -> Seq<char> {
    seq![sq.file] + decimal(sq.rank as nat)
}

/// What a promotion adds to a move's text: the letter of the piece, if the
/// move promotes and the piece has a letter.
pub open spec fn promotion_text(promotion: Option<UciPiece>) -> Seq<char> {
    match promotion {
        Some(p) => match p.letter() {
            Some(c) => seq![c],
            None => Seq::empty(),
        },
        None => Seq::empty(),
    }
}

/// A move as text: source square, destination square, promotion letter.
pub open spec fn move_text(m: UciMove) -> Seq<char> {
    square_text(m.from) + square_text(m.to) + promotion_text(m.promotion)
}

/// The texts of the given moves, in order.
pub open spec fn move_texts(moves: Seq<UciMove>) -> Seq<Seq<char>> {
    Seq::new(moves.len(), |i: int| move_text(moves[i]))
}

/// `key`, then `text`, where there is a text; nothing otherwise.
pub open spec fn labelled(key: Seq<char>, text: Option<Seq<char>>) -> Seq<Seq<char>> {
    match text {
        Some(t) => seq![key, t],
        None => Seq::empty(),
    }
}

/// `key`, then the number in decimal, where there is a number; nothing
/// otherwise.
pub open spec fn numbered(key: Seq<char>, n: Option<u64>) -> Seq<Seq<char>> {
    match n {
        Some(v) => seq![key, decimal(v as nat)],
        None => Seq::empty(),
    }
}

/// As [`numbered`], for a small number.
pub open spec fn numbered_small(key: Seq<char>, n: Option<u8>) -> Seq<Seq<char>> {
    match n {
        Some(v) => seq![key, decimal(v as nat)],
        None => Seq::empty(),
    }
}

/// The parameters of `go` that a time control stands for: of the clocks, those
/// fields that are given, in a fixed order.
pub open spec fn time_control_pieces(tc: Option<UciTimeControl>) -> Seq<Seq<char>> {
    match tc {
        None => Seq::empty(),
        Some(UciTimeControl::Infinite) => seq!["infinite"@],
        Some(UciTimeControl::Ponder) => seq!["ponder"@],
        Some(UciTimeControl::MoveTime(ms)) => seq!["movetime"@, decimal(ms as nat)],
        Some(
            UciTimeControl::TimeLeft {
                white_time,
                black_time,
                white_increment,
                black_increment,
                moves_to_go,
            },
        ) => numbered("wtime"@, white_time) + numbered("bt"@, black_time) + numbered(
            "winc"@,
            white_increment,
        ) + numbered("binc"@, black_increment) + numbered_small("movestogo"@, moves_to_go),
    }
}

/// The moves that a search is limited to, behind their keyword; nothing where
/// there is no such move.
pub open spec fn search_moves_pieces(moves: Seq<UciMove>) -> Seq<Seq<char>> {
    if moves.len() > 0 {
        seq!["searchmoves"@] + move_texts(moves)
    } else {
        Seq::empty()
    }
}

/// The parameters of `go` that a search control stands for: the fields that
/// are given, in a fixed order.
pub open spec fn search_control_pieces(sc: Option<SearchControlView>) -> Seq<Seq<char>> {
    match sc {
        None => Seq::empty(),
        Some(c) => numbered_small("depth"@, c.depth) + numbered("nodes"@, c.nodes)
            + numbered_small("mate"@, c.mate) + search_moves_pieces(c.search_moves),
    }
}

/// The pieces that the text of a message is made of: keywords and values, in
/// order.
pub open spec fn message_pieces(m: MessageView) -> Seq<Seq<char>> {
    match m {
        MessageView::Uci => seq!["uci"@],
        MessageView::Debug(on) => seq![
            "debug"@,
            if on {
                "on"@
            } else {
                "off"@
            },
        ],
        MessageView::IsReady => seq!["isready"@],
        MessageView::Register { later, name, code } => if later {
            seq!["register"@, "later"@]
        } else {
            seq!["register"@] + labelled("name"@, name) + labelled("code"@, code)
        },
        MessageView::Position { startpos, fen, moves } => seq!["position"@] + (if startpos {
            seq!["startpos"@]
        } else {
            labelled("fen"@, fen)
        }) + (if moves.len() > 0 {
            seq!["moves"@] + move_texts(moves)
        } else {
            Seq::empty()
        }),
        MessageView::SetOption { name, value } => seq!["setoption"@, "name"@, name] + labelled(
            "value"@,
            value,
        ),
        MessageView::UciNewGame => seq!["ucinewgame"@],
        MessageView::Stop => seq!["stop"@],
        MessageView::PonderHit => seq!["ponderhit"@],
        MessageView::Quit => seq!["quit"@],
        MessageView::Go { time_control, search_control } => seq!["go"@] + time_control_pieces(
            time_control,
        ) + search_control_pieces(search_control),
        MessageView::Id { name, author } => seq!["id"@] + (match name {
            Some(n) => seq!["name"@, n],
            None => labelled("author"@, author),
        }),
        MessageView::UciOk => seq!["uciok"@],
        MessageView::ReadyOk => seq!["readyok"@],
        MessageView::BestMove { best_move, ponder } => seq!["bestmove"@, move_text(best_move)] + (
        match ponder {
            Some(p) => seq!["ponder"@, move_text(p)],
            None => Seq::empty(),
        }),
    }
}

/// The canonical text of a message: its pieces with one space between
/// neighbours. The text of a `go` message ends with one more space.
pub open spec fn message_text(m: MessageView) -> Seq<char> {
    if m is Go {
        join(message_pieces(m)).push(' ')
    } else {
        join(message_pieces(m))
    }
}

/// Whatever name and code it carries, a message that registers later has the
/// text `register later`.
pub proof fn lemma_register_later_text(name: Option<Seq<char>>, code: Option<Seq<char>>)
    ensures
        message_text(MessageView::Register { later: true, name, code }) == "register later"@,
{
    reveal_strlit("register");
    reveal_strlit("later");
    reveal_strlit("register later");
    let ps = seq!["register"@, "later"@];
    assert(ps.drop_last() =~= seq!["register"@]);
    assert(join(seq!["register"@]) == "register"@);
    assert(join(ps) == "register"@ + seq![' '] + "later"@);
    assert("register"@ + seq![' '] + "later"@ =~= "register later"@);
}

/// A `go` message in which nothing is set has the text `go`, with a space
/// behind: fields that are not given leave nothing in the text, whether the
/// time control and the search control are missing or are there and empty.
pub proof fn lemma_bare_go_text(tc: Option<UciTimeControl>, sc: Option<SearchControlView>)
    requires
        tc is None || tc == Some(UciTimeControl::no_time_left()),
        sc is None || sc->0.is_empty(),
    ensures
        message_text(MessageView::Go { time_control: tc, search_control: sc }) == "go "@,
{
    reveal_strlit("go");
    reveal_strlit("go ");
    let ps = seq!["go"@];
    assert(time_control_pieces(tc) =~= Seq::empty());
    assert(search_control_pieces(sc) =~= Seq::empty());
    assert(message_pieces(MessageView::Go { time_control: tc, search_control: sc }) =~= ps);
    assert(join(ps).push(' ') =~= "go "@);
}

/// The name of an option type, as the protocol spells it.
pub open spec fn option_type_text(t: OptionType) -> Seq<char> {
    match t {
        OptionType::Check => "check"@,
        OptionType::Spin => "spin"@,
        OptionType::Combo => "combo"@,
        OptionType::Button => "button"@,
        OptionType::String => "string"@,
    }
}

/// Appends the text of a square.
pub fn push_square(out: &mut String, sq: UciSquare)
    ensures
        final(out)@ == old(out)@ + square_text(sq),
{
    let ghost start = out@;
    out.push(sq.file);
    push_decimal(out, sq.rank as u64);
    assert(out@ =~= start + square_text(sq));
}

/// Appends the text of a move.
pub fn push_move(out: &mut String, m: UciMove)
    ensures
        final(out)@ == old(out)@ + move_text(m),
{
    let ghost start = out@;
    push_square(out, m.from);
    push_square(out, m.to);
    if let Some(p) = m.promotion {
        if let Some(c) = p.as_char() {
            out.push(c);
        }
    }
    assert(out@ =~= start + move_text(m));
}

/// Appends a space and `piece` to a text that holds the pieces `ps`.
fn put(out: &mut String, piece: &str, Ghost(ps): Ghost<Seq<Seq<char>>>)
    requires
        ps.len() > 0,
        old(out)@ == join(ps),
    ensures
        final(out)@ == join(ps.push(piece@)),
{
    out.push(' ');
    out.append(piece);
    proof {
        lemma_join_push(ps, piece@);
    }
}

/// Appends a space and the numeral of `n` to a text that holds the pieces `ps`.
fn put_number(out: &mut String, n: u64, Ghost(ps): Ghost<Seq<Seq<char>>>)
    requires
        ps.len() > 0,
        old(out)@ == join(ps),
    ensures
        final(out)@ == join(ps.push(decimal(n as nat))),
{
    out.push(' ');
    push_decimal(out, n);
    proof {
        lemma_join_push(ps, decimal(n as nat));
    }
}

/// Appends a space and the text of `m` to a text that holds the pieces `ps`.
fn put_move(out: &mut String, m: UciMove, Ghost(ps): Ghost<Seq<Seq<char>>>)
    requires
        ps.len() > 0,
        old(out)@ == join(ps),
    ensures
        final(out)@ == join(ps.push(move_text(m))),
{
    out.push(' ');
    push_move(out, m);
    proof {
        lemma_join_push(ps, move_text(m));
    }
}

/// Appends `key` and `text`, where there is a text.
fn put_labelled(out: &mut String, key: &str, text: &Option<String>, Ghost(ps): Ghost<Seq<Seq<char>>>)
    requires
        ps.len() > 0,
        old(out)@ == join(ps),
    ensures
        final(out)@ == join(ps + labelled(key@, crate::uci::text_view(*text))),
{
    match text {
        Some(t) => {
            put(out, key, Ghost(ps));
            put(out, t.as_str(), Ghost(ps.push(key@)));
            assert(ps.push(key@).push(t@) =~= ps + seq![key@, t@]);
        },
        None => {
            assert(ps + Seq::<Seq<char>>::empty() =~= ps);
        },
    }
}

/// Appends `key` and the number, where there is a number.
fn put_numbered(out: &mut String, key: &str, n: Option<u64>, Ghost(ps): Ghost<Seq<Seq<char>>>)
    requires
        ps.len() > 0,
        old(out)@ == join(ps),
    ensures
        final(out)@ == join(ps + numbered(key@, n)),
{
    match n {
        Some(v) => {
            put(out, key, Ghost(ps));
            put_number(out, v, Ghost(ps.push(key@)));
            assert(ps.push(key@).push(decimal(v as nat)) =~= ps + numbered(key@, n));
        },
        None => {
            assert(ps + Seq::<Seq<char>>::empty() =~= ps);
        },
    }
}

/// Appends `key` and the number, where there is a number.
fn put_numbered_small(out: &mut String, key: &str, n: Option<u8>, Ghost(ps): Ghost<Seq<Seq<char>>>)
    requires
        ps.len() > 0,
        old(out)@ == join(ps),
    ensures
        final(out)@ == join(ps + numbered_small(key@, n)),
{
    match n {
        Some(v) => {
            put(out, key, Ghost(ps));
            put_number(out, v as u64, Ghost(ps.push(key@)));
            assert(ps.push(key@).push(decimal(v as nat)) =~= ps + numbered_small(key@, n));
        },
        None => {
            assert(ps + Seq::<Seq<char>>::empty() =~= ps);
        },
    }
}

/// Appends the texts of the given moves.
fn put_moves(out: &mut String, moves: &Vec<UciMove>, Ghost(ps): Ghost<Seq<Seq<char>>>)
    requires
        ps.len() > 0,
        old(out)@ == join(ps),
    ensures
        final(out)@ == join(ps + move_texts(moves@)),
{
    let ghost all = move_texts(moves@);
    let mut i: usize = 0;
    assert(ps + all.take(0) =~= ps);
    while i < moves.len()
        invariant
            i <= moves.len(),
            ps.len() > 0,
            all == move_texts(moves@),
            out@ == join(ps + all.take(i as int)),
        decreases moves.len() - i,
    {
        put_move(out, moves[i], Ghost(ps + all.take(i as int)));
        assert((ps + all.take(i as int)).push(move_text(moves@[i as int])) =~= ps + all.take(
            i + 1,
        ));
        i += 1;
    }
    assert(all.take(i as int) =~= all);
}

/// Appends the parameters of `go` that a time control stands for.
fn put_time_control(out: &mut String, tc: &Option<UciTimeControl>, Ghost(ps): Ghost<Seq<Seq<char>>>)
    requires
        ps.len() > 0,
        old(out)@ == join(ps),
    ensures
        final(out)@ == join(ps + time_control_pieces(*tc)),
{
    match tc {
        None => {
            assert(ps + Seq::<Seq<char>>::empty() =~= ps);
        },
        Some(UciTimeControl::Infinite) => {
            put(out, "infinite", Ghost(ps));
            assert(ps.push("infinite"@) =~= ps + seq!["infinite"@]);
        },
        Some(UciTimeControl::Ponder) => {
            put(out, "ponder", Ghost(ps));
            assert(ps.push("ponder"@) =~= ps + seq!["ponder"@]);
        },
        Some(UciTimeControl::MoveTime(ms)) => {
            put(out, "movetime", Ghost(ps));
            put_number(out, *ms, Ghost(ps.push("movetime"@)));
            assert(ps.push("movetime"@).push(decimal(*ms as nat)) =~= ps + seq![
                "movetime"@,
                decimal(*ms as nat),
            ]);
        },
        Some(
            UciTimeControl::TimeLeft {
                white_time,
                black_time,
                white_increment,
                black_increment,
                moves_to_go,
            },
        ) => {
            let ghost p1 = ps + numbered("wtime"@, *white_time);
            let ghost p2 = p1 + numbered("bt"@, *black_time);
            let ghost p3 = p2 + numbered("winc"@, *white_increment);
            let ghost p4 = p3 + numbered("binc"@, *black_increment);
            put_numbered(out, "wtime", *white_time, Ghost(ps));
            put_numbered(out, "bt", *black_time, Ghost(p1));
            put_numbered(out, "winc", *white_increment, Ghost(p2));
            put_numbered(out, "binc", *black_increment, Ghost(p3));
            put_numbered_small(out, "movestogo", *moves_to_go, Ghost(p4));
            assert(p4 + numbered_small("movestogo"@, *moves_to_go) =~= ps + time_control_pieces(
                *tc,
            ));
        },
    }
}

/// Appends the parameters of `go` that a search control stands for.
fn put_search_control(
    out: &mut String,
    sc: &Option<UciSearchControl>,
    Ghost(ps): Ghost<Seq<Seq<char>>>,
)
    requires
        ps.len() > 0,
        old(out)@ == join(ps),
    ensures
        final(out)@ == join(
            ps + search_control_pieces(
                match *sc {
                    Some(c) => Some(c@),
                    None => None,
                },
            ),
        ),
{
    match sc {
        Some(c) => {
            let ghost p1 = ps + numbered_small("depth"@, c.depth);
            let ghost p2 = p1 + numbered("nodes"@, c.nodes);
            let ghost p3 = p2 + numbered_small("mate"@, c.mate);
            put_numbered_small(out, "depth", c.depth, Ghost(ps));
            put_numbered(out, "nodes", c.nodes, Ghost(p1));
            put_numbered_small(out, "mate", c.mate, Ghost(p2));
            if c.search_moves.len() > 0 {
                put(out, "searchmoves", Ghost(p3));
                put_moves(out, &c.search_moves, Ghost(p3.push("searchmoves"@)));
                assert(p3.push("searchmoves"@) + move_texts(c.search_moves@) =~= p3
                    + search_moves_pieces(c.search_moves@));
            } else {
                assert(p3 + search_moves_pieces(c.search_moves@) =~= p3);
            }
            assert(p3 + search_moves_pieces(c.search_moves@) =~= ps + search_control_pieces(
                Some(c@),
            ));
        },
        None => {
            assert(ps + Seq::<Seq<char>>::empty() =~= ps);
        },
    }
}

impl UciSquare {
    /// Formats the square in the regular notation (as in, `e4`).
    pub fn to_string(&self) -> (r: String)
        ensures
            r@ == square_text(*self),
    {
        let mut out = String::new();
        push_square(&mut out, *self);
        assert(out@ =~= square_text(*self));
        out
    }
}

impl UciMove {
    /// Formats the move in the UCI move notation: `e2e4` is the move from `e2`
    /// to `e4`, `a2a1q` the move from `a2` to `a1` that promotes to a queen.
    pub fn to_string(&self) -> (r: String)
        ensures
            r@ == move_text(*self),
    {
        let mut out = String::new();
        push_move(&mut out, *self);
        assert(out@ =~= move_text(*self));
        out
    }
}

impl UciFen {
    /// Outputs the FEN string.
    pub fn to_string(&self) -> (r: String)
        ensures
            r@ == self@,
    {
        self.0.clone()
    }
}

impl OptionType {
    /// The name of the option type, in lower case, as the protocol spells it.
    pub fn to_string(&self) -> (r: String)
        ensures
            r@ == option_type_text(*self),
    {
        match self {
            OptionType::Check => "check".to_owned(),
            OptionType::Spin => "spin".to_owned(),
            OptionType::Combo => "combo".to_owned(),
            OptionType::Button => "button".to_owned(),
            OptionType::String => "string".to_owned(),
        }
    }
}

/// A text that holds the one piece `keyword`.
fn begin(keyword: &str) -> (out: String)
    ensures
        out@ == join(seq![keyword@]),
{
    keyword.to_owned()
}

impl UciMessage {
    /// Serializes the command into a String: the one canonical line of text
    /// that stands for this message, without a line terminator.
    pub fn serialize(&self) -> (r: String)
        ensures
            r@ == message_text(self@),
            self@ is Register && self@->later ==> r@ == "register later"@,
    {
        proof {
            if self@ is Register && self@->later {
                lemma_register_later_text(self@->Register_name, self@->code);
            }
        }
        match self {
            UciMessage::Uci => begin("uci"),
            UciMessage::Debug(on) => {
                let mut s = begin("debug");
                let ghost p0 = seq!["debug"@];
                if *on {
                    put(&mut s, "on", Ghost(p0));
                } else {
                    put(&mut s, "off", Ghost(p0));
                }
                assert(p0.push("on"@) =~= seq!["debug"@, "on"@]);
                assert(p0.push("off"@) =~= seq!["debug"@, "off"@]);
                s
            },
            UciMessage::IsReady => begin("isready"),
            UciMessage::Register { later, name, code } => {
                let mut s = begin("register");
                let ghost p0 = seq!["register"@];
                if *later {
                    put(&mut s, "later", Ghost(p0));
                    assert(p0.push("later"@) =~= seq!["register"@, "later"@]);
                } else {
                    put_labelled(&mut s, "name", name, Ghost(p0));
                    put_labelled(
                        &mut s,
                        "code",
                        code,
                        Ghost(p0 + labelled("name"@, crate::uci::text_view(*name))),
                    );
                }
                s
            },
            UciMessage::Position { startpos, fen, moves } => {
                let mut s = begin("position");
                let ghost p0 = seq!["position"@];
                let ghost p1 = p0 + (if *startpos {
                    seq!["startpos"@]
                } else {
                    labelled("fen"@, self@->Position_fen)
                });
                if *startpos {
                    put(&mut s, "startpos", Ghost(p0));
                    assert(p0.push("startpos"@) =~= p1);
                } else {
                    match fen {
                        Some(f) => {
                            put(&mut s, "fen", Ghost(p0));
                            put(&mut s, f.as_str(), Ghost(p0.push("fen"@)));
                            assert(p0.push("fen"@).push(f@) =~= p1);
                        },
                        None => {
                            assert(p0 =~= p1);
                        },
                    }
                }
                if moves.len() > 0 {
                    put(&mut s, "moves", Ghost(p1));
                    put_moves(&mut s, moves, Ghost(p1.push("moves"@)));
                    assert(p1.push("moves"@) + move_texts(moves@) =~= message_pieces(self@));
                } else {
                    assert(p1 =~= message_pieces(self@));
                }
                s
            },
            UciMessage::SetOption { name, value } => {
                let mut s = begin("setoption");
                let ghost p0 = seq!["setoption"@];
                put(&mut s, "name", Ghost(p0));
                put(&mut s, name.as_str(), Ghost(p0.push("name"@)));
                let ghost p1 = seq!["setoption"@, "name"@, name@];
                assert(p0.push("name"@).push(name@) =~= p1);
                put_labelled(&mut s, "value", value, Ghost(p1));
                s
            },
            UciMessage::UciNewGame => begin("ucinewgame"),
            UciMessage::Stop => begin("stop"),
            UciMessage::PonderHit => begin("ponderhit"),
            UciMessage::Quit => begin("quit"),
            UciMessage::Go { time_control, search_control } => {
                let mut s = begin("go");
                let ghost p0 = seq!["go"@];
                put_time_control(&mut s, time_control, Ghost(p0));
                put_search_control(
                    &mut s,
                    search_control,
                    Ghost(p0 + time_control_pieces(*time_control)),
                );
                s.push(' ');
                s
            },
            UciMessage::Id { name, author } => {
                let mut s = begin("id");
                let ghost p0 = seq!["id"@];
                match name {
                    Some(n) => {
                        put(&mut s, "name", Ghost(p0));
                        put(&mut s, n.as_str(), Ghost(p0.push("name"@)));
                        assert(p0.push("name"@).push(n@) =~= p0 + seq!["name"@, n@]);
                    },
                    None => {
                        put_labelled(&mut s, "author", author, Ghost(p0));
                    },
                }
                s
            },
            UciMessage::UciOk => begin("uciok"),
            UciMessage::ReadyOk => begin("readyok"),
            UciMessage::BestMove { best_move, ponder } => {
                let mut s = begin("bestmove");
                let ghost p0 = seq!["bestmove"@];
                put_move(&mut s, *best_move, Ghost(p0));
                let ghost p1 = seq!["bestmove"@, move_text(*best_move)];
                assert(p0.push(move_text(*best_move)) =~= p1);
                match ponder {
                    Some(p) => {
                        put(&mut s, "ponder", Ghost(p1));
                        put_move(&mut s, *p, Ghost(p1.push("ponder"@)));
                        assert(p1.push("ponder"@).push(move_text(*p)) =~= p1 + seq![
                            "ponder"@,
                            move_text(*p),
                        ]);
                    },
                    None => {
                        assert(p1 + Seq::<Seq<char>>::empty() =~= p1);
                    },
                }
                s
            },
        }
    }

    /// The text of the message, as [`UciMessage::serialize`] gives it.
    pub fn to_string(&self) -> (r: String)
        ensures
            r@ == message_text(self@),
    {
        self.serialize()
    }
}

} // verus!
