//! Reading back what was written: the text of a message, read as a line,
//! gives that message again and nothing else, as long as the message is one
//! that a line can stand for.

use vstd::prelude::*;
use crate::number::{decimal, lemma_decimal_is_word, lemma_decimal_reads_back};
use crate::parser::{
    clock_of,
    command_at,
    decode,
    free_text,
    go_from,
    go_start,
    go_step,
    is_key,
    messages_from,
    move_of,
    moves_at,
    moves_len,
    number_at,
    pair_from,
    pair_start,
    position_from,
    position_start,
    register_from,
    register_start,
    run_len,
    set_clock,
    set_moves_to_go,
    small_number_at,
    square_of,
    Clock,
    GoState,
    PairState,
    PositionState,
    RegisterState,
    Section,
};
use crate::serialize::{
    labelled,
    message_pieces,
    message_text,
    move_text,
    move_texts,
    numbered,
    numbered_small,
    promotion_text,
    search_control_pieces,
    search_moves_pieces,
    square_text,
    time_control_pieces,
};
use crate::text::{
    is_space,
    is_word,
    join,
    lemma_words_join_concat,
    lemma_words_of_joined_words,
    lemma_words_of_word,
    words,
};
use crate::uci::{MessageView, SearchControlView, UciMove, UciPiece, UciSquare, UciTimeControl};

verus! {

/// A text that a line can carry as a parameter of the command `sec`: its words
/// stand one space apart, with no other white space, and none of them is a
/// keyword of the command.
pub open spec fn plain_text(t: Seq<char>, sec: Section) -> bool {
    &&& join(words(t)) == t
    &&& forall|i: int| 0 <= i < words(t).len() ==> !is_key(sec, #[trigger] words(t)[i])
}

/// An optional text that is plain where it is there.
pub open spec fn plain_option(t: Option<Seq<char>>, sec: Section) -> bool {
    match t {
        Some(x) => plain_text(x, sec),
        None => true,
    }
}

/// A square of the board: file `a` to `h`, rank 1 to 8.
pub open spec fn board_square(sq: UciSquare) -> bool {
    'a' <= sq.file && sq.file <= 'h' && 1 <= sq.rank && sq.rank <= 8
}

/// A move between squares of the board that does not promote to a pawn.
pub open spec fn board_move(m: UciMove) -> bool {
    board_square(m.from) && board_square(m.to) && m.promotion != Some(UciPiece::Pawn)
}

/// Moves of the board, all of them.
pub open spec fn board_moves(ms: Seq<UciMove>) -> bool {
    forall|i: int| 0 <= i < ms.len() ==> board_move(#[trigger] ms[i])
}

/// The messages that a line can stand for: those that reading gives back.
///
/// Left out are the messages that have the same text as another one (a
/// `register later` with a name, a `position startpos` with a position, an
/// `id` with both name and author, clocks or a search control in which nothing
/// is set), texts that reading would cut or change (see [`plain_text`]), and
/// moves whose text is no move (see [`board_move`]).
pub open spec fn canonical(m: MessageView) -> bool {
    match m {
        MessageView::Register { later, name, code } => if later {
            name is None && code is None
        } else {
            plain_option(name, Section::Register) && plain_option(code, Section::Register)
        },
        MessageView::Position { startpos, fen, moves } => (startpos ==> fen is None)
            && plain_option(fen, Section::Position) && board_moves(moves),
        MessageView::SetOption { name, value } => plain_text(name, Section::SetOption)
            && plain_option(value, Section::SetOption),
        MessageView::Go { time_control, search_control } => time_control != Some(
            UciTimeControl::no_time_left(),
        ) && match search_control {
            Some(c) => !c.is_empty() && board_moves(c.search_moves),
            None => true,
        },
        MessageView::Id { name, author } => !(name is Some && author is Some) && plain_option(
            name,
            Section::Id,
        ) && plain_option(author, Section::Id),
        MessageView::BestMove { best_move, ponder } => board_move(best_move) && match ponder {
            Some(p) => board_move(p),
            None => true,
        },
        _ => true,
    }
}

/// The text of a move of the board is a word that writes this move.
pub proof fn lemma_move_reads_back(m: UciMove)
    requires
        board_move(m),
    ensures
        move_of(move_text(m)) == Some(m),
        is_word(move_text(m)),
{
    let t = move_text(m);
    let a = square_text(m.from);
    let b = square_text(m.to);
    let p = promotion_text(m.promotion);
    assert(a.len() == 2 && a[0] == m.from.file && a[1] == crate::number::digit_char(
        m.from.rank as int,
    ));
    assert(b.len() == 2 && b[0] == m.to.file && b[1] == crate::number::digit_char(
        m.to.rank as int,
    ));
    assert(t[0] == a[0] && t[1] == a[1] && t[2] == b[0] && t[3] == b[1]);
    assert(square_of(t[0], t[1]) == Some(m.from));
    assert(square_of(t[2], t[3]) == Some(m.to));
    if p.len() > 0 {
        assert(t[4] == p[0]);
    }
    assert forall|i: int| 0 <= i < t.len() implies !is_space(#[trigger] t[i]) by {
        if i >= 4 {
            assert(t[i] == p[0]);
        }
    }
}

/// The texts of moves of the board are words.
pub proof fn lemma_move_texts_are_words(ms: Seq<UciMove>)
    requires
        board_moves(ms),
    ensures
        forall|i: int| 0 <= i < ms.len() ==> is_word(#[trigger] move_texts(ms)[i]),
{
    assert forall|i: int| 0 <= i < ms.len() implies is_word(#[trigger] move_texts(ms)[i]) by {
        lemma_move_reads_back(ms[i]);
    }
}

/// Where the words from `ws[i]` on are the texts of the moves `ms` and the
/// line ends behind them, these are the moves that are read there.
pub proof fn lemma_moves_read_back(ws: Seq<Seq<char>>, i: int, ms: Seq<UciMove>)
    requires
        0 <= i,
        i + ms.len() == ws.len(),
        ws.subrange(i, ws.len() as int) == move_texts(ms),
        board_moves(ms),
    ensures
        moves_len(ws, i) == ms.len(),
        moves_at(ws, i) == ms,
    decreases ms.len(),
{
    if ms.len() > 0 {
        let rest = ms.subrange(1, ms.len() as int);
        assert(ws[i] == ws.subrange(i, ws.len() as int)[0]);
        lemma_move_reads_back(ms[0]);
        assert(ws.subrange(i + 1, ws.len() as int) =~= move_texts(rest)) by {
            assert forall|k: int| 0 <= k < rest.len() implies ws.subrange(
                i + 1,
                ws.len() as int,
            )[k] == move_texts(rest)[k] by {
                assert(ws[i + 1 + k] == ws.subrange(i, ws.len() as int)[k + 1]);
            }
        }
        assert(board_moves(rest)) by {
            assert forall|k: int| 0 <= k < rest.len() implies board_move(#[trigger] rest[k]) by {
                assert(rest[k] == ms[k + 1]);
            }
        }
        lemma_moves_read_back(ws, i + 1, rest);
        assert(moves_at(ws, i) =~= ms) by {
            assert forall|k: int| 0 <= k < ms.len() implies moves_at(ws, i)[k] == ms[k] by {
                if k > 0 {
                    assert(moves_at(ws, i + 1)[k - 1] == rest[k - 1]);
                }
            }
        }
    } else {
        assert(moves_at(ws, i) =~= ms);
    }
}

/// Where `n` words from `ws[i]` on are no keywords of `sec`, and behind them
/// comes such a keyword or the end of the line, the free text that starts at
/// `ws[i]` is made of these `n` words.
pub proof fn lemma_run(ws: Seq<Seq<char>>, i: int, sec: Section, n: nat)
    requires
        0 <= i,
        i + n <= ws.len(),
        forall|k: int| i <= k < i + n ==> !is_key(sec, #[trigger] ws[k]),
        i + n == ws.len() || is_key(sec, ws[i + n]),
    ensures
        run_len(ws, i, sec) == n,
    decreases n,
{
    if n > 0 {
        lemma_run(ws, i + 1, sec, (n - 1) as nat);
    }
}

/// A word of `n` characters that starts with `c`.
pub open spec fn starts(w: Seq<char>, n: nat, c: char) -> bool {
    w.len() == n && w[0] == c
}

/// The commands are words, and no two of them are spelled alike.
proof fn lemma_command_keys()
    ensures
        is_word("uci"@) && starts("uci"@, 3, 'u'),
        is_word("isready"@) && starts("isready"@, 7, 'i'),
        is_word("ucinewgame"@) && starts("ucinewgame"@, 10, 'u'),
        is_word("stop"@) && starts("stop"@, 4, 's'),
        is_word("ponderhit"@) && starts("ponderhit"@, 9, 'p'),
        is_word("quit"@) && starts("quit"@, 4, 'q'),
        is_word("uciok"@) && starts("uciok"@, 5, 'u'),
        is_word("readyok"@) && starts("readyok"@, 7, 'r'),
        is_word("debug"@) && starts("debug"@, 5, 'd'),
        is_word("bestmove"@) && starts("bestmove"@, 8, 'b'),
        is_word("register"@) && starts("register"@, 8, 'r'),
        is_word("position"@) && starts("position"@, 8, 'p'),
        is_word("setoption"@) && starts("setoption"@, 9, 's'),
        is_word("go"@) && starts("go"@, 2, 'g'),
        is_word("id"@) && starts("id"@, 2, 'i'),
{
    reveal_strlit("uci");
    reveal_strlit("isready");
    reveal_strlit("ucinewgame");
    reveal_strlit("stop");
    reveal_strlit("ponderhit");
    reveal_strlit("quit");
    reveal_strlit("uciok");
    reveal_strlit("readyok");
    reveal_strlit("debug");
    reveal_strlit("bestmove");
    reveal_strlit("register");
    reveal_strlit("position");
    reveal_strlit("setoption");
    reveal_strlit("go");
    reveal_strlit("id");
}

/// What reading the text of `m` must find: the text starts with a command
/// that takes all of its words and gives `m`.
pub open spec fn reads_back(m: MessageView) -> bool {
    let ws = words(join(message_pieces(m)));
    ws.len() > 0 && command_at(ws, 0) == (Some(m), (ws.len() - 1) as nat)
}

/// The messages without parameters are read back.
proof fn lemma_reads_bare(m: MessageView)
    requires
        m is Uci || m is IsReady || m is UciNewGame || m is Stop || m is PonderHit || m is Quit
            || m is UciOk || m is ReadyOk,
    ensures
        reads_back(m),
{
    lemma_command_keys();
    let ps = message_pieces(m);
    assert(ps.len() == 1);
    assert(is_word(ps[0]));
    lemma_words_of_joined_words(ps);
}

/// A `debug` message is read back.
proof fn lemma_reads_debug(m: MessageView)
    requires
        m is Debug,
    ensures
        reads_back(m),
{
    lemma_command_keys();
    reveal_strlit("on");
    reveal_strlit("off");
    let ps = message_pieces(m);
    assert(ps.len() == 2);
    assert(is_word("on"@));
    assert(is_word("off"@));
    assert(is_word(ps[0]) && is_word(ps[1]));
    lemma_words_of_joined_words(ps);
    assert("on"@.len() != "off"@.len());
}

/// A `bestmove` message is read back.
proof fn lemma_reads_best_move(m: MessageView)
    requires
        m is BestMove,
        canonical(m),
    ensures
        reads_back(m),
{
    lemma_command_keys();
    reveal_strlit("ponder");
    assert(is_word("ponder"@));
    let ps = message_pieces(m);
    let best_move = m->best_move;
    lemma_move_reads_back(best_move);
    match m->ponder {
        Some(p) => {
            lemma_move_reads_back(p);
            assert(ps.len() == 4);
            assert(ps[0] == "bestmove"@ && ps[1] == move_text(best_move) && ps[2] == "ponder"@
                && ps[3] == move_text(p));
        },
        None => {
            assert(ps.len() == 2);
            assert(ps[0] == "bestmove"@ && ps[1] == move_text(best_move));
        },
    }
    assert forall|i: int| 0 <= i < ps.len() implies is_word(#[trigger] ps[i]) by {}
    lemma_words_of_joined_words(ps);
}

/// The words that a keyword and its text leave in a line.
pub open spec fn labelled_words(key: Seq<char>, text: Option<Seq<char>>) -> Seq<Seq<char>> {
    match text {
        Some(t) => seq![key] + words(t),
        None => Seq::empty(),
    }
}

/// The words of a keyword and its text are the keyword and the words of the
/// text.
proof fn lemma_labelled_words(key: Seq<char>, text: Option<Seq<char>>)
    requires
        is_word(key),
    ensures
        words(join(labelled(key, text))) == labelled_words(key, text),
{
    match text {
        Some(t) => {
            assert(labelled(key, text) =~= seq![key] + seq![t]);
            lemma_words_join_concat(seq![key], seq![t]);
            lemma_words_of_word(key);
        },
        None => {},
    }
}

/// Where a keyword and the words of a plain text stand at `ws[i]`, and behind
/// them the line ends or another keyword of the command comes, the free text
/// behind the keyword is that text.
proof fn lemma_field(
    ws: Seq<Seq<char>>,
    i: int,
    sec: Section,
    key: Seq<char>,
    t: Seq<char>,
    rest: Seq<Seq<char>>,
)
    requires
        0 <= i <= ws.len(),
        ws.skip(i) == seq![key] + words(t) + rest,
        plain_text(t, sec),
        rest.len() == 0 || is_key(sec, rest[0]),
    ensures
        i + 1 + words(t).len() + rest.len() == ws.len(),
        ws[i] == key,
        run_len(ws, i + 1, sec) == words(t).len(),
        free_text(ws, i + 1, sec) == t,
        ws.skip(i + 1 + words(t).len()) == rest,
{
    let tail = ws.skip(i);
    let n = words(t).len() as int;
    assert(tail.len() == 1 + n + rest.len());
    assert(ws[i] == tail[0]);
    assert forall|k: int| i + 1 <= k < i + 1 + n implies !is_key(sec, #[trigger] ws[k]) by {
        assert(ws[k] == tail[k - i]);
        assert(tail[k - i] == words(t)[k - i - 1]);
    }
    if rest.len() > 0 {
        assert(ws[i + 1 + n] == tail[1 + n]);
        assert(tail[1 + n] == rest[0]);
    }
    lemma_run(ws, i + 1, sec, n as nat);
    assert(ws.subrange(i + 1, i + 1 + n) =~= words(t)) by {
        assert forall|k: int| 0 <= k < n implies ws.subrange(i + 1, i + 1 + n)[k] == words(t)[k] by {
            assert(ws[i + 1 + k] == tail[k + 1]);
        }
    }
    assert(ws.skip(i + 1 + n) =~= rest) by {
        assert forall|k: int| 0 <= k < rest.len() implies ws.skip(i + 1 + n)[k] == rest[k] by {
            assert(ws[i + 1 + n + k] == tail[1 + n + k]);
        }
    }
}

/// The keywords of `register` are words, and no two of them are spelled alike.
proof fn lemma_register_keys()
    ensures
        is_word("later"@) && starts("later"@, 5, 'l'),
        is_word("name"@) && starts("name"@, 4, 'n'),
        is_word("code"@) && starts("code"@, 4, 'c'),
{
    reveal_strlit("later");
    reveal_strlit("name");
    reveal_strlit("code");
}

/// One text of a `register` message, at `ws[i]`, is read into its field.
proof fn lemma_register_field(
    ws: Seq<Seq<char>>,
    i: int,
    st: RegisterState,
    for_name: bool,
    text: Option<Seq<char>>,
    rest: Seq<Seq<char>>,
)
    requires
        0 <= i <= ws.len(),
        ws.skip(i) == labelled_words(
            if for_name {
                "name"@
            } else {
                "code"@
            },
            text,
        ) + rest,
        plain_option(text, Section::Register),
        rest.len() == 0 || is_key(Section::Register, rest[0]),
        text is None ==> (if for_name {
            st.name
        } else {
            st.code
        }) is None,
    ensures
        register_from(ws, i, st) == register_from(
            ws,
            ws.len() - rest.len(),
            if for_name {
                RegisterState { name: text, ..st }
            } else {
                RegisterState { code: text, ..st }
            },
        ),
        ws.skip(ws.len() - rest.len()) == rest,
{
    lemma_register_keys();
    let key = if for_name {
        "name"@
    } else {
        "code"@
    };
    match text {
        Some(t) => {
            lemma_field(ws, i, Section::Register, key, t, rest);
        },
        None => {
            assert(ws.skip(i) =~= rest);
            if for_name {
                assert(RegisterState { name: text, ..st } == st);
            } else {
                assert(RegisterState { code: text, ..st } == st);
            }
        },
    }
}

/// A `register` message is read back.
proof fn lemma_reads_register(m: MessageView)
    requires
        m is Register,
        canonical(m),
    ensures
        reads_back(m),
{
    lemma_command_keys();
    lemma_register_keys();
    let ps = message_pieces(m);
    let ws = words(join(ps));
    let head = seq!["register"@];
    lemma_words_of_word("register"@);
    if m->later {
        assert(is_word(ps[0]) && is_word(ps[1]));
        lemma_words_of_joined_words(ps);
        let st1 = RegisterState { later: true, ..register_start() };
        assert(register_from(ws, 1, register_start()) == register_from(ws, 2, st1));
        assert(register_from(ws, 2, st1) == st1);
    } else {
        let name = m->Register_name;
        let code = m->code;
        let a = labelled("name"@, name);
        let b = labelled("code"@, code);
        let wa = labelled_words("name"@, name);
        let wb = labelled_words("code"@, code);
        lemma_words_join_concat(head + a, b);
        lemma_words_join_concat(head, a);
        lemma_labelled_words("name"@, name);
        lemma_labelled_words("code"@, code);
        assert(ws == head + wa + wb);
        assert(ws.skip(1) =~= wa + wb);
        let st0 = register_start();
        let st1 = RegisterState { name, ..st0 };
        let st2 = RegisterState { code, ..st1 };
        assert(wb.len() > 0 ==> wb[0] == "code"@);
        lemma_register_field(ws, 1, st0, true, name, wb);
        assert(wb + Seq::<Seq<char>>::empty() =~= wb);
        lemma_register_field(ws, ws.len() - wb.len(), st1, false, code, Seq::empty());
        assert(register_from(ws, ws.len() as int, st2) == st2);
    }
}

/// The keywords of `position` are words, and no two of them are spelled alike.
proof fn lemma_position_keys()
    ensures
        is_word("startpos"@) && starts("startpos"@, 8, 's'),
        is_word("fen"@) && starts("fen"@, 3, 'f'),
        is_word("moves"@) && starts("moves"@, 5, 'm'),
{
    reveal_strlit("startpos");
    reveal_strlit("fen");
    reveal_strlit("moves");
}

/// The words that the moves of a `position` message leave in a line.
pub open spec fn moves_words(moves: Seq<UciMove>) -> Seq<Seq<char>> {
    if moves.len() > 0 {
        seq!["moves"@] + move_texts(moves)
    } else {
        Seq::empty()
    }
}

/// The moves of a `position` message, at `ws[i]` and up to the end of the
/// line, are read back.
proof fn lemma_position_moves(ws: Seq<Seq<char>>, i: int, st: PositionState, moves: Seq<UciMove>)
    requires
        0 <= i <= ws.len(),
        ws.skip(i) == moves_words(moves),
        board_moves(moves),
        st.moves.len() == 0,
    ensures
        position_from(ws, i, st) == (PositionState { moves, ..st }),
{
    lemma_position_keys();
    if moves.len() > 0 {
        let tail = ws.skip(i);
        assert(tail.len() == 1 + moves.len());
        assert(ws[i] == tail[0]);
        assert(ws.subrange(i + 1, ws.len() as int) =~= move_texts(moves)) by {
            assert forall|k: int| 0 <= k < moves.len() implies ws.subrange(
                i + 1,
                ws.len() as int,
            )[k] == move_texts(moves)[k] by {
                assert(ws[i + 1 + k] == tail[k + 1]);
            }
        }
        lemma_moves_read_back(ws, i + 1, moves);
        let st1 = PositionState { moves, ..st };
        assert(position_from(ws, i, st) == position_from(ws, ws.len() as int, st1));
        assert(position_from(ws, ws.len() as int, st1) == st1);
    } else {
        assert(st.moves =~= moves);
        assert(ws.skip(i).len() == 0);
    }
}

/// The words that a `position` message leaves in a line.
pub open spec fn position_words(startpos: bool, fen: Option<Seq<char>>, moves: Seq<UciMove>) -> Seq<
    Seq<char>,
> {
    seq!["position"@] + (if startpos {
        seq!["startpos"@]
    } else {
        labelled_words("fen"@, fen)
    }) + moves_words(moves)
}

/// The text of a `position` message falls apart into its keywords, the words
/// of its position and the texts of its moves.
proof fn lemma_position_words(m: MessageView)
    requires
        m is Position,
        board_moves(m->moves),
    ensures
        words(join(message_pieces(m))) == position_words(m->startpos, m->fen, m->moves),
{
    lemma_command_keys();
    lemma_position_keys();
    let startpos = m->startpos;
    let fen = m->fen;
    let moves = m->moves;
    let head = seq!["position"@];
    let a = if startpos {
        seq!["startpos"@]
    } else {
        labelled("fen"@, fen)
    };
    let b = if moves.len() > 0 {
        seq!["moves"@] + move_texts(moves)
    } else {
        Seq::empty()
    };
    lemma_words_of_word("position"@);
    lemma_words_join_concat(head + a, b);
    lemma_words_join_concat(head, a);
    if startpos {
        lemma_words_of_word("startpos"@);
    } else {
        lemma_labelled_words("fen"@, fen);
    }
    lemma_move_texts_are_words(moves);
    if moves.len() > 0 {
        assert forall|k: int| 0 <= k < b.len() implies is_word(#[trigger] b[k]) by {
            if k > 0 {
                assert(b[k] == move_texts(moves)[k - 1]);
            }
        }
        lemma_words_of_joined_words(b);
    }
}

/// The words of a `position` message are read as that message.
proof fn lemma_position_scan(
    ws: Seq<Seq<char>>,
    startpos: bool,
    fen: Option<Seq<char>>,
    moves: Seq<UciMove>,
)
    requires
        ws == position_words(startpos, fen, moves),
        startpos ==> fen is None,
        plain_option(fen, Section::Position),
        board_moves(moves),
    ensures
        position_from(ws, 1, position_start()) == (PositionState { startpos, fen, moves }),
{
    lemma_position_keys();
    let wa = if startpos {
        seq!["startpos"@]
    } else {
        labelled_words("fen"@, fen)
    };
    let wb = moves_words(moves);
    let n = wa.len() as int;
    assert(ws.skip(1) =~= wa + wb);
    assert(ws.skip(1 + n) =~= wb);
    assert(wb.len() > 0 ==> wb[0] == "moves"@);
    let st0 = position_start();
    if startpos {
        let st1 = PositionState { startpos: true, ..st0 };
        assert(ws[1] == "startpos"@);
        assert(position_from(ws, 1, st0) == position_from(ws, 2, st1));
        lemma_position_moves(ws, 2, st1, moves);
    } else {
        match fen {
            Some(f) => {
                let st1 = PositionState { fen, ..st0 };
                lemma_field(ws, 1, Section::Position, "fen"@, f, wb);
                assert(position_from(ws, 1, st0) == position_from(ws, 1 + n, st1));
                lemma_position_moves(ws, 1 + n, st1, moves);
            },
            None => {
                lemma_position_moves(ws, 1, st0, moves);
            },
        }
    }
}

/// A `position` message is read back.
proof fn lemma_reads_position(m: MessageView)
    requires
        m is Position,
        canonical(m),
    ensures
        reads_back(m),
{
    lemma_command_keys();
    lemma_position_words(m);
    let ws = words(join(message_pieces(m)));
    lemma_position_scan(ws, m->startpos, m->fen, m->moves);
    assert(ws[0] == "position"@);
}

/// The keywords of `setoption` and `id` are words, and no two of them are
/// spelled alike.
proof fn lemma_pair_keys()
    ensures
        is_word("name"@) && starts("name"@, 4, 'n'),
        is_word("value"@) && starts("value"@, 5, 'v'),
        is_word("author"@) && starts("author"@, 6, 'a'),
{
    reveal_strlit("name");
    reveal_strlit("value");
    reveal_strlit("author");
}

/// One text of a `setoption` or an `id` message, at `ws[i]`, is read into its
/// field.
proof fn lemma_pair_field(
    ws: Seq<Seq<char>>,
    i: int,
    sec: Section,
    other_key: Seq<char>,
    st: PairState,
    for_name: bool,
    text: Option<Seq<char>>,
    rest: Seq<Seq<char>>,
)
    requires
        0 <= i <= ws.len(),
        (sec == Section::SetOption && other_key == "value"@) || (sec == Section::Id && other_key
            == "author"@),
        ws.skip(i) == labelled_words(
            if for_name {
                "name"@
            } else {
                other_key
            },
            text,
        ) + rest,
        plain_option(text, sec),
        rest.len() == 0 || is_key(sec, rest[0]),
        text is None ==> (if for_name {
            st.name
        } else {
            st.other
        }) is None,
    ensures
        pair_from(ws, i, sec, other_key, st) == pair_from(
            ws,
            ws.len() - rest.len(),
            sec,
            other_key,
            if for_name {
                PairState { name: text, ..st }
            } else {
                PairState { other: text, ..st }
            },
        ),
        ws.skip(ws.len() - rest.len()) == rest,
{
    lemma_pair_keys();
    let key = if for_name {
        "name"@
    } else {
        other_key
    };
    match text {
        Some(t) => {
            lemma_field(ws, i, sec, key, t, rest);
        },
        None => {
            assert(ws.skip(i) =~= rest);
            if for_name {
                assert(PairState { name: text, ..st } == st);
            } else {
                assert(PairState { other: text, ..st } == st);
            }
        },
    }
}

/// A `setoption` message is read back.
proof fn lemma_reads_option(m: MessageView)
    requires
        m is SetOption,
        canonical(m),
    ensures
        reads_back(m),
{
    lemma_command_keys();
    lemma_pair_keys();
    let ps = message_pieces(m);
    let ws = words(join(ps));
    let name = m->SetOption_name;
    let value = m->value;
    let head = seq!["setoption"@];
    let a = labelled("name"@, Some(name));
    let b = labelled("value"@, value);
    let wa = labelled_words("name"@, Some(name));
    let wb = labelled_words("value"@, value);
    assert(ps =~= head + a + b);
    lemma_words_of_word("setoption"@);
    lemma_words_join_concat(head + a, b);
    lemma_words_join_concat(head, a);
    lemma_labelled_words("name"@, Some(name));
    lemma_labelled_words("value"@, value);
    assert(ws == head + wa + wb);
    assert(ws.skip(1) =~= wa + wb);
    let st0 = pair_start();
    let st1 = PairState { name: Some(name), ..st0 };
    let st2 = PairState { other: value, ..st1 };
    assert(wb.len() > 0 ==> wb[0] == "value"@);
    lemma_pair_field(ws, 1, Section::SetOption, "value"@, st0, true, Some(name), wb);
    assert(wb + Seq::<Seq<char>>::empty() =~= wb);
    lemma_pair_field(
        ws,
        ws.len() - wb.len(),
        Section::SetOption,
        "value"@,
        st1,
        false,
        value,
        Seq::empty(),
    );
    assert(pair_from(ws, ws.len() as int, Section::SetOption, "value"@, st2) == st2);
}

/// An `id` message is read back.
proof fn lemma_reads_id(m: MessageView)
    requires
        m is Id,
        canonical(m),
    ensures
        reads_back(m),
{
    lemma_command_keys();
    lemma_pair_keys();
    let ps = message_pieces(m);
    let ws = words(join(ps));
    let name = m->Id_name;
    let author = m->author;
    let head = seq!["id"@];
    let a = labelled("name"@, name);
    let b = labelled("author"@, author);
    let wa = labelled_words("name"@, name);
    let wb = labelled_words("author"@, author);
    assert(ps =~= head + a + b);
    lemma_words_of_word("id"@);
    lemma_words_join_concat(head + a, b);
    lemma_words_join_concat(head, a);
    lemma_labelled_words("name"@, name);
    lemma_labelled_words("author"@, author);
    assert(ws == head + wa + wb);
    assert(ws.skip(1) =~= wa + wb);
    let st0 = pair_start();
    let st1 = PairState { name, ..st0 };
    let st2 = PairState { other: author, ..st1 };
    assert(wb.len() > 0 ==> wb[0] == "author"@);
    lemma_pair_field(ws, 1, Section::Id, "author"@, st0, true, name, wb);
    assert(wb + Seq::<Seq<char>>::empty() =~= wb);
    lemma_pair_field(ws, ws.len() - wb.len(), Section::Id, "author"@, st1, false, author, Seq::empty());
    assert(pair_from(ws, ws.len() as int, Section::Id, "author"@, st2) == st2);
}

/// The keywords of `go` are words, and no two of them are spelled alike.
proof fn lemma_go_keys()
    ensures
        is_word("infinite"@) && starts("infinite"@, 8, 'i'),
        is_word("ponder"@) && starts("ponder"@, 6, 'p'),
        is_word("movetime"@) && starts("movetime"@, 8, 'm'),
        is_word("wtime"@) && starts("wtime"@, 5, 'w'),
        is_word("btime"@) && starts("btime"@, 5, 'b'),
        is_word("bt"@) && starts("bt"@, 2, 'b'),
        is_word("winc"@) && starts("winc"@, 4, 'w'),
        is_word("binc"@) && starts("binc"@, 4, 'b'),
        is_word("movestogo"@) && starts("movestogo"@, 9, 'm'),
        is_word("depth"@) && starts("depth"@, 5, 'd'),
        is_word("nodes"@) && starts("nodes"@, 5, 'n'),
        is_word("mate"@) && starts("mate"@, 4, 'm'),
        is_word("searchmoves"@) && starts("searchmoves"@, 11, 's'),
{
    reveal_strlit("infinite");
    reveal_strlit("ponder");
    reveal_strlit("movetime");
    reveal_strlit("wtime");
    reveal_strlit("btime");
    reveal_strlit("bt");
    reveal_strlit("winc");
    reveal_strlit("binc");
    reveal_strlit("movestogo");
    reveal_strlit("depth");
    reveal_strlit("nodes");
    reveal_strlit("mate");
    reveal_strlit("searchmoves");
}

/// Where a keyword and a numeral stand at `ws[i]`, the numeral is the number
/// that is read behind the keyword.
proof fn lemma_go_value(ws: Seq<Seq<char>>, i: int, key: Seq<char>, n: nat, rest: Seq<Seq<char>>)
    requires
        0 <= i <= ws.len(),
        ws.skip(i) == seq![key, decimal(n)] + rest,
    ensures
        i + 2 + rest.len() == ws.len(),
        ws[i] == key,
        n <= u64::MAX ==> number_at(ws, i + 1) == Some(n as u64),
        n <= u8::MAX ==> small_number_at(ws, i + 1) == Some(n as u8),
        ws.skip(i + 2) == rest,
{
    let tail = ws.skip(i);
    assert(tail.len() == 2 + rest.len());
    assert(ws[i] == tail[0]);
    assert(ws[i + 1] == tail[1]);
    lemma_decimal_reads_back(n);
    assert(ws.skip(i + 2) =~= rest) by {
        assert forall|k: int| 0 <= k < rest.len() implies ws.skip(i + 2)[k] == rest[k] by {
            assert(ws[i + 2 + k] == tail[2 + k]);
        }
    }
}

/// The keyword under which a clock is written.
pub open spec fn clock_key(which: Clock) -> Seq<char> {
    match which {
        Clock::WhiteTime => "wtime"@,
        Clock::BlackTime => "bt"@,
        Clock::WhiteIncrement => "winc"@,
        Clock::BlackIncrement => "binc"@,
    }
}

/// A clock of a `go` message, at `ws[i]`, is read into its field.
proof fn lemma_go_clock(
    ws: Seq<Seq<char>>,
    i: int,
    st: GoState,
    which: Clock,
    v: Option<u64>,
    rest: Seq<Seq<char>>,
)
    requires
        0 <= i <= ws.len(),
        ws.skip(i) == numbered(clock_key(which), v) + rest,
    ensures
        ws.skip(ws.len() - rest.len()) == rest,
        go_from(ws, i, st) == go_from(
            ws,
            ws.len() - rest.len(),
            match v {
                Some(x) => GoState {
                    time_control: Some(set_clock(st.time_control, which, x)),
                    ..st
                },
                None => st,
            },
        ),
{
    lemma_go_keys();
    match v {
        Some(x) => {
            lemma_go_value(ws, i, clock_key(which), x as nat, rest);
            assert(clock_of(ws[i]) == Some(which));
            assert(go_step(ws, i, st) == (
                1nat,
                GoState { time_control: Some(set_clock(st.time_control, which, x)), ..st },
            ));
        },
        None => {
            assert(ws.skip(i) =~= rest);
        },
    }
}

/// The number of moves to go of a `go` message, at `ws[i]`, is read into its
/// field.
proof fn lemma_go_moves_to_go(
    ws: Seq<Seq<char>>,
    i: int,
    st: GoState,
    v: Option<u8>,
    rest: Seq<Seq<char>>,
)
    requires
        0 <= i <= ws.len(),
        ws.skip(i) == numbered_small("movestogo"@, v) + rest,
    ensures
        ws.skip(ws.len() - rest.len()) == rest,
        go_from(ws, i, st) == go_from(
            ws,
            ws.len() - rest.len(),
            match v {
                Some(x) => GoState { time_control: Some(set_moves_to_go(st.time_control, x)), ..st },
                None => st,
            },
        ),
{
    lemma_go_keys();
    match v {
        Some(x) => {
            lemma_go_value(ws, i, "movestogo"@, x as nat, rest);
            assert(clock_of(ws[i]) is None);
            assert(go_step(ws, i, st) == (
                1nat,
                GoState { time_control: Some(set_moves_to_go(st.time_control, x)), ..st },
            ));
        },
        None => {
            assert(ws.skip(i) =~= rest);
        },
    }
}

/// The time control that clocks make: none where no clock is given.
pub open spec fn clocks_given(
    white_time: Option<u64>,
    black_time: Option<u64>,
    white_increment: Option<u64>,
    black_increment: Option<u64>,
    moves_to_go: Option<u8>,
) -> Option<UciTimeControl> {
    if white_time is None && black_time is None && white_increment is None && black_increment
        is None && moves_to_go is None {
        None
    } else {
        Some(
            UciTimeControl::TimeLeft {
                white_time,
                black_time,
                white_increment,
                black_increment,
                moves_to_go,
            },
        )
    }
}

/// The clocks of a `go` message, from `ws[i]` on, are read back.
proof fn lemma_go_clocks(
    ws: Seq<Seq<char>>,
    i: int,
    st: GoState,
    white_time: Option<u64>,
    black_time: Option<u64>,
    white_increment: Option<u64>,
    black_increment: Option<u64>,
    moves_to_go: Option<u8>,
    rest: Seq<Seq<char>>,
)
    requires
        0 <= i <= ws.len(),
        st.time_control is None,
        ws.skip(i) == numbered("wtime"@, white_time) + numbered("bt"@, black_time) + numbered(
            "winc"@,
            white_increment,
        ) + numbered("binc"@, black_increment) + numbered_small("movestogo"@, moves_to_go) + rest,
    ensures
        ws.skip(ws.len() - rest.len()) == rest,
        go_from(ws, i, st) == go_from(
            ws,
            ws.len() - rest.len(),
            GoState {
                time_control: clocks_given(
                    white_time,
                    black_time,
                    white_increment,
                    black_increment,
                    moves_to_go,
                ),
                ..st
            },
        ),
{
    let a = numbered("wtime"@, white_time);
    let b = numbered("bt"@, black_time);
    let c = numbered("winc"@, white_increment);
    let d = numbered("binc"@, black_increment);
    let e = numbered_small("movestogo"@, moves_to_go);
    let r1 = b + c + d + e + rest;
    let r2 = c + d + e + rest;
    let r3 = d + e + rest;
    let r4 = e + rest;
    assert(ws.skip(i) =~= a + r1);
    let st1 = GoState { time_control: clocks_given(white_time, None, None, None, None), ..st };
    lemma_go_clock(ws, i, st, Clock::WhiteTime, white_time, r1);
    assert(r1 =~= b + r2);
    let st2 = GoState { time_control: clocks_given(white_time, black_time, None, None, None), ..st };
    lemma_go_clock(ws, ws.len() - r1.len(), st1, Clock::BlackTime, black_time, r2);
    assert(r2 =~= c + r3);
    let st3 = GoState {
        time_control: clocks_given(white_time, black_time, white_increment, None, None),
        ..st
    };
    lemma_go_clock(ws, ws.len() - r2.len(), st2, Clock::WhiteIncrement, white_increment, r3);
    assert(r3 =~= d + r4);
    let st4 = GoState {
        time_control: clocks_given(white_time, black_time, white_increment, black_increment, None),
        ..st
    };
    lemma_go_clock(ws, ws.len() - r3.len(), st3, Clock::BlackIncrement, black_increment, r4);
    lemma_go_moves_to_go(ws, ws.len() - r4.len(), st4, moves_to_go, rest);
}

/// The time control of a `go` message, from `ws[i]` on, is read back.
proof fn lemma_go_time(
    ws: Seq<Seq<char>>,
    i: int,
    st: GoState,
    tc: Option<UciTimeControl>,
    rest: Seq<Seq<char>>,
)
    requires
        0 <= i <= ws.len(),
        st.time_control is None,
        tc != Some(UciTimeControl::no_time_left()),
        ws.skip(i) == time_control_pieces(tc) + rest,
    ensures
        ws.skip(ws.len() - rest.len()) == rest,
        go_from(ws, i, st) == go_from(ws, ws.len() - rest.len(), GoState { time_control: tc, ..st }),
{
    lemma_go_keys();
    let tail = ws.skip(i);
    match tc {
        None => {
            assert(tail =~= rest);
            assert(GoState { time_control: tc, ..st } == st);
        },
        Some(UciTimeControl::Infinite) => {
            assert(tail.len() == 1 + rest.len());
            assert(ws[i] == tail[0]);
            assert(ws.skip(i + 1) =~= rest) by {
                assert forall|k: int| 0 <= k < rest.len() implies ws.skip(i + 1)[k] == rest[k] by {
                    assert(ws[i + 1 + k] == tail[1 + k]);
                }
            }
            assert(go_step(ws, i, st) == (0nat, GoState { time_control: tc, ..st }));
        },
        Some(UciTimeControl::Ponder) => {
            assert(tail.len() == 1 + rest.len());
            assert(ws[i] == tail[0]);
            assert(ws.skip(i + 1) =~= rest) by {
                assert forall|k: int| 0 <= k < rest.len() implies ws.skip(i + 1)[k] == rest[k] by {
                    assert(ws[i + 1 + k] == tail[1 + k]);
                }
            }
            assert(go_step(ws, i, st) == (0nat, GoState { time_control: tc, ..st }));
        },
        Some(UciTimeControl::MoveTime(ms)) => {
            lemma_go_value(ws, i, "movetime"@, ms as nat, rest);
            assert(go_step(ws, i, st) == (1nat, GoState { time_control: tc, ..st }));
        },
        Some(
            UciTimeControl::TimeLeft {
                white_time,
                black_time,
                white_increment,
                black_increment,
                moves_to_go,
            },
        ) => {
            lemma_go_clocks(
                ws,
                i,
                st,
                white_time,
                black_time,
                white_increment,
                black_increment,
                moves_to_go,
                rest,
            );
        },
    }
}

/// A small number of a search control, at `ws[i]`, is read into its field.
proof fn lemma_go_small(
    ws: Seq<Seq<char>>,
    i: int,
    st: GoState,
    for_depth: bool,
    v: Option<u8>,
    rest: Seq<Seq<char>>,
)
    requires
        0 <= i <= ws.len(),
        ws.skip(i) == numbered_small(
            if for_depth {
                "depth"@
            } else {
                "mate"@
            },
            v,
        ) + rest,
    ensures
        ws.skip(ws.len() - rest.len()) == rest,
        go_from(ws, i, st) == go_from(
            ws,
            ws.len() - rest.len(),
            match v {
                Some(x) => if for_depth {
                    GoState { search: SearchControlView { depth: Some(x), ..st.search }, ..st }
                } else {
                    GoState { search: SearchControlView { mate: Some(x), ..st.search }, ..st }
                },
                None => st,
            },
        ),
{
    lemma_go_keys();
    let key = if for_depth {
        "depth"@
    } else {
        "mate"@
    };
    match v {
        Some(x) => {
            lemma_go_value(ws, i, key, x as nat, rest);
            assert(clock_of(ws[i]) is None);
        },
        None => {
            assert(ws.skip(i) =~= rest);
        },
    }
}

/// The number of nodes of a search control, at `ws[i]`, is read into its
/// field.
proof fn lemma_go_nodes(
    ws: Seq<Seq<char>>,
    i: int,
    st: GoState,
    v: Option<u64>,
    rest: Seq<Seq<char>>,
)
    requires
        0 <= i <= ws.len(),
        ws.skip(i) == numbered("nodes"@, v) + rest,
    ensures
        ws.skip(ws.len() - rest.len()) == rest,
        go_from(ws, i, st) == go_from(
            ws,
            ws.len() - rest.len(),
            match v {
                Some(x) => GoState {
                    search: SearchControlView { nodes: Some(x), ..st.search },
                    ..st
                },
                None => st,
            },
        ),
{
    lemma_go_keys();
    match v {
        Some(x) => {
            lemma_go_value(ws, i, "nodes"@, x as nat, rest);
            assert(clock_of(ws[i]) is None);
        },
        None => {
            assert(ws.skip(i) =~= rest);
        },
    }
}

/// The moves of a search control, at `ws[i]` and up to the end of the line,
/// are read back.
proof fn lemma_go_search_moves(ws: Seq<Seq<char>>, i: int, st: GoState, moves: Seq<UciMove>)
    requires
        0 <= i <= ws.len(),
        ws.skip(i) == search_moves_pieces(moves),
        board_moves(moves),
        st.search.search_moves.len() == 0,
    ensures
        go_from(ws, i, st) == (GoState {
            search: SearchControlView { search_moves: moves, ..st.search },
            ..st
        }),
{
    lemma_go_keys();
    if moves.len() > 0 {
        let tail = ws.skip(i);
        assert(tail.len() == 1 + moves.len());
        assert(ws[i] == tail[0]);
        assert(ws.subrange(i + 1, ws.len() as int) =~= move_texts(moves)) by {
            assert forall|k: int| 0 <= k < moves.len() implies ws.subrange(
                i + 1,
                ws.len() as int,
            )[k] == move_texts(moves)[k] by {
                assert(ws[i + 1 + k] == tail[k + 1]);
            }
        }
        lemma_moves_read_back(ws, i + 1, moves);
        let st1 = GoState { search: SearchControlView { search_moves: moves, ..st.search }, ..st };
        assert(clock_of(ws[i]) is None);
        assert(go_step(ws, i, st) == (moves.len(), st1));
        assert(go_from(ws, i, st) == go_from(ws, ws.len() as int, st1));
        assert(go_from(ws, ws.len() as int, st1) == st1);
    } else {
        assert(st.search.search_moves =~= moves);
        assert(ws.skip(i).len() == 0);
    }
}

/// The search control of a `go` message, at `ws[i]` and up to the end of the
/// line, is read back.
proof fn lemma_go_search(ws: Seq<Seq<char>>, i: int, st: GoState, c: SearchControlView)
    requires
        0 <= i <= ws.len(),
        ws.skip(i) == search_control_pieces(Some(c)),
        board_moves(c.search_moves),
        st.search == go_start().search,
    ensures
        go_from(ws, i, st) == (GoState { search: c, ..st }),
{
    let a = numbered_small("depth"@, c.depth);
    let b = numbered("nodes"@, c.nodes);
    let d = numbered_small("mate"@, c.mate);
    let e = search_moves_pieces(c.search_moves);
    let r1 = b + d + e;
    let r2 = d + e;
    assert(ws.skip(i) =~= a + r1);
    lemma_go_small(ws, i, st, true, c.depth, r1);
    let st1 = GoState { search: SearchControlView { depth: c.depth, ..st.search }, ..st };
    assert(r1 =~= b + r2);
    lemma_go_nodes(ws, ws.len() - r1.len(), st1, c.nodes, r2);
    let st2 = GoState { search: SearchControlView { nodes: c.nodes, ..st1.search }, ..st };
    lemma_go_small(ws, ws.len() - r2.len(), st2, false, c.mate, e);
    let st3 = GoState { search: SearchControlView { mate: c.mate, ..st2.search }, ..st };
    lemma_go_search_moves(ws, ws.len() - e.len(), st3, c.search_moves);
}

/// The pieces of a `go` message are words.
proof fn lemma_go_pieces_are_words(m: MessageView)
    requires
        m is Go,
        canonical(m),
    ensures
        words(join(message_pieces(m))) == message_pieces(m),
{
    lemma_command_keys();
    lemma_go_keys();
    let ps = message_pieces(m);
    let t = time_control_pieces(m->time_control);
    let s = search_control_pieces(m->search_control);
    assert forall|k: int| 0 <= k < t.len() implies is_word(#[trigger] t[k]) by {
        lemma_time_pieces_are_words(m->time_control, k);
    }
    assert forall|k: int| 0 <= k < s.len() implies is_word(#[trigger] s[k]) by {
        lemma_search_pieces_are_words(m->search_control->0, k);
    }
    assert forall|k: int| 0 <= k < ps.len() implies is_word(#[trigger] ps[k]) by {
        if k == 0 {
        } else if k < 1 + t.len() {
            assert(ps[k] == t[k - 1]);
        } else {
            assert(ps[k] == s[k - 1 - t.len()]);
        }
    }
    lemma_words_of_joined_words(ps);
}

/// A keyword and a numeral are words.
proof fn lemma_numbered_are_words(key: Seq<char>, n: nat, k: int)
    requires
        is_word(key),
        0 <= k < 2,
    ensures
        is_word(seq![key, decimal(n)][k]),
{
    lemma_decimal_is_word(n);
}

/// Each piece of a time control is a word.
proof fn lemma_time_pieces_are_words(tc: Option<UciTimeControl>, k: int)
    requires
        0 <= k < time_control_pieces(tc).len(),
    ensures
        is_word(time_control_pieces(tc)[k]),
{
    lemma_go_keys();
    match tc {
        Some(UciTimeControl::MoveTime(ms)) => {
            lemma_numbered_are_words("movetime"@, ms as nat, k);
        },
        Some(
            UciTimeControl::TimeLeft {
                white_time,
                black_time,
                white_increment,
                black_increment,
                moves_to_go,
            },
        ) => {
            let a = numbered("wtime"@, white_time);
            let b = numbered("bt"@, black_time);
            let c = numbered("winc"@, white_increment);
            let d = numbered("binc"@, black_increment);
            let e = numbered_small("movestogo"@, moves_to_go);
            let all = a + b + c + d + e;
            if k < a.len() {
                lemma_numbered_are_words("wtime"@, white_time->0 as nat, k);
                assert(all[k] == a[k]);
            } else if k < a.len() + b.len() {
                lemma_numbered_are_words("bt"@, black_time->0 as nat, k - a.len());
                assert(all[k] == b[k - a.len()]);
            } else if k < a.len() + b.len() + c.len() {
                lemma_numbered_are_words(
                    "winc"@,
                    white_increment->0 as nat,
                    k - a.len() - b.len(),
                );
                assert(all[k] == c[k - a.len() - b.len()]);
            } else if k < a.len() + b.len() + c.len() + d.len() {
                lemma_numbered_are_words(
                    "binc"@,
                    black_increment->0 as nat,
                    k - a.len() - b.len() - c.len(),
                );
                assert(all[k] == d[k - a.len() - b.len() - c.len()]);
            } else {
                lemma_numbered_are_words(
                    "movestogo"@,
                    moves_to_go->0 as nat,
                    k - a.len() - b.len() - c.len() - d.len(),
                );
                assert(all[k] == e[k - a.len() - b.len() - c.len() - d.len()]);
            }
        },
        _ => {},
    }
}

/// Each piece of a search control is a word.
proof fn lemma_search_pieces_are_words(c: SearchControlView, k: int)
    requires
        0 <= k < search_control_pieces(Some(c)).len(),
        board_moves(c.search_moves),
    ensures
        is_word(search_control_pieces(Some(c))[k]),
{
    lemma_go_keys();
    let a = numbered_small("depth"@, c.depth);
    let b = numbered("nodes"@, c.nodes);
    let d = numbered_small("mate"@, c.mate);
    let e = search_moves_pieces(c.search_moves);
    let all = a + b + d + e;
    if k < a.len() {
        lemma_numbered_are_words("depth"@, c.depth->0 as nat, k);
        assert(all[k] == a[k]);
    } else if k < a.len() + b.len() {
        lemma_numbered_are_words("nodes"@, c.nodes->0 as nat, k - a.len());
        assert(all[k] == b[k - a.len()]);
    } else if k < a.len() + b.len() + d.len() {
        lemma_numbered_are_words("mate"@, c.mate->0 as nat, k - a.len() - b.len());
        assert(all[k] == d[k - a.len() - b.len()]);
    } else {
        let j = k - a.len() - b.len() - d.len();
        assert(all[k] == e[j]);
        if j > 0 {
            lemma_move_reads_back(c.search_moves[j - 1]);
            assert(e[j] == move_texts(c.search_moves)[j - 1]);
        }
    }
}

/// A `go` message is read back.
proof fn lemma_reads_go(m: MessageView)
    requires
        m is Go,
        canonical(m),
    ensures
        reads_back(m),
{
    lemma_command_keys();
    lemma_go_pieces_are_words(m);
    let ws = message_pieces(m);
    let tc = m->time_control;
    let sc = m->search_control;
    let t = time_control_pieces(tc);
    let s = search_control_pieces(sc);
    assert(ws.skip(1) =~= t + s);
    assert(ws[0] == "go"@);
    let st0 = go_start();
    let st1 = GoState { time_control: tc, ..st0 };
    lemma_go_time(ws, 1, st0, tc, s);
    match sc {
        Some(c) => {
            lemma_go_search(ws, ws.len() - s.len(), st1, c);
        },
        None => {
            assert(go_from(ws, ws.len() as int, st1) == st1);
        },
    }
}

/// Reading the text of a message gives that message and no other.
///
/// This holds of every message that a line can stand for ([`canonical`]). It
/// does not hold, for one, of a `register later` that carries a name: its text
/// is `register later`, which is read as a `register later` without a name.
pub proof fn lemma_round_trip(m: MessageView)
    requires
        canonical(m),
    ensures
        decode(message_text(m)) == seq![m],
{
    match m {
        MessageView::Debug(_) => lemma_reads_debug(m),
        MessageView::Register { .. } => lemma_reads_register(m),
        MessageView::Position { .. } => lemma_reads_position(m),
        MessageView::SetOption { .. } => lemma_reads_option(m),
        MessageView::Go { .. } => lemma_reads_go(m),
        MessageView::Id { .. } => lemma_reads_id(m),
        MessageView::BestMove { .. } => lemma_reads_best_move(m),
        _ => lemma_reads_bare(m),
    }
    let text = join(message_pieces(m));
    let ws = words(text);
    assert(words(message_text(m)) == ws) by {
        if m is Go {
            assert(text.push(' ').drop_last() =~= text);
        }
    }
    assert(messages_from(ws, ws.len() as int) =~= Seq::empty());
    assert(messages_from(ws, 0) =~= seq![m]);
}

} // verus!
