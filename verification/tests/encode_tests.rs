use vampirc_uci::uci::{
    UciFen, UciMessage, UciMove, UciPiece, UciSearchControl, UciSquare, UciTimeControl,
};

fn mv(f1: char, r1: u8, f2: char, r2: u8) -> UciMove {
    UciMove::from_to(UciSquare::from(f1, r1), UciSquare::from(f2, r2))
}

fn some(text: &str) -> Option<String> {
    Some(String::from(text))
}

#[test]
fn serialize_commands_without_parameters() {
    assert_eq!(UciMessage::Uci.serialize(), "uci");
    assert_eq!(UciMessage::IsReady.serialize(), "isready");
    assert_eq!(UciMessage::UciNewGame.serialize(), "ucinewgame");
    assert_eq!(UciMessage::Stop.serialize(), "stop");
    assert_eq!(UciMessage::PonderHit.serialize(), "ponderhit");
    assert_eq!(UciMessage::Quit.serialize(), "quit");
    assert_eq!(UciMessage::UciOk.serialize(), "uciok");
    assert_eq!(UciMessage::ReadyOk.serialize(), "readyok");
}

#[test]
fn serialize_debug() {
    assert_eq!(UciMessage::Debug(true).serialize(), "debug on");
    assert_eq!(UciMessage::Debug(false).serialize(), "debug off");
}

#[test]
fn serialize_register_later_whatever_else_is_set() {
    assert_eq!(UciMessage::register_later().serialize(), "register later");
    let m = UciMessage::Register { later: true, name: some("Matija"), code: some("42") };
    assert_eq!(m.serialize(), "register later");
    let m = UciMessage::Register { later: true, name: None, code: some("42") };
    assert_eq!(m.serialize(), "register later");
}

#[test]
fn serialize_register() {
    assert_eq!(
        UciMessage::register_code("Matija Kejzar", "4359874324").serialize(),
        "register name Matija Kejzar code 4359874324"
    );
    let m = UciMessage::Register { later: false, name: some("Matija Kejzar"), code: None };
    assert_eq!(m.serialize(), "register name Matija Kejzar");
    let m = UciMessage::Register { later: false, name: None, code: some("4359874324") };
    assert_eq!(m.serialize(), "register code 4359874324");
    let m = UciMessage::Register { later: false, name: None, code: None };
    assert_eq!(m.serialize(), "register");
}

#[test]
fn serialize_position() {
    let moves = vec![mv('e', 2, 'e', 4), mv('e', 7, 'e', 5)];
    let m = UciMessage::Position { startpos: true, fen: None, moves: vec![] };
    assert_eq!(m.serialize(), "position startpos");
    let m = UciMessage::Position { startpos: true, fen: None, moves: moves.clone() };
    assert_eq!(m.serialize(), "position startpos moves e2e4 e7e5");
    let fen = "2k5/6PR/8/8/2b4P/8/6K1/8 w - - 0 53";
    let m = UciMessage::Position { startpos: false, fen: Some(UciFen::from(fen)), moves: vec![] };
    assert_eq!(m.serialize(), "position fen 2k5/6PR/8/8/2b4P/8/6K1/8 w - - 0 53");
    let m = UciMessage::Position {
        startpos: false,
        fen: Some(UciFen::from(fen)),
        moves: vec![mv('g', 7, 'g', 8)],
    };
    assert_eq!(m.serialize(), "position fen 2k5/6PR/8/8/2b4P/8/6K1/8 w - - 0 53 moves g7g8");
    let m = UciMessage::Position { startpos: true, fen: Some(UciFen::from(fen)), moves: vec![] };
    assert_eq!(m.serialize(), "position startpos");
    let m = UciMessage::Position { startpos: false, fen: None, moves: vec![] };
    assert_eq!(m.serialize(), "position");
    let m = UciMessage::Position { startpos: false, fen: None, moves };
    assert_eq!(m.serialize(), "position moves e2e4 e7e5");
}

#[test]
fn serialize_setoption() {
    let m = UciMessage::SetOption { name: String::from("Nullmove"), value: some("true") };
    assert_eq!(m.serialize(), "setoption name Nullmove value true");
    let m = UciMessage::SetOption { name: String::from("Clear Hash"), value: None };
    assert_eq!(m.serialize(), "setoption name Clear Hash");
    let m = UciMessage::SetOption { name: String::from("Style"), value: some("Risky  Play") };
    assert_eq!(m.serialize(), "setoption name Style value Risky  Play");
}

#[test]
fn serialize_go_without_parameters() {
    let m = UciMessage::Go { time_control: None, search_control: None };
    assert_eq!(m.serialize(), "go ");
    let m = UciMessage::Go {
        time_control: Some(UciTimeControl::time_left()),
        search_control: Some(UciSearchControl::default()),
    };
    assert_eq!(m.serialize(), "go ");
}

#[test]
fn serialize_go_time_control() {
    assert_eq!(UciMessage::go_infinite().serialize(), "go infinite ");
    assert_eq!(UciMessage::go_ponder().serialize(), "go ponder ");
    assert_eq!(UciMessage::go_movetime(55055).serialize(), "go movetime 55055 ");
    assert_eq!(UciMessage::go_movetime(0).serialize(), "go movetime 0 ");
    assert_eq!(
        UciMessage::go_movetime(18446744073709551615).serialize(),
        "go movetime 18446744073709551615 "
    );
    let m = UciMessage::Go {
        time_control: Some(UciTimeControl::TimeLeft {
            white_time: Some(300000),
            black_time: Some(290000),
            white_increment: Some(10),
            black_increment: Some(20),
            moves_to_go: Some(40),
        }),
        search_control: None,
    };
    assert_eq!(m.serialize(), "go wtime 300000 bt 290000 winc 10 binc 20 movestogo 40 ");
    let m = UciMessage::Go {
        time_control: Some(UciTimeControl::TimeLeft {
            white_time: None,
            black_time: Some(5),
            white_increment: None,
            black_increment: None,
            moves_to_go: Some(255),
        }),
        search_control: None,
    };
    assert_eq!(m.serialize(), "go bt 5 movestogo 255 ");
}

#[test]
fn serialize_go_search_control() {
    let m = UciMessage::Go { time_control: None, search_control: Some(UciSearchControl::depth(6)) };
    assert_eq!(m.serialize(), "go depth 6 ");
    let m = UciMessage::Go { time_control: None, search_control: Some(UciSearchControl::nodes(79)) };
    assert_eq!(m.serialize(), "go nodes 79 ");
    let m = UciMessage::Go { time_control: None, search_control: Some(UciSearchControl::mate(3)) };
    assert_eq!(m.serialize(), "go mate 3 ");
    let m = UciMessage::Go {
        time_control: Some(UciTimeControl::Infinite),
        search_control: Some(UciSearchControl {
            search_moves: vec![mv('e', 2, 'e', 4), mv('d', 2, 'd', 4)],
            mate: Some(3),
            depth: Some(6),
            nodes: Some(79093455456),
        }),
    };
    assert_eq!(
        m.serialize(),
        "go infinite depth 6 nodes 79093455456 mate 3 searchmoves e2e4 d2d4 "
    );
    let m = UciMessage::Go {
        time_control: None,
        search_control: Some(UciSearchControl {
            search_moves: vec![mv('a', 1, 'h', 8)],
            mate: None,
            depth: None,
            nodes: None,
        }),
    };
    assert_eq!(m.serialize(), "go searchmoves a1h8 ");
}

#[test]
fn serialize_id() {
    assert_eq!(UciMessage::Id { name: None, author: None }.serialize(), "id");
    let both = UciMessage::Id { name: some("Vampirc 0.5.0"), author: some("Matija Kejzar") };
    assert_eq!(both.serialize(), "id name Vampirc 0.5.0");
}

#[test]
fn serialize_bestmove_with_promotion() {
    let promote = UciMove {
        from: UciSquare::from('b', 7),
        to: UciSquare::from('b', 8),
        promotion: Some(UciPiece::Queen),
    };
    assert_eq!(UciMessage::best_move(promote).serialize(), "bestmove b7b8q");
    assert_eq!(
        UciMessage::best_move_with_ponder(mv('a', 1, 'a', 7), promote).serialize(),
        "bestmove a1a7 ponder b7b8q"
    );
}

#[test]
fn to_string_is_serialize() {
    let m = UciMessage::register_code("A", "B");
    assert_eq!(m.to_string(), m.serialize());
    assert_eq!(UciMessage::Uci.to_string(), "uci");
}
