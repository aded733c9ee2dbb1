use vampirc_uci::parser::parse;
use vampirc_uci::uci::{
    UciFen, UciMessage, UciMove, UciPiece, UciSearchControl, UciSquare, UciTimeControl,
};

fn mv(f1: char, r1: u8, f2: char, r2: u8) -> UciMove {
    UciMove::from_to(UciSquare::from(f1, r1), UciSquare::from(f2, r2))
}

fn promote(f1: char, r1: u8, f2: char, r2: u8, p: UciPiece) -> UciMove {
    UciMove { from: UciSquare::from(f1, r1), to: UciSquare::from(f2, r2), promotion: Some(p) }
}

fn some(text: &str) -> Option<String> {
    Some(String::from(text))
}

fn reads_back(m: UciMessage) {
    let text = m.serialize();
    assert_eq!(parse(text.as_str()), vec![m], "{}", text);
}

#[test]
fn round_trip_commands_without_parameters() {
    reads_back(UciMessage::Uci);
    reads_back(UciMessage::IsReady);
    reads_back(UciMessage::UciNewGame);
    reads_back(UciMessage::Stop);
    reads_back(UciMessage::PonderHit);
    reads_back(UciMessage::Quit);
    reads_back(UciMessage::UciOk);
    reads_back(UciMessage::ReadyOk);
    reads_back(UciMessage::Debug(true));
    reads_back(UciMessage::Debug(false));
}

#[test]
fn round_trip_register() {
    reads_back(UciMessage::register_later());
    reads_back(UciMessage::register_code("Matija Kejzar", "4359874324"));
    reads_back(UciMessage::Register { later: false, name: some("Matija"), code: None });
    reads_back(UciMessage::Register { later: false, name: None, code: some("43 59") });
    reads_back(UciMessage::Register { later: false, name: None, code: None });
    reads_back(UciMessage::Register { later: false, name: some(""), code: some("") });
}

#[test]
fn round_trip_position() {
    let moves = vec![mv('e', 2, 'e', 4), mv('e', 7, 'e', 5), promote('a', 7, 'a', 8, UciPiece::Knight)];
    let fen = UciFen::from("rnbqkbnr/pppppppp/8/8/8/8/PPPPPPPP/RNBQKBNR w KQkq - 0 1");
    reads_back(UciMessage::Position { startpos: true, fen: None, moves: vec![] });
    reads_back(UciMessage::Position { startpos: true, fen: None, moves: moves.clone() });
    reads_back(UciMessage::Position { startpos: false, fen: Some(fen.clone()), moves: vec![] });
    reads_back(UciMessage::Position { startpos: false, fen: Some(fen), moves: moves.clone() });
    reads_back(UciMessage::Position { startpos: false, fen: None, moves: vec![] });
    reads_back(UciMessage::Position { startpos: false, fen: None, moves });
}

#[test]
fn round_trip_setoption() {
    reads_back(UciMessage::SetOption { name: String::from("Nullmove"), value: some("true") });
    reads_back(UciMessage::SetOption { name: String::from("Clear Hash"), value: None });
    reads_back(UciMessage::SetOption { name: String::from("Nalimov Path"), value: some("c:\\chess\\tb 4 5") });
    reads_back(UciMessage::SetOption { name: String::from(""), value: some("") });
}

#[test]
fn round_trip_go() {
    reads_back(UciMessage::Go { time_control: None, search_control: None });
    reads_back(UciMessage::go_infinite());
    reads_back(UciMessage::go_ponder());
    reads_back(UciMessage::go_movetime(0));
    reads_back(UciMessage::go_movetime(18446744073709551615));
    let clocks = vec![None, Some(0u64), Some(300000)];
    let to_go = vec![None, Some(0u8), Some(255)];
    for wt in clocks.iter() {
        for bt in clocks.iter() {
            for wi in clocks.iter() {
                for bi in clocks.iter() {
                    for mtg in to_go.iter() {
                        if wt.is_none() && bt.is_none() && wi.is_none() && bi.is_none() && mtg.is_none() {
                            continue;
                        }
                        reads_back(UciMessage::Go {
                            time_control: Some(UciTimeControl::TimeLeft {
                                white_time: *wt,
                                black_time: *bt,
                                white_increment: *wi,
                                black_increment: *bi,
                                moves_to_go: *mtg,
                            }),
                            search_control: None,
                        });
                    }
                }
            }
        }
    }
}

#[test]
fn round_trip_go_with_search_control() {
    let times = vec![
        None,
        Some(UciTimeControl::Infinite),
        Some(UciTimeControl::Ponder),
        Some(UciTimeControl::MoveTime(77)),
        Some(UciTimeControl::TimeLeft {
            white_time: Some(1),
            black_time: None,
            white_increment: None,
            black_increment: Some(2),
            moves_to_go: None,
        }),
    ];
    let moves = vec![vec![], vec![mv('e', 2, 'e', 4)], vec![mv('e', 2, 'e', 4), promote('h', 2, 'h', 1, UciPiece::Queen)]];
    let small = vec![None, Some(0u8), Some(255)];
    let large = vec![None, Some(79093455456u64)];
    for tc in times.iter() {
        for ms in moves.iter() {
            for depth in small.iter() {
                for mate in small.iter() {
                    for nodes in large.iter() {
                        let sc = UciSearchControl {
                            search_moves: ms.clone(),
                            mate: *mate,
                            depth: *depth,
                            nodes: *nodes,
                        };
                        if sc.is_empty() {
                            continue;
                        }
                        reads_back(UciMessage::Go { time_control: tc.clone(), search_control: Some(sc) });
                    }
                }
            }
        }
    }
}

#[test]
fn round_trip_id() {
    reads_back(UciMessage::id_name("Vampirc 0.5.0"));
    reads_back(UciMessage::id_author("Matija Kejzar"));
    reads_back(UciMessage::Id { name: None, author: None });
}

#[test]
fn round_trip_bestmove() {
    for file in "abcdefgh".chars() {
        for rank in 1..=8u8 {
            reads_back(UciMessage::best_move(mv(file, rank, 'd', 4)));
            reads_back(UciMessage::best_move_with_ponder(mv('d', 4, file, rank), mv(file, rank, 'a', 1)));
        }
    }
    let pieces = vec![UciPiece::Knight, UciPiece::Bishop, UciPiece::Rook, UciPiece::Queen, UciPiece::King];
    for p in pieces.iter() {
        reads_back(UciMessage::best_move(promote('b', 7, 'b', 8, *p)));
        reads_back(UciMessage::best_move_with_ponder(mv('a', 1, 'a', 7), promote('b', 2, 'b', 1, *p)));
    }
}

#[test]
fn messages_that_share_a_text_are_read_as_the_plain_one() {
    let m = UciMessage::Register { later: true, name: some("Matija"), code: None };
    assert_eq!(parse(m.serialize().as_str()), vec![UciMessage::register_later()]);
    let m = UciMessage::Id { name: some("Vampirc"), author: some("Matija") };
    assert_eq!(parse(m.serialize().as_str()), vec![UciMessage::id_name("Vampirc")]);
    let m = UciMessage::Go { time_control: Some(UciTimeControl::time_left()), search_control: None };
    assert_eq!(
        parse(m.serialize().as_str()),
        vec![UciMessage::Go { time_control: None, search_control: None }]
    );
    let m = UciMessage::Go { time_control: None, search_control: Some(UciSearchControl::default()) };
    assert_eq!(
        parse(m.serialize().as_str()),
        vec![UciMessage::Go { time_control: None, search_control: None }]
    );
    let m = UciMessage::best_move(promote('a', 7, 'a', 8, UciPiece::Pawn));
    assert_eq!(parse(m.serialize().as_str()), vec![UciMessage::best_move(mv('a', 7, 'a', 8))]);
    let m = UciMessage::id_name("two  spaces");
    assert_eq!(parse(m.serialize().as_str()), vec![UciMessage::id_name("two spaces")]);
    let m = UciMessage::best_move(UciMove::from_to(UciSquare::default(), UciSquare::default()));
    assert_eq!(parse(m.serialize().as_str()), vec![]);
}

#[test]
fn parse_then_serialize_then_parse() {
    let lines = vec![
        "  go   btime 5   wtime 7 depth 3 searchmoves e2e4 junk",
        "position moves e2e4 fen 8/8/8/8/8/8/8/8 w - - 0 1 startpos",
        "setoption value 5 name Hash",
        "id author A B name C",
        "register code 1 name N",
        "bestmove e2e4 ponder",
    ];
    for line in lines.iter() {
        let first = parse(line);
        assert_eq!(first.len(), 1);
        let again = parse(first[0].serialize().as_str());
        assert_eq!(parse(again[0].serialize().as_str()), again);
    }
}
