use std::fmt::Error as FmtError;
use std::str::FromStr;

use vampirc_uci::uci::{
    CommunicationDirection, OptionType, UciFen, UciMessage, UciMove, UciPiece, UciSearchControl,
    UciSquare, UciTimeControl,
};

fn mv(f1: char, r1: u8, f2: char, r2: u8) -> UciMove {
    UciMove::from_to(UciSquare::from(f1, r1), UciSquare::from(f2, r2))
}

fn set_option(value: Option<&str>) -> UciMessage {
    UciMessage::SetOption { name: String::from("Hash"), value: value.map(String::from) }
}

#[test]
fn direction_of_every_message() {
    let to_engine = vec![
        UciMessage::Uci,
        UciMessage::Debug(true),
        UciMessage::IsReady,
        UciMessage::register_later(),
        UciMessage::Position { startpos: true, fen: None, moves: vec![] },
        set_option(None),
        UciMessage::UciNewGame,
        UciMessage::Stop,
        UciMessage::PonderHit,
        UciMessage::Quit,
        UciMessage::go_infinite(),
    ];
    for m in to_engine.iter() {
        assert_eq!(m.direction(), CommunicationDirection::GuiToEngine);
    }
    let to_gui = vec![
        UciMessage::id_name("x"),
        UciMessage::UciOk,
        UciMessage::ReadyOk,
        UciMessage::best_move(mv('e', 2, 'e', 4)),
    ];
    for m in to_gui.iter() {
        assert_eq!(m.direction(), CommunicationDirection::EngineToGui);
    }
}

#[test]
fn as_bool_reads_true_and_false_only() {
    assert_eq!(set_option(Some("true")).as_bool(), Some(true));
    assert_eq!(set_option(Some("false")).as_bool(), Some(false));
    assert_eq!(set_option(Some("not-a-bool")).as_bool(), None);
    assert_eq!(set_option(Some("True")).as_bool(), None);
    assert_eq!(set_option(Some(" true")).as_bool(), None);
    assert_eq!(set_option(Some("")).as_bool(), None);
    assert_eq!(set_option(None).as_bool(), None);
    assert_eq!(UciMessage::Uci.as_bool(), None);
    assert_eq!(UciMessage::id_name("true").as_bool(), None);
}

#[test]
fn as_i32_reads_integers_that_fit() {
    assert_eq!(set_option(Some("128")).as_i32(), Some(128));
    assert_eq!(set_option(Some("+128")).as_i32(), Some(128));
    assert_eq!(set_option(Some("-128")).as_i32(), Some(-128));
    assert_eq!(set_option(Some("0")).as_i32(), Some(0));
    assert_eq!(set_option(Some("-0")).as_i32(), Some(0));
    assert_eq!(set_option(Some("007")).as_i32(), Some(7));
    assert_eq!(set_option(Some("2147483647")).as_i32(), Some(2147483647));
    assert_eq!(set_option(Some("-2147483648")).as_i32(), Some(-2147483648));
    assert_eq!(set_option(Some("0000000000000000000000002147483647")).as_i32(), Some(2147483647));
    assert_eq!(set_option(Some("2147483648")).as_i32(), None);
    assert_eq!(set_option(Some("-2147483649")).as_i32(), None);
    assert_eq!(set_option(Some("99999999999999999999999999")).as_i32(), None);
    assert_eq!(set_option(Some("")).as_i32(), None);
    assert_eq!(set_option(Some("+")).as_i32(), None);
    assert_eq!(set_option(Some("-")).as_i32(), None);
    assert_eq!(set_option(Some("+-1")).as_i32(), None);
    assert_eq!(set_option(Some("12a")).as_i32(), None);
    assert_eq!(set_option(Some(" 12")).as_i32(), None);
    assert_eq!(set_option(Some("1.5")).as_i32(), None);
    assert_eq!(set_option(None).as_i32(), None);
    assert_eq!(UciMessage::Stop.as_i32(), None);
}

#[test]
fn as_i32_agrees_with_the_standard_library() {
    let samples = vec![
        "1", "-1", "+0", "00", "2147483647", "2147483648", "-2147483648", "-2147483649", "", "+",
        "-", "--1", "1 ", "٣", "12345678901234567890",
    ];
    for text in samples.iter() {
        assert_eq!(set_option(Some(text)).as_i32(), text.parse::<i32>().ok());
        assert_eq!(set_option(Some(text)).as_bool(), text.parse::<bool>().ok());
    }
}

#[test]
fn constructors_set_the_other_fields_to_none() {
    assert_eq!(
        UciMessage::register_later(),
        UciMessage::Register { later: true, name: None, code: None }
    );
    assert_eq!(
        UciMessage::register_code("Matija Kejzar", "4359874324"),
        UciMessage::Register {
            later: false,
            name: Some(String::from("Matija Kejzar")),
            code: Some(String::from("4359874324")),
        }
    );
    assert_eq!(
        UciMessage::go_ponder(),
        UciMessage::Go { time_control: Some(UciTimeControl::Ponder), search_control: None }
    );
    assert_eq!(
        UciMessage::go_infinite(),
        UciMessage::Go { time_control: Some(UciTimeControl::Infinite), search_control: None }
    );
    assert_eq!(
        UciMessage::go_movetime(1500),
        UciMessage::Go { time_control: Some(UciTimeControl::MoveTime(1500)), search_control: None }
    );
    assert_eq!(
        UciMessage::id_name("Vampirc"),
        UciMessage::Id { name: Some(String::from("Vampirc")), author: None }
    );
    assert_eq!(
        UciMessage::id_author("Matija"),
        UciMessage::Id { name: None, author: Some(String::from("Matija")) }
    );
    assert_eq!(
        UciMessage::best_move(mv('a', 1, 'a', 7)),
        UciMessage::BestMove { best_move: mv('a', 1, 'a', 7), ponder: None }
    );
    assert_eq!(
        UciMessage::best_move_with_ponder(mv('a', 1, 'a', 7), mv('b', 4, 'd', 6)),
        UciMessage::BestMove { best_move: mv('a', 1, 'a', 7), ponder: Some(mv('b', 4, 'd', 6)) }
    );
}

#[test]
fn time_left_has_no_field_set() {
    assert_eq!(
        UciTimeControl::time_left(),
        UciTimeControl::TimeLeft {
            white_time: None,
            black_time: None,
            white_increment: None,
            black_increment: None,
            moves_to_go: None,
        }
    );
}

#[test]
fn search_control_constructors_and_is_empty() {
    let d = UciSearchControl::depth(7);
    assert_eq!((d.depth, d.mate, d.nodes, d.search_moves.len()), (Some(7), None, None, 0));
    assert!(!d.is_empty());
    let m = UciSearchControl::mate(3);
    assert_eq!((m.depth, m.mate, m.nodes, m.search_moves.len()), (None, Some(3), None, 0));
    assert!(!m.is_empty());
    let n = UciSearchControl::nodes(1 << 40);
    assert_eq!((n.depth, n.mate, n.nodes, n.search_moves.len()), (None, None, Some(1 << 40), 0));
    assert!(!n.is_empty());
    let e = UciSearchControl::default();
    assert_eq!((e.depth, e.mate, e.nodes, e.search_moves.len()), (None, None, None, 0));
    assert!(e.is_empty());
    let with_moves = UciSearchControl {
        search_moves: vec![mv('e', 2, 'e', 4)],
        mate: None,
        depth: None,
        nodes: None,
    };
    assert!(!with_moves.is_empty());
}

#[test]
fn piece_letters() {
    assert_eq!(UciPiece::Pawn.as_char(), None);
    assert_eq!(UciPiece::Knight.as_char(), Some('n'));
    assert_eq!(UciPiece::Bishop.as_char(), Some('b'));
    assert_eq!(UciPiece::Rook.as_char(), Some('r'));
    assert_eq!(UciPiece::Queen.as_char(), Some('q'));
    assert_eq!(UciPiece::King.as_char(), Some('k'));
}

#[test]
fn piece_from_str_takes_one_letter_in_either_case() {
    assert_eq!(UciPiece::from_str("n"), Ok(UciPiece::Knight));
    assert_eq!(UciPiece::from_str("p"), Ok(UciPiece::Pawn));
    assert_eq!(UciPiece::from_str("b"), Ok(UciPiece::Bishop));
    assert_eq!(UciPiece::from_str("r"), Ok(UciPiece::Rook));
    assert_eq!(UciPiece::from_str("k"), Ok(UciPiece::King));
    assert_eq!(UciPiece::from_str("q"), Ok(UciPiece::Queen));
    assert_eq!(UciPiece::from_str("N"), Ok(UciPiece::Knight));
    assert_eq!(UciPiece::from_str("P"), Ok(UciPiece::Pawn));
    assert_eq!(UciPiece::from_str("B"), Ok(UciPiece::Bishop));
    assert_eq!(UciPiece::from_str("R"), Ok(UciPiece::Rook));
    assert_eq!(UciPiece::from_str("K"), Ok(UciPiece::King));
    assert_eq!(UciPiece::from_str("Q"), Ok(UciPiece::Queen));
    assert_eq!(UciPiece::from_str(""), Err(FmtError));
    assert_eq!(UciPiece::from_str("x"), Err(FmtError));
    assert_eq!(UciPiece::from_str("qq"), Err(FmtError));
    assert_eq!(UciPiece::from_str(" q"), Err(FmtError));
    assert_eq!(UciPiece::from_str("queen"), Err(FmtError));
    assert_eq!("q".parse::<UciPiece>(), Ok(UciPiece::Queen));
    assert_eq!("Kn".parse::<UciPiece>(), Err(FmtError));
}

#[test]
fn square_from_and_default() {
    let sq = UciSquare::from('e', 4);
    assert_eq!((sq.file, sq.rank), ('e', 4));
    let none = UciSquare::default();
    assert_eq!((none.file, none.rank), ('\0', 0));
    for file in "abcdefgh".chars() {
        for rank in 1..=8u8 {
            assert_ne!(UciSquare::from(file, rank), none);
        }
    }
}

#[test]
fn square_to_string() {
    assert_eq!(UciSquare::from('e', 4).to_string(), "e4");
    assert_eq!(UciSquare::from('h', 8).to_string(), "h8");
    assert_eq!(UciSquare::from('a', 10).to_string(), "a10");
    assert_eq!(UciSquare::from('z', 255).to_string(), "z255");
    assert_eq!(UciSquare::default().to_string(), "\x000");
}

#[test]
fn move_to_string() {
    assert_eq!(mv('a', 1, 'a', 7).to_string(), "a1a7");
    let promote = |p| UciMove {
        from: UciSquare::from('b', 4),
        to: UciSquare::from('d', 6),
        promotion: Some(p),
    };
    assert_eq!(promote(UciPiece::Queen).to_string(), "b4d6q");
    assert_eq!(promote(UciPiece::Knight).to_string(), "b4d6n");
    assert_eq!(promote(UciPiece::Bishop).to_string(), "b4d6b");
    assert_eq!(promote(UciPiece::Rook).to_string(), "b4d6r");
    assert_eq!(promote(UciPiece::King).to_string(), "b4d6k");
    assert_eq!(promote(UciPiece::Pawn).to_string(), "b4d6");
}

#[test]
fn move_from_to_does_not_promote() {
    let m = mv('e', 2, 'e', 4);
    assert_eq!(m.from, UciSquare::from('e', 2));
    assert_eq!(m.to, UciSquare::from('e', 4));
    assert_eq!(m.promotion, None);
}

#[test]
fn fen_keeps_its_text() {
    let text = "rnbqkbnr/pppppppp/8/8/8/8/PPPPPPPP/RNBQKBNR w KQkq - 0 1";
    let fen = UciFen::from(text);
    assert_eq!(fen.as_str(), text);
    assert_eq!(fen.to_string(), text);
    assert_eq!(fen, UciFen(String::from(text)));
    assert_eq!(UciFen::from("  not a position ").as_str(), "  not a position ");
    assert_eq!(UciFen::from("").as_str(), "");
}

#[test]
fn option_type_to_string() {
    assert_eq!(OptionType::Check.to_string(), "check");
    assert_eq!(OptionType::Spin.to_string(), "spin");
    assert_eq!(OptionType::Combo.to_string(), "combo");
    assert_eq!(OptionType::Button.to_string(), "button");
    assert_eq!(OptionType::String.to_string(), "string");
}
