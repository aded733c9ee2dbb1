use vampirc_uci::uci::{CommunicationDirection, UciMessage, UciMove, UciSquare};

#[test]
fn test_direction_engine_bound() {
    assert_eq!(UciMessage::PonderHit.direction(), CommunicationDirection::GuiToEngine);
}

#[test]
fn test_direction_gui_bound() {
    assert_eq!(UciMessage::UciOk.direction(), CommunicationDirection::EngineToGui);
}

#[test]
fn test_serialize_id_name() {
    assert_eq!(UciMessage::id_name("Vampirc 0.5.0").serialize().as_str(), "id name Vampirc 0.5.0");
}

#[test]
fn test_serialize_id_author() {
    assert_eq!(UciMessage::id_author("Matija Kejzar").serialize().as_str(), "id author Matija Kejzar");
}

#[test]
fn test_serialize_uciok() {
    assert_eq!(UciMessage::UciOk.serialize().as_str(), "uciok");
}

#[test]
fn test_serialize_readyok() {
    assert_eq!(UciMessage::ReadyOk.serialize().as_str(), "readyok");
}

#[test]
fn test_serialize_bestmove() {
    assert_eq!(UciMessage::best_move(UciMove::from_to(UciSquare::from('a', 1), UciSquare::from('a', 7))).serialize().as_str(), "bestmove a1a7");
}

#[test]
fn test_serialize_bestmove_with_options() {
    assert_eq!(UciMessage::best_move_with_ponder(UciMove::from_to(UciSquare::from('b', 4), UciSquare::from('a', 5)),
                                                 UciMove::from_to(UciSquare::from('b', 4), UciSquare::from('d', 6))).serialize().as_str(), "bestmove b4a5 ponder b4d6");
}
