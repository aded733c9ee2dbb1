use vampirc_uci::number::{parse_bool, parse_i32, parse_u64, parse_u8, push_decimal};
use vampirc_uci::parser::read_move;
use vampirc_uci::serialize::{push_move, push_square};
use vampirc_uci::text::{chars_of, is_space_char, push_joined, split_words, word_is};
use vampirc_uci::uci::{UciMove, UciPiece, UciSquare};

fn chars(s: &str) -> Vec<char> {
    s.chars().collect()
}

fn word_list(line: &str) -> Vec<String> {
    split_words(line).iter().map(|w| w.iter().collect()).collect()
}

#[test]
fn chars_of_gives_every_character() {
    assert_eq!(chars_of(""), chars(""));
    assert_eq!(chars_of("go "), vec!['g', 'o', ' ']);
    assert_eq!(chars_of("žaba €"), vec!['ž', 'a', 'b', 'a', ' ', '€']);
}

#[test]
fn white_space_is_five_characters() {
    for c in [' ', '\t', '\n', '\x0C', '\r'] {
        assert!(is_space_char(c));
    }
    for c in ['a', '0', '\0', '\x0B', '\u{a0}', '_'] {
        assert!(!is_space_char(c));
    }
}

#[test]
fn word_is_compares_whole_words() {
    assert!(word_is(&chars("go"), "go"));
    assert!(!word_is(&chars("go"), "g"));
    assert!(!word_is(&chars("g"), "go"));
    assert!(!word_is(&chars("Go"), "go"));
    assert!(word_is(&chars(""), ""));
}

#[test]
fn split_words_at_white_space() {
    let none: Vec<String> = vec![];
    assert_eq!(word_list(""), none);
    assert_eq!(word_list(" \t\r\n"), none);
    assert_eq!(word_list("uci"), vec!["uci"]);
    assert_eq!(word_list("  go   wtime\t5\r\n"), vec!["go", "wtime", "5"]);
    assert_eq!(word_list("a b"), vec!["a", "b"]);
    assert_eq!(word_list("a\x0Bb"), vec!["a\x0Bb"]);
}

#[test]
fn split_words_agrees_with_the_standard_library_on_ascii_white_space() {
    let lines = vec!["", " ", "a", " a", "a ", "a  b", "\ta\nb\rc\x0Cd ", "position fen  8/8 w  - -"];
    for line in lines.iter() {
        let expected: Vec<String> = line.split_ascii_whitespace().map(String::from).collect();
        assert_eq!(word_list(line), expected);
    }
}

#[test]
fn push_joined_puts_single_spaces_between_words() {
    let ws = split_words("  a  bc   d ");
    let mut out = String::from(">");
    push_joined(&mut out, &ws, 0, 3);
    assert_eq!(out, ">a bc d");
    let mut out = String::new();
    push_joined(&mut out, &ws, 1, 2);
    assert_eq!(out, "bc");
    let mut out = String::from("x");
    push_joined(&mut out, &ws, 2, 2);
    assert_eq!(out, "x");
}

#[test]
fn push_decimal_writes_numerals() {
    for n in [0u64, 1, 9, 10, 11, 99, 100, 255, 300000, 18446744073709551615] {
        let mut out = String::from("n=");
        push_decimal(&mut out, n);
        assert_eq!(out, format!("n={}", n));
    }
}

#[test]
fn parse_u64_reads_numerals() {
    assert_eq!(parse_u64(&chars("0")), Some(0));
    assert_eq!(parse_u64(&chars("300000")), Some(300000));
    assert_eq!(parse_u64(&chars("+7")), Some(7));
    assert_eq!(parse_u64(&chars("0018")), Some(18));
    assert_eq!(parse_u64(&chars("18446744073709551615")), Some(18446744073709551615));
    assert_eq!(parse_u64(&chars("18446744073709551616")), None);
    assert_eq!(parse_u64(&chars("184467440737095516150")), None);
    assert_eq!(parse_u64(&chars("")), None);
    assert_eq!(parse_u64(&chars("+")), None);
    assert_eq!(parse_u64(&chars("-1")), None);
    assert_eq!(parse_u64(&chars("-0")), None);
    assert_eq!(parse_u64(&chars("1x")), None);
    assert_eq!(parse_u64(&chars("x1")), None);
    assert_eq!(parse_u64(&chars("١")), None);
}

#[test]
fn parse_u8_reads_small_numerals() {
    assert_eq!(parse_u8(&chars("0")), Some(0));
    assert_eq!(parse_u8(&chars("40")), Some(40));
    assert_eq!(parse_u8(&chars("+255")), Some(255));
    assert_eq!(parse_u8(&chars("0255")), Some(255));
    assert_eq!(parse_u8(&chars("256")), None);
    assert_eq!(parse_u8(&chars("1000")), None);
    assert_eq!(parse_u8(&chars("-1")), None);
    assert_eq!(parse_u8(&chars("")), None);
}

#[test]
fn parsing_agrees_with_the_standard_library() {
    let samples = vec![
        "0", "1", "+1", "-1", "255", "256", "+", "-", "", "00000000000000000000000001",
        "18446744073709551615", "18446744073709551616", "2147483648", "-2147483648", "1_000",
        "0x10", "true", "false", "TRUE",
    ];
    for text in samples.iter() {
        assert_eq!(parse_u64(&chars(text)), text.parse::<u64>().ok(), "{}", text);
        assert_eq!(parse_u8(&chars(text)), text.parse::<u8>().ok(), "{}", text);
        assert_eq!(parse_i32(text), text.parse::<i32>().ok(), "{}", text);
        assert_eq!(parse_bool(text), text.parse::<bool>().ok(), "{}", text);
    }
}

#[test]
fn read_move_takes_squares_of_the_board() {
    let e2e4 = UciMove::from_to(UciSquare::from('e', 2), UciSquare::from('e', 4));
    assert_eq!(read_move(&chars("e2e4")), Some(e2e4));
    assert_eq!(
        read_move(&chars("a7a8q")),
        Some(UciMove {
            from: UciSquare::from('a', 7),
            to: UciSquare::from('a', 8),
            promotion: Some(UciPiece::Queen),
        })
    );
    for word in ["", "e2", "e2e", "e2e4qq", "i2e4", "e9e4", "e0e4", "e2e4p", "e2e4Q", "E2E4", "0000", "2e4e"] {
        assert_eq!(read_move(&chars(word)), None, "{}", word);
    }
}

#[test]
fn push_square_and_push_move_append() {
    let mut out = String::from("at ");
    push_square(&mut out, UciSquare::from('c', 3));
    assert_eq!(out, "at c3");
    push_move(&mut out, UciMove::from_to(UciSquare::from('a', 1), UciSquare::from('a', 7)));
    assert_eq!(out, "at c3a1a7");
}
