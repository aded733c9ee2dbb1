//! A model of the Universal Chess Interface text protocol: the messages that a
//! chess engine and its controlling interface exchange, the canonical text of
//! each message, and the reading of a line of text back into messages.
//!
//! - [`uci`] holds the messages and the values they are made of.
//! - [`serialize`] says what the text of a message is, and writes it.
//! - [`parser`] says which messages a line of text stands for, and reads them.
//! - [`roundtrip`] proves that reading the text of a message gives the message
//!   back.
//! - [`text`] and [`number`] hold what the others share: words and numerals.
//!
//! Nothing here touches a file or a stream, and nothing fails: a line that is
//! not understood stands for no message, and a value that cannot be read
//! leaves its field unset.

pub mod number;
pub mod parser;
pub mod roundtrip;
pub mod serialize;
pub mod text;
pub mod uci;
