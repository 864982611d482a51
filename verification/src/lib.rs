pub mod digits;
pub mod game;
pub mod parse;
pub mod words;
