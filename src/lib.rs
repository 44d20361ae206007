//! A parser for M3U / M3U8 playlists: a header line, directives that start
//! with `#`, and location lines, read one line at a time into a playlist of
//! media entries.
pub mod attributes;
pub mod duration;
pub mod laws;
pub mod parser;
pub mod playlist;
pub mod text;

pub use attributes::parse_attributes;
pub use parser::{ParseError, Parser};
pub use playlist::{Media, Playlist};
