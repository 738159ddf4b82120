//! A verified parser for timed-text lyrics documents.
//!
//! The library turns a TTML-style markup document into an ordered list of
//! lyric lines, each with a stable identifier, display text, and start/end
//! offsets, together with document-level metadata (leading silence and the
//! songwriter credits).
//!
//! Every duration is held exactly, as an integer count of microseconds; the
//! serialized form writes it back as a decimal number of seconds. Line
//! identifiers are positional (`line-0`, `line-1`, ...), which makes them
//! unique within one parse; no input field determines them.
//!
//! `lyrics::parse` carries the whole contract: its result equals what the
//! specification function `lyrics::sp_parse_lyrics` maps the input text to.
//! The document-level laws (order preservation, identifier uniqueness,
//! round-trip stability) are proved in `laws`. `presence` holds the
//! presence agent's state and update decisions; sending an update to the
//! presence service is left to the embedding application.

pub mod markup;
pub mod timing;
pub mod text;
pub mod numtext;
pub mod lyrics;
pub mod laws;
pub mod render;
pub mod presence;

pub use lyrics::{parse, LyricsDocument, LyricLine, ParseError};
pub use render::{serialize, parse_lyrics_xml};
pub use presence::{PresenceState, ActivityPlan};
