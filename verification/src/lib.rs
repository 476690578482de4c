//! Rewriting of colon-delimited emoji shortcodes, such as `:rocket:`, into
//! their glyphs, with the scanner's behaviour stated and proved over the
//! UTF-8 bytes of the text.

pub mod command;
pub mod database;
pub mod directory;
pub mod format;
pub mod laws;
pub mod record;
pub mod scan;
pub mod token;
