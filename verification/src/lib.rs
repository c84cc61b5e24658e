//! Unlocks the frame rate of Wuthering Waves.
//!
//! The game keeps its graphics settings as one record of a small database: a
//! JSON object under the key `GameQualitySetting`. This library reads that
//! object without assuming which fields it has, sets the target frame rate,
//! switches vertical sync off, and writes the object out again with every
//! other field as it was read.
//!
//! - [`json`] reads the record's text into a [`document::ConfigDocument`] and
//!   writes a document out as text.
//! - [`edit`] applies an [`edit::EditSet`] to a document and holds the rules
//!   of the frame rate.
//! - [`patch`] puts the two together: from the text of the record to the text
//!   that replaces it.
//! - [`store`], [`prompt`] and [`host`] decide what the answers of the
//!   database, of the user and of the machine mean.
//! - [`text`] and [`decimal`] are the string and number routines underneath.
//!
//! The library opens no file and asks no question itself: its caller does,
//! and hands over what came back.

pub mod decimal;
pub mod document;
pub mod edit;
pub mod error;
pub mod host;
pub mod json;
pub mod patch;
pub mod prompt;
pub mod store;
pub mod text;
