//! The lookup engine of a chat bot for a game's community.
//!
//! A request is resolved to the nearest key of a dictionary by edit
//! distance (`distance`, `matcher`). Each community has its own
//! dictionaries, kept as JSON text and changed one request at a time
//! (`dictionary`, `store`), and its own command prefix in a table that the
//! whole process shares (`prefixes`). The recipe catalog is loaded once and
//! asked the same way (`catalog`). The rest makes ready what the bot shows:
//! the argument of a command (`message`), lists of keys (`lists`), addresses
//! (`links`), what pages and feeds say (`web`), and what the mod portal says
//! of mods, modders and searches (`mods`, `modder`, `search`).
//!
//! Nothing here reads a file, asks the network or sends a message: the
//! caller hands in the text that it read and gets back the text to write.
//! JSON is read and written by the `json` crate, through the functions of
//! `document`, which are stated and not proved.

pub mod catalog;
pub mod decimal;
pub mod dictionary;
pub mod distance;
pub mod document;
pub mod links;
pub mod lists;
pub mod matcher;
pub mod message;
pub mod modder;
pub mod mods;
pub mod prefixes;
pub mod search;
pub mod store;
pub mod text;
pub mod web;
