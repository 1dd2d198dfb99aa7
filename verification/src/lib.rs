//! The logic of a chat bot. Its heart is the tag store: named snippets of
//! text, kept per community or for all of them, with the rules by which
//! they are made, changed, deleted, used and listed, and the steps by
//! which the store is kept in a file. Beside it stand the smaller
//! commands: dice, a Markov chain over a chat log, and a ping.

pub mod command;
pub mod config;
pub mod fuyu;
pub mod login;
pub mod model;
pub mod persist;
pub mod ping;
pub mod roll;
pub mod str_map;
pub mod tag;
pub mod tags;
pub mod text;
