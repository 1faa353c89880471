//! Playback control for an unattended audio kiosk.
//!
//! A proximity card placed on a reader selects a sound file, or a folder of
//! sound files, to play. The crate holds the decisions of that kiosk: how the
//! stream of "card present / card absent" observations becomes commands to the
//! audio output and progress through a playlist. Reading the card, touching
//! the file system and producing sound are left to the program around it.
//!
//! - `mapping`: the text that says which card stands for which path.
//! - `playlist`: the paths of one card, in playing order, with a cursor.
//! - `controller`: the state machine, driven one event at a time.
//! - `machine`: what the state machine does, as mathematics.
//! - `laws`: what holds of it whatever happens around it.
//! - `events`: requests, events, commands and notices.
//! - `card`, `order`, `text`: identifiers, the order of paths, and text.

pub mod card;
pub mod controller;
pub mod events;
pub mod laws;
pub mod machine;
pub mod mapping;
pub mod order;
pub mod playlist;
pub mod text;
