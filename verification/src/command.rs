//! The cores of the chat commands: the computation each command performs
//! once the surrounding shell has resolved the caller's context to plain
//! values.

pub mod help;
pub mod invite;
pub mod overview;
