//! An end-to-end trial of the program: which attachments to cut when, what the
//! command has to receive, and how to tell that everything arrived.

pub mod args;
pub mod events;
pub mod plan;
pub mod records;
pub mod replay;
