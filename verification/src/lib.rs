//! The input handling of a terminal chat client.

pub mod actions;
pub mod app;
pub mod attachments;
pub mod body;
pub mod chat;
pub mod command;
pub mod completion;
pub mod dispatch;
pub mod effect;
pub mod entries;
pub mod input;
pub mod keys;
pub mod laws;
pub mod lists;
pub mod mentions;
pub mod popup;
pub mod send;
pub mod text;
