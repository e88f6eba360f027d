//! Core logic of the BongoCat chat companion: its configuration file
//! format, chat history window, streamed-reply decoding and tool planning.
pub mod text;
pub mod config;
pub mod stream;
pub mod tools;
pub mod history;
pub mod request;
pub mod commands;
pub mod avatar;
