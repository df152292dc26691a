use vstd::prelude::*;

pub mod bus;
pub mod cards;
pub mod chat;
pub mod clock;
pub mod config_editor;
pub mod digest;
pub mod discovery;
pub mod json;
pub mod jukebox;
pub mod keys;
pub mod knowledge;
pub mod llm;
pub mod log;
pub mod manager;
pub mod messages;
pub mod panels;
pub mod registration;
pub mod scheduler;
pub mod serial;
pub mod service;
pub mod side_quest;
pub mod string_utils;
pub mod templates;
pub mod text;
pub mod transport;
pub mod wasteland;

verus! {
} // verus!
