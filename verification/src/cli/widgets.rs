//! The widgets of the chat window.
pub mod chat;
pub mod input_box;
pub mod status_bar;
