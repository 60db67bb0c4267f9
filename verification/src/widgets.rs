//! The widgets of the first chat window, drawn over `crate::model::Model`.
pub mod chat;
pub mod message;
pub mod status_bar;
