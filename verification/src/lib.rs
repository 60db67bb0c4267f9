pub mod app_data;
pub mod cli;
pub mod llm;
pub mod model;
pub mod text;
pub mod widgets;
pub mod wrapped_text;
