pub mod app_state;
pub mod cli;
pub mod commands;
pub mod framing;
pub mod surface;
pub mod text;
pub mod utils;
pub mod widget;
