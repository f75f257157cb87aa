//! What the server answers, by kind of request.

pub mod error_controller;
pub mod file_controller;
pub mod path_controller;
pub mod stats_controller;
