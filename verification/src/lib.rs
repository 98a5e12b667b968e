//! An interactive terminal checklist for choosing which changed files to
//! commit: a frame buffer that redraws only the lines that changed, and the
//! key-driven selection state that fills it.

pub mod color;
pub mod config;
pub mod git;
pub mod prompt;
pub mod screen;
pub mod string;
pub mod term_buffer;

pub use config::Config;
pub use term_buffer::TermBuffer;
