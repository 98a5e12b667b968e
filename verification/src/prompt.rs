//! Interactive prompts.

pub mod files_prompt;
