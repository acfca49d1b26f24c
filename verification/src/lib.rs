//! Turning the contents of files into compact text for language-model prompts.
pub mod file_processor;
