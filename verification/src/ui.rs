//! The presentation-layer interfaces the engine is written against:
//! the displayer and line-editor traits, their mock implementations,
//! and the evaluation of parsed command-line invocations.

pub mod cli_parser;
pub mod displayer;
pub mod line_editor;
