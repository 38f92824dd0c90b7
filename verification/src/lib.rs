//! A [dprint](https://dprint.dev) plugin around the [arity](https://arity.cc)
//! formatter for the R language.
//!
//! The plugin holds no formatting logic of its own. It maps dprint's
//! configuration onto the layout and the parse options of the engine and hands
//! the file text over; layout is entirely the engine's business. What is proved
//! here is what the plugin adds: how a configuration is resolved and what is
//! reported on it, how a requested range is checked and spliced, and what is
//! handed back to dprint.
//!
//! - [`config`] holds the configuration's types and what they ask of the engine.
//! - [`settings`] reads values out of dprint's map of settings.
//! - [`resolution`] says what a configuration resolves to.
//! - [`engine`] is the boundary to the engine.
//! - [`error`] renders its errors.
//! - [`range`] formats a part of a file.
//! - [`handler`] is the plugin.
//! - [`laws`] states what holds of it as a whole.
//! - [`meaning`] says of each operation what it comes to.
//! - [`text`] has the strings that all of them speak of.
pub mod config;
pub mod engine;
pub mod error;
pub mod handler;
pub mod laws;
pub mod meaning;
pub mod range;
pub mod resolution;
pub mod settings;
pub mod text;

pub use config::{
    Configuration, ConfigurationDiagnostic, FormatStyle, GlobalConfiguration, LineEnding,
    NewLineKind, ParseOptions, build_parse_options, build_style, default_indent_width,
    default_line_ending, default_line_ending_value, default_line_width, parse_line_ending,
};
pub use engine::{RangeFormatted, can_lay_out, settle, uses_crlf};
pub use error::{FormattingError, format_error, parse_error};
pub use handler::{
    ArityHandler, FileMatchingInfo, PluginInfo, ResolvedConfiguration, changed_bytes,
    file_matching, format_text, format_whole, panic_error,
};
pub use range::{format_text_range, splice};
