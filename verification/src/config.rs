//! The plugin's configuration: its types, its fallbacks, and what it hands to
//! the formatting engine.
use crate::text::{ascii_lowercase, same_text};
use vstd::prelude::*;

verus! {

/// The newline style that dprint's global configuration asks for.
#[derive(Clone, Copy, Debug, PartialEq, Eq, Structural)]
pub enum NewLineKind {
    /// Decide by the file.
    Auto,
    /// `\n`.
    LineFeed,
    /// `\r\n`.
    CarriageReturnLineFeed,
}

/// dprint's global configuration, which supplies the fallbacks of the keys
/// that the `arity` block leaves out.
#[derive(Clone, Copy, Debug, PartialEq, Eq, Structural)]
pub struct GlobalConfiguration {
    pub line_width: Option<u32>,
    pub use_tabs: Option<bool>,
    pub indent_width: Option<u8>,
    pub new_line_kind: Option<NewLineKind>,
}

/// A problem in the configuration.
#[derive(Clone, Debug, PartialEq, Eq)]
pub struct ConfigurationDiagnostic {
    /// The property that the problem is with.
    pub property_name: String,
    /// What to tell the user.
    pub message: String,
}

/// The texts of a [`ConfigurationDiagnostic`].
#[verifier::ext_equal]
pub struct DiagnosticView {
    pub property_name: Seq<char>,
    pub message: Seq<char>,
}

impl View for ConfigurationDiagnostic {
    type V = DiagnosticView;

    open spec fn view(&self) -> DiagnosticView {
        DiagnosticView { property_name: self.property_name@, message: self.message@ }
    }
}

/// The texts of a list of diagnostics, in order.
pub open spec fn diagnostics_view(diagnostics: Seq<ConfigurationDiagnostic>) -> Seq<
    DiagnosticView,
> {
    diagnostics.map_values(|diagnostic: ConfigurationDiagnostic| diagnostic@)
}

/// The line ending that formatted output is written with.
#[derive(Clone, Copy, Debug, PartialEq, Eq, Structural)]
pub enum LineEnding {
    /// As the first line ending of the source, or `\n` where it has none.
    Auto,
    /// Always `\n`.
    Lf,
    /// Always `\r\n`.
    Crlf,
    /// The one of the system that the plugin runs on.
    Native,
}

/// The layout that the engine is asked for.
#[derive(Clone, Copy, Debug, PartialEq, Eq, Structural)]
pub struct FormatStyle {
    pub line_width: usize,
    pub indent_width: usize,
    pub line_ending: LineEnding,
}

/// How the engine is asked to read its input.
#[derive(Clone, Copy, Debug, PartialEq, Eq, Structural)]
pub struct ParseOptions {
    /// Whether a roxygen block without a tag of its own is markdown.
    pub roxygen_markdown_default: bool,
}

/// dprint-facing configuration.
///
/// `line_ending` is kept as it was written and is parsed where it is used.
#[derive(Clone, Debug, PartialEq, Eq)]
pub struct Configuration {
    /// Maximum line width the layout engine targets. Defaults to dprint's
    /// global `lineWidth`, or 80 if unset.
    pub line_width: u32,
    /// Number of spaces per indentation level. Defaults to dprint's global
    /// `indentWidth`, or 2 if unset. Arity always indents with spaces, so
    /// dprint's global `useTabs` has no effect.
    pub indent_width: u32,
    /// Line-ending style for formatted output. Defaults to dprint's global
    /// `newLineKind`, or `auto` if unset.
    pub line_ending: String,
    /// Whether roxygen comments are markdown by default, i.e. whether the
    /// package sets `Roxygen: list(markdown = TRUE)`. A block's own `@md` or
    /// `@noMd` tag still wins over this default.
    pub roxygen_markdown: bool,
}

/// The values of a [`Configuration`].
#[verifier::ext_equal]
pub struct ConfigurationView {
    pub line_width: u32,
    pub indent_width: u32,
    pub line_ending: Seq<char>,
    pub roxygen_markdown: bool,
}

impl View for Configuration {
    type V = ConfigurationView;

    open spec fn view(&self) -> ConfigurationView {
        ConfigurationView {
            line_width: self.line_width,
            indent_width: self.indent_width,
            line_ending: self.line_ending@,
            roxygen_markdown: self.roxygen_markdown,
        }
    }
}

/// The line ending that a `lineEnding` value spells, in any mix of cases.
pub open spec fn spelled_line_ending(value: Seq<char>) -> Option<LineEnding> {
    let lower = ascii_lowercase(value);
    if lower == "auto"@ {
        Some(LineEnding::Auto)
    } else if lower == "lf"@ {
        Some(LineEnding::Lf)
    } else if lower == "crlf"@ {
        Some(LineEnding::Crlf)
    } else if lower == "native"@ {
        Some(LineEnding::Native)
    } else {
        None
    }
}

/// The line ending that a `lineEnding` value stands for: the one that it
/// spells, and `auto` where it spells none.
pub open spec fn effective_line_ending(value: Seq<char>) -> LineEnding {
    match spelled_line_ending(value) {
        Some(ending) => ending,
        None => LineEnding::Auto,
    }
}

/// What is reported on a `lineEnding` value: nothing where it spells a line
/// ending, else one diagnostic that quotes it in lower case.
pub open spec fn line_ending_problems(value: Seq<char>) -> Seq<DiagnosticView> {
    if spelled_line_ending(value) is Some {
        seq![]
    } else {
        seq![
            DiagnosticView {
                property_name: "lineEnding"@,
                message: "Unknown line ending '"@ + ascii_lowercase(value)
                    + "'. Expected one of: auto, lf, crlf, native."@,
            },
        ]
    }
}

/// The `lineEnding` that dprint's global `newLineKind` stands for.
pub open spec fn line_ending_of_kind(kind: Option<NewLineKind>) -> Seq<char> {
    match kind {
        Some(NewLineKind::LineFeed) => "lf"@,
        Some(NewLineKind::CarriageReturnLineFeed) => "crlf"@,
        Some(NewLineKind::Auto) => "auto"@,
        None => "auto"@,
    }
}

/// The line width where neither the `arity` block nor dprint sets one.
pub fn default_line_width() -> (width: u32)
    ensures
        width == 80,
{
    80
}

/// The indentation where neither the `arity` block nor dprint sets one.
pub fn default_indent_width() -> (width: u32)
    ensures
        width == 2,
{
    2
}

/// The line ending where neither the `arity` block nor dprint sets one.
pub fn default_line_ending_value() -> (value: String)
    ensures
        value@ == "auto"@,
{
    "auto".to_owned()
}

/// Parses a `lineEnding` config value, reporting a diagnostic on an unknown one.
pub fn parse_line_ending(
    value: &str,
    diagnostics: &mut Vec<ConfigurationDiagnostic>,
) -> (ending: LineEnding)
    ensures
        ending == effective_line_ending(value@),
        diagnostics_view(final(diagnostics)@) == diagnostics_view(old(diagnostics)@)
            + line_ending_problems(value@),
{
    let lower = value.to_ascii_lowercase();
    let ending = if same_text(lower.as_str(), "auto") {
        LineEnding::Auto
    } else if same_text(lower.as_str(), "lf") {
        LineEnding::Lf
    } else if same_text(lower.as_str(), "crlf") {
        LineEnding::Crlf
    } else if same_text(lower.as_str(), "native") {
        LineEnding::Native
    } else {
        let mut message = "Unknown line ending '".to_owned();
        message.append(lower.as_str());
        message.append("'. Expected one of: auto, lf, crlf, native.");
        diagnostics.push(
            ConfigurationDiagnostic { property_name: "lineEnding".to_owned(), message },
        );
        LineEnding::Auto
    };
    ending
}

/// Maps dprint's global `newLineKind` onto a `lineEnding` default.
///
/// dprint has no equivalent of arity's `native`, so an unset global falls back
/// to `auto`.
pub fn default_line_ending(global_config: &GlobalConfiguration) -> (value: String)
    ensures
        value@ == line_ending_of_kind(global_config.new_line_kind),
{
    match global_config.new_line_kind {
        Some(NewLineKind::LineFeed) => "lf".to_owned(),
        Some(NewLineKind::CarriageReturnLineFeed) => "crlf".to_owned(),
        Some(NewLineKind::Auto) => default_line_ending_value(),
        None => default_line_ending_value(),
    }
}

/// The layout that a configuration asks for.
pub open spec fn style_of(config: ConfigurationView) -> FormatStyle {
    FormatStyle {
        line_width: config.line_width as usize,
        indent_width: config.indent_width as usize,
        line_ending: effective_line_ending(config.line_ending),
    }
}

/// The layout that a configuration asks for. A `lineEnding` that spells none
/// was reported when the configuration was resolved and counts as `auto` here.
pub fn build_style(cfg: &Configuration) -> (style: FormatStyle)
    ensures
        style == style_of(cfg@),
        style.line_width == cfg.line_width,
        style.indent_width == cfg.indent_width,
{
    let mut throwaway: Vec<ConfigurationDiagnostic> = Vec::new();
    FormatStyle {
        line_width: cfg.line_width as usize,
        indent_width: cfg.indent_width as usize,
        line_ending: parse_line_ending(cfg.line_ending.as_str(), &mut throwaway),
    }
}

/// How a configuration asks the engine to read its input.
pub fn build_parse_options(cfg: &Configuration) -> (options: ParseOptions)
    ensures
        options.roxygen_markdown_default == cfg.roxygen_markdown,
{
    ParseOptions { roxygen_markdown_default: cfg.roxygen_markdown }
}

} // verus!
