//! The formatting engine: the functions of `arity_formatter` that the plugin
//! calls, with what it relies on them for.
//!
//! What the engine makes of a text is named and not described: layout is the
//! engine's business. A text is handed to it only where [`fits_engine`] holds of
//! its length and the indentation: the length in bytes fits in `u32`, the size
//! of the engine's text offsets, and the engine's columns fit in `usize`. That
//! the engine has the memory and the stack it needs for a text is left to the
//! caller.
use crate::config::{FormatStyle, LineEnding, ParseOptions};
use crate::text::{crlf, decimal, lf, no_bare_line_feed, same_text};
use arity_formatter::parser::ParseOptions as EngineOptions;
use arity_formatter::parser::parse_with_options;
use arity_formatter::rowan::TextRange;
use arity_formatter::{FormatStyle as EngineStyle, LineEnding as EngineEnding};
use vstd::prelude::*;
use vstd::string::StringSliceAdditionalSpecFns;
use vstd::utf8::is_char_boundary;

verus! {

/// The engine's error, carried as an opaque value.
#[verifier::external_type_specification]
#[verifier::external_body]
pub struct ExFormatError(arity_formatter::FormatError);

/// A part of a text that the engine has formatted: the bytes to replace and the
/// text to put in their place.
#[derive(Clone, Debug, PartialEq, Eq)]
pub struct RangeFormatted {
    pub start: usize,
    pub end: usize,
    pub text: String,
}

/// The values of a [`RangeFormatted`].
#[verifier::ext_equal]
pub struct RangeFormattedView {
    pub start: nat,
    pub end: nat,
    pub text: Seq<char>,
}

impl View for RangeFormatted {
    type V = RangeFormattedView;

    open spec fn view(&self) -> RangeFormattedView {
        RangeFormattedView { start: self.start as nat, end: self.end as nat, text: self.text@ }
    }
}

/// What an error of the engine reads as.
pub uninterp spec fn error_text(err: arity_formatter::FormatError) -> Seq<char>;

/// How many problems the engine's parser finds in a text.
pub uninterp spec fn parse_diagnostic_count(text: Seq<char>, markdown: bool) -> nat;

/// What the engine makes of a whole text, or what its error reads as, with the
/// line breaks that `crlf` asks for.
pub uninterp spec fn engine_format(
    text: Seq<char>,
    line_width: nat,
    indent_width: nat,
    crlf: bool,
    markdown: bool,
) -> Result<Seq<char>, Seq<char>>;

/// What the engine makes of the bytes from `start` to `end` of a text, or what
/// its error reads as, with the line breaks that `crlf` asks for.
pub uninterp spec fn engine_format_range(
    text: Seq<char>,
    start: nat,
    end: nat,
    line_width: nat,
    indent_width: nat,
    crlf: bool,
    markdown: bool,
) -> Result<Option<RangeFormattedView>, Seq<char>>;

/// Whether the first line feed of a text stands behind a carriage return.
pub open spec fn first_break_is_crlf(source: Seq<char>) -> bool {
    exists|i: int|
        0 < i < source.len() && #[trigger] source[i] == '\n' && source[i - 1] == '\r' && (forall|
            j: int,
        |
            0 <= j < i ==> source[j] != '\n')
}

/// Whether a line ending can come to CRLF (`use_crlf`) or to LF on a source.
/// `Native` can come to either, by the system.
pub open spec fn resolves_to(ending: LineEnding, source: Seq<char>, use_crlf: bool) -> bool {
    match ending {
        LineEnding::Lf => !use_crlf,
        LineEnding::Crlf => use_crlf,
        LineEnding::Auto => use_crlf == first_break_is_crlf(source),
        LineEnding::Native => true,
    }
}

/// Every line ending comes to one of the two on every source.
pub proof fn lemma_resolves(ending: LineEnding, source: Seq<char>)
    ensures
        exists|use_crlf: bool| resolves_to(ending, source, use_crlf),
{
    assert(resolves_to(ending, source, true) || resolves_to(ending, source, false));
}

/// Whether `outcome` is what a line ending can lead to on a source, where
/// `with_lf` is the outcome for LF and `with_crlf` the one for CRLF.
pub open spec fn comes_to<T>(
    ending: LineEnding,
    source: Seq<char>,
    outcome: T,
    with_lf: T,
    with_crlf: T,
) -> bool {
    ||| resolves_to(ending, source, false) && outcome == with_lf
    ||| resolves_to(ending, source, true) && outcome == with_crlf
}

/// Whether the engine can count the columns of a text of `len` bytes that it
/// indents by `indent_width` columns a level.
///
/// Each level of indentation comes from a bracket, an operator or a keyword of
/// the text, so a text has at most as many levels as bytes. What else the
/// engine writes on a line takes fewer than sixteen columns for each byte.
pub open spec fn fits_engine(len: int, indent_width: int) -> bool {
    &&& len <= u32::MAX
    &&& (indent_width + 16) * (len + 2) <= usize::MAX
}

/// A style with its line ending settled to CRLF or to LF.
pub open spec fn settled(style: FormatStyle, use_crlf: bool) -> FormatStyle {
    FormatStyle {
        line_ending: if use_crlf {
            LineEnding::Crlf
        } else {
            LineEnding::Lf
        },
        ..style
    }
}

/// The line break that a resolved line ending stands for.
pub open spec fn line_break(use_crlf: bool) -> Seq<char> {
    if use_crlf {
        crlf()
    } else {
        lf()
    }
}

/// The message on a text in which the parser found `count` problems.
pub open spec fn parse_errors_text(count: nat) -> Seq<char> {
    "input contains "@ + decimal(count as int)
        + " parser diagnostic(s); formatter only supports parseable input"@
}

/// The texts of what the engine returned for a whole text.
pub open spec fn whole_outcome(outcome: Result<String, arity_formatter::FormatError>) -> Result<
    Seq<char>,
    Seq<char>,
> {
    match outcome {
        Ok(text) => Ok(text@),
        Err(err) => Err(error_text(err)),
    }
}

/// Whether an outcome is the error that reads as `message`.
pub open spec fn is_refusal(outcome: Result<Seq<char>, Seq<char>>, message: Seq<char>) -> bool {
    outcome == Err::<Seq<char>, Seq<char>>(message)
}

/// Whether an outcome that is a text is the source itself or has CRLF for all of
/// its line breaks.
pub open spec fn is_source_or_crlf(
    outcome: Result<Seq<char>, Seq<char>>,
    source: Seq<char>,
) -> bool {
    outcome matches Ok(text) ==> text == source || no_bare_line_feed(text)
}

/// The values of what the engine returned for a part of a text.
pub open spec fn part_outcome(
    outcome: Result<Option<RangeFormatted>, arity_formatter::FormatError>,
) -> Result<Option<RangeFormattedView>, Seq<char>> {
    match outcome {
        Ok(Some(formatted)) => Ok(Some(formatted@)),
        Ok(None) => Ok(None),
        Err(err) => Err(error_text(err)),
    }
}

/// `ToString::to_string` on the engine's error: its text, which is named.
#[verifier::external_body]
pub(crate) fn error_message(err: &arity_formatter::FormatError) -> (message: String)
    ensures
        message@ == error_text(*err),
{
    err.to_string()
}

/// The engine's own error for a text in which the parser found `count`
/// problems, `arity_formatter::FormatError::ParseErrors`, which reads as
/// [`parse_errors_text`] says.
#[verifier::external_body]
pub(crate) fn parse_errors(count: usize) -> (err: arity_formatter::FormatError)
    ensures
        error_text(err) == parse_errors_text(count as nat),
{
    arity_formatter::FormatError::ParseErrors { count }
}

/// `arity_formatter::LineEnding::resolve`: `Lf` and `Crlf` stand for
/// themselves, `Auto` for the first line ending of the source, and `Native` for
/// what the system uses, which is left open.
#[verifier::external_body]
pub(crate) fn resolve_line_ending(ending: LineEnding, source: &str) -> (eol: &'static str)
    ensures
        comes_to(ending, source@, eol@, lf(), crlf()),
{
    let ending = match ending {
        LineEnding::Auto => EngineEnding::Auto,
        LineEnding::Lf => EngineEnding::Lf,
        LineEnding::Crlf => EngineEnding::Crlf,
        LineEnding::Native => EngineEnding::Native,
    };
    ending.resolve(source)
}

/// Whether a line ending comes to CRLF on a source.
pub fn uses_crlf(ending: LineEnding, source: &str) -> (use_crlf: bool)
    ensures
        resolves_to(ending, source@, use_crlf),
{
    proof {
        reveal_strlit("\r\n");
        assert("\r\n"@ =~= crlf());
        assert(lf().len() != crlf().len());
    }
    same_text(resolve_line_ending(ending, source), "\r\n")
}

/// A style with its line ending settled to CRLF or to LF.
pub fn settle(style: FormatStyle, use_crlf: bool) -> (settled_style: FormatStyle)
    ensures
        settled_style == settled(style, use_crlf),
{
    FormatStyle {
        line_width: style.line_width,
        indent_width: style.indent_width,
        line_ending: if use_crlf {
            LineEnding::Crlf
        } else {
            LineEnding::Lf
        },
    }
}

/// Whether the engine can count the columns of a text of `len` bytes that it
/// indents by `indent_width` columns a level.
pub fn can_lay_out(len: usize, indent_width: usize) -> (can: bool)
    ensures
        can == fits_engine(len as int, indent_width as int),
{
    if len > u32::MAX as usize {
        return false;
    }
    proof {
        let (columns, levels) = (indent_width + 16, len + 2);
        assert(columns <= columns * levels && levels <= columns * levels) by (nonlinear_arith)
            requires
                columns >= 1,
                levels >= 1,
        ;
    }
    match (indent_width.checked_add(16), len.checked_add(2)) {
        (Some(columns), Some(levels)) => columns.checked_mul(levels).is_some(),
        _ => false,
    }
}

/// `arity_formatter::parser::parse_with_options`, of whose result the number of
/// diagnostics is taken. The number is named.
#[verifier::external_body]
pub(crate) fn count_parse_diagnostics(text: &str, options: &ParseOptions) -> (count: usize)
    requires
        text.spec_bytes().len() <= u32::MAX,
    ensures
        count == parse_diagnostic_count(text@, options.roxygen_markdown_default),
{
    let markdown = options.roxygen_markdown_default;
    let options = EngineOptions::default().with_roxygen_markdown_default(markdown);
    parse_with_options(text, &options).diagnostics.len()
}

/// `arity_formatter::format_with_options`: formats a whole text. The result is
/// named, and depends on the line ending by what it comes to on the text. A
/// text in which the parser finds problems is refused with their number. Where
/// the line ending comes to CRLF, the new text has no bare line feed, unless the
/// text is one that the engine was told to skip and hands back as it is. The
/// engine adds up its columns without a check, hence the bound on them.
#[verifier::external_body]
pub(crate) fn format_with_options(text: &str, style: FormatStyle, options: &ParseOptions) -> (
    outcome: Result<String, arity_formatter::FormatError>)
    requires
        fits_engine(text.spec_bytes().len() as int, style.indent_width as int),
    ensures
        comes_to(
            style.line_ending,
            text@,
            whole_outcome(outcome),
            engine_format(
                text@,
                style.line_width as nat,
                style.indent_width as nat,
                false,
                options.roxygen_markdown_default,
            ),
            engine_format(
                text@,
                style.line_width as nat,
                style.indent_width as nat,
                true,
                options.roxygen_markdown_default,
            ),
        ),
        parse_diagnostic_count(text@, options.roxygen_markdown_default) > 0 ==> is_refusal(
            whole_outcome(outcome),
            parse_errors_text(parse_diagnostic_count(text@, options.roxygen_markdown_default)),
        ),
        !resolves_to(style.line_ending, text@, false) ==> is_source_or_crlf(
            whole_outcome(outcome),
            text@,
        ),
{
    let line_ending = match style.line_ending {
        LineEnding::Auto => EngineEnding::Auto,
        LineEnding::Lf => EngineEnding::Lf,
        LineEnding::Crlf => EngineEnding::Crlf,
        LineEnding::Native => EngineEnding::Native,
    };
    let FormatStyle { line_width, indent_width, .. } = style;
    let style = EngineStyle { line_width, indent_width, line_ending };
    let markdown = options.roxygen_markdown_default;
    let options = EngineOptions::default().with_roxygen_markdown_default(markdown);
    arity_formatter::format_with_options(text, style, &options)
}

/// `arity_formatter::format_range` on the tree that the engine's parser builds
/// of the text: formats the statements that the bytes from `start` to `end`
/// touch. The result is named, and depends on the line ending by what it comes
/// to on the text. The bytes to replace are whole tokens of the text. The engine
/// adds up its columns without a check, hence the bound on them.
#[verifier::external_body]
pub(crate) fn format_range(
    text: &str,
    start: u32,
    end: u32,
    style: FormatStyle,
    options: &ParseOptions,
) -> (outcome: Result<Option<RangeFormatted>, arity_formatter::FormatError>)
    requires
        fits_engine(text.spec_bytes().len() as int, style.indent_width as int),
        start <= end <= text.spec_bytes().len(),
        parse_diagnostic_count(text@, options.roxygen_markdown_default) == 0,
    ensures
        comes_to(
            style.line_ending,
            text@,
            part_outcome(outcome),
            engine_format_range(
                text@,
                start as nat,
                end as nat,
                style.line_width as nat,
                style.indent_width as nat,
                false,
                options.roxygen_markdown_default,
            ),
            engine_format_range(
                text@,
                start as nat,
                end as nat,
                style.line_width as nat,
                style.indent_width as nat,
                true,
                options.roxygen_markdown_default,
            ),
        ),
        outcome matches Ok(Some(formatted)) ==> formatted.start <= formatted.end
            && is_char_boundary(text.spec_bytes(), formatted.start as int) && is_char_boundary(
            text.spec_bytes(),
            formatted.end as int,
        ),
{
    let line_ending = match style.line_ending {
        LineEnding::Auto => EngineEnding::Auto,
        LineEnding::Lf => EngineEnding::Lf,
        LineEnding::Crlf => EngineEnding::Crlf,
        LineEnding::Native => EngineEnding::Native,
    };
    let FormatStyle { line_width, indent_width, .. } = style;
    let style = EngineStyle { line_width, indent_width, line_ending };
    let markdown = options.roxygen_markdown_default;
    let options = EngineOptions::default().with_roxygen_markdown_default(markdown);
    let tree = parse_with_options(text, &options).cst;
    let range = TextRange::new(start.into(), end.into());
    let Some(done) = arity_formatter::format_range(&tree, range, style, text)? else { return Ok(None) };
    let (start, end) = (done.range.start().into(), done.range.end().into());
    Ok(Some(RangeFormatted { start, end, text: done.text }))
}

} // verus!
