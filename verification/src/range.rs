//! Formatting a part of a file.
use crate::config::{FormatStyle, ParseOptions};
use crate::engine::{
    RangeFormatted, RangeFormattedView, count_parse_diagnostics, engine_format_range, fits_engine,
    format_range, line_break, parse_diagnostic_count, parse_errors_text, resolves_to, settle,
    uses_crlf,
};
use crate::error::{FormattingError, format_error, parse_error};
use crate::text::{
    canonical, crlf, ends_with_return, lf, replace, same_text, starts_with_line_feed,
    with_line_breaks,
};
use std::ops::Range;
use vstd::prelude::*;
use vstd::string::StringSliceAdditionalSpecFns;
use vstd::utf8::{decode_utf8, encode_utf8, encode_utf8_decode_utf8, is_char_boundary};

verus! {

/// A text with the bytes from `start` to `end` taken out and `replacement` put
/// in their place.
pub open spec fn spliced(
    text: Seq<char>,
    start: int,
    end: int,
    replacement: Seq<char>,
) -> Seq<char> {
    let bytes = encode_utf8(text);
    decode_utf8(bytes.subrange(0, start)) + replacement + decode_utf8(
        bytes.subrange(end, bytes.len() as int),
    )
}

/// A formatted part with `eol` for each of its line breaks, whether it came
/// with CRLF or with LF.
pub open spec fn with_target_ending(part: Seq<char>, eol: Seq<char>) -> Seq<char> {
    with_line_breaks(canonical(part), eol)
}

/// Whether the bytes of a text up to `index` end with the carriage return of a
/// CRLF and the line feed of it comes next.
pub open spec fn splits_line_break(text: Seq<char>, index: int) -> bool {
    let bytes = encode_utf8(text);
    let before = decode_utf8(bytes.subrange(0, index));
    let behind = decode_utf8(bytes.subrange(index, bytes.len() as int));
    &&& before.len() > 0 && before.last() == '\r'
    &&& behind.len() > 0 && behind[0] == '\n'
}

/// What to put in the place of the bytes of a text up to `end`: `part`, and a
/// carriage return where the line feed behind `end` would lose its own.
pub open spec fn with_break_kept(text: Seq<char>, end: int, part: Seq<char>) -> Seq<char> {
    if splits_line_break(text, end) && !(part.len() > 0 && part.last() == '\r') {
        part.push('\r')
    } else {
        part
    }
}

/// What stands in the place of a formatted part's bytes when it is put into its
/// text with `eol` for its line breaks. A part whose line breaks are to be line
/// feeds goes in as it came.
pub open spec fn replacement(
    text: Seq<char>,
    part: RangeFormattedView,
    eol: Seq<char>,
) -> Seq<char> {
    if eol == lf() {
        part.text
    } else {
        with_break_kept(text, part.end as int, with_target_ending(part.text, eol))
    }
}

/// The texts of what formatting returned.
pub open spec fn text_outcome(outcome: Result<Option<String>, FormattingError>) -> Result<
    Option<Seq<char>>,
    Seq<char>,
> {
    match outcome {
        Ok(Some(text)) => Ok(Some(text@)),
        Ok(None) => Ok(None),
        Err(err) => Err(err@),
    }
}

/// What is wrong with a requested range on its own or for a file of `len`
/// bytes, if anything.
pub open spec fn range_problem(start: int, end: int, len: int) -> Option<Seq<char>> {
    if start > u32::MAX {
        Some("format range start does not fit in the file"@)
    } else if end > u32::MAX {
        Some("format range end does not fit in the file"@)
    } else if start > end {
        Some("format range start is after its end"@)
    } else if end > len {
        Some("format range extends past the end of file"@)
    } else {
        None
    }
}

/// What the engine makes of the bytes from `start` to `end` of a text, laid out
/// for CRLF or for LF.
pub open spec fn engine_part(
    text: Seq<char>,
    start: int,
    end: int,
    style: FormatStyle,
    markdown: bool,
    use_crlf: bool,
) -> Result<Option<RangeFormattedView>, Seq<char>> {
    engine_format_range(
        text,
        start as nat,
        end as nat,
        style.line_width as nat,
        style.indent_width as nat,
        use_crlf,
        markdown,
    )
}

/// Whether the bytes that a formatted part replaces are whole characters of its
/// text.
pub open spec fn part_fits(text: Seq<char>, part: RangeFormattedView) -> bool {
    &&& part.start <= part.end
    &&& is_char_boundary(encode_utf8(text), part.start as int)
    &&& is_char_boundary(encode_utf8(text), part.end as int)
}

/// What formatting the bytes from `start` to `end` of a text comes to, with the
/// line breaks that `use_crlf` asks for.
pub open spec fn range_outcome(
    text: Seq<char>,
    start: int,
    end: int,
    style: FormatStyle,
    markdown: bool,
    use_crlf: bool,
) -> Result<Option<Seq<char>>, Seq<char>> {
    match range_problem(start, end, encode_utf8(text).len() as int) {
        Some(message) => Err(message),
        None => if parse_diagnostic_count(text, markdown) > 0 {
            Err(parse_errors_text(parse_diagnostic_count(text, markdown)))
        } else {
            match engine_part(text, start, end, style, markdown, use_crlf) {
                Err(message) => Err(message),
                Ok(None) => Ok(None),
                Ok(Some(part)) => Ok(
                    Some(
                        spliced(
                            text,
                            part.start as int,
                            part.end as int,
                            replacement(text, part, line_break(use_crlf)),
                        ),
                    ),
                ),
            }
        },
    }
}

/// Whether formatting the bytes from `start` to `end` of a text comes to
/// `outcome` with the line breaks that `use_crlf` asks for. A part that was
/// spliced in fits the text.
pub open spec fn is_part_outcome(
    text: Seq<char>,
    start: int,
    end: int,
    style: FormatStyle,
    markdown: bool,
    use_crlf: bool,
    outcome: Result<Option<Seq<char>>, Seq<char>>,
) -> bool {
    &&& outcome == range_outcome(text, start, end, style, markdown, use_crlf)
    &&& outcome matches Ok(Some(_)) ==> part_fits(
        text,
        engine_part(text, start, end, style, markdown, use_crlf)->Ok_0->0,
    )
}

/// Whether formatting the bytes from `start` to `end` of a text can come to
/// `outcome`, by what its line ending can come to. Only `Native` leaves more
/// than one outcome.
pub open spec fn is_range_outcome(
    text: Seq<char>,
    start: int,
    end: int,
    style: FormatStyle,
    markdown: bool,
    outcome: Result<Option<Seq<char>>, Seq<char>>,
) -> bool {
    exists|use_crlf: bool|
        {
            &&& #[trigger] resolves_to(style.line_ending, text, use_crlf)
            &&& is_part_outcome(text, start, end, style, markdown, use_crlf, outcome)
        }
}

/// Puts a formatted part into its text, with `eol` for its line breaks.
///
/// A part that is to have line feeds goes in as it came. Any other is brought to
/// line feeds first, so that the ending is applied once. Where its bytes end
/// between the two characters of a CRLF, as they do behind a comment, the line
/// break there stays whole.
pub fn splice(text: &str, formatted: &RangeFormatted, eol: &str) -> (out: String)
    requires
        part_fits(text@, formatted@),
    ensures
        out@ == spliced(
            text@,
            formatted.start as int,
            formatted.end as int,
            replacement(text@, formatted@, eol@),
        ),
{
    proof {
        reveal_strlit("\n");
        reveal_strlit("\r\n");
        reveal_strlit("\r");
        assert("\n"@ =~= lf());
        assert("\r\n"@ =~= crlf());
        assert("\r"@ =~= seq!['\r']);
    }
    let before = text.split_at(formatted.start).0;
    let (covered, after) = text.split_at(formatted.end);
    proof {
        encode_utf8_decode_utf8(before@);
        encode_utf8_decode_utf8(covered@);
        encode_utf8_decode_utf8(after@);
    }
    let part = if same_text(eol, "\n") {
        formatted.text.clone()
    } else {
        let line_feeds = replace(formatted.text.as_str(), "\r\n", "\n");
        let mut part = replace(line_feeds.as_str(), "\n", eol);
        let ghost plain = part@;
        if ends_with_return(covered) && starts_with_line_feed(after) && !ends_with_return(
            part.as_str(),
        ) {
            part.append("\r");
            assert(part@ =~= plain.push('\r'));
        }
        part
    };
    let mut out = String::new();
    out.append(before);
    out.append(part.as_str());
    out.append(after);
    out
}

/// Formats only `range`, splicing the result back into `text`.
///
/// The engine widens the requested range out to whole statements and says what
/// it covered, so the splice goes by the range that comes back. The target
/// ending is applied to the replacement before splicing, or a CRLF file would
/// grow LF-only islands. The line ending is settled once, for the engine and
/// for the splice.
pub fn format_text_range(
    text: &str,
    range: Range<usize>,
    style: FormatStyle,
    parse_options: &ParseOptions,
) -> (outcome: Result<Option<String>, FormattingError>)
    requires
        range_problem(
            range.start as int,
            range.end as int,
            text.spec_bytes().len() as int,
        ) is None ==> fits_engine(text.spec_bytes().len() as int, style.indent_width as int),
    ensures
        is_range_outcome(
            text@,
            range.start as int,
            range.end as int,
            style,
            parse_options.roxygen_markdown_default,
            text_outcome(outcome),
        ),
{
    let use_crlf = uses_crlf(style.line_ending, text);
    if range.start > u32::MAX as usize {
        return Err(FormattingError::new("format range start does not fit in the file"));
    }
    if range.end > u32::MAX as usize {
        return Err(FormattingError::new("format range end does not fit in the file"));
    }
    if range.start > range.end {
        return Err(FormattingError::new("format range start is after its end"));
    }
    if range.end > text.as_bytes().len() {
        return Err(FormattingError::new("format range extends past the end of file"));
    }
    let diagnostics = count_parse_diagnostics(text, parse_options);
    if diagnostics > 0 {
        return Err(parse_error(diagnostics));
    }
    let outcome = format_range(
        text,
        range.start as u32,
        range.end as u32,
        settle(style, use_crlf),
        parse_options,
    );
    match outcome {
        Err(err) => Err(format_error(&err)),
        Ok(None) => Ok(None),
        Ok(Some(formatted)) => {
            let eol = if use_crlf {
                "\r\n"
            } else {
                "\n"
            };
            proof {
                reveal_strlit("\r\n");
                reveal_strlit("\n");
                assert(eol@ =~= line_break(use_crlf));
            }
            Ok(Some(splice(text, &formatted, eol)))
        },
    }
}

} // verus!
