//! What each operation comes to, said of its inputs and results.
use crate::config::{
    Configuration, ConfigurationDiagnostic, ConfigurationView, DiagnosticView, FormatStyle,
    GlobalConfiguration, LineEnding, NewLineKind, diagnostics_view, effective_line_ending,
    line_ending_of_kind, line_ending_problems, spelled_line_ending, style_of,
};
use crate::engine::{
    RangeFormatted, RangeFormattedView, engine_format, engine_format_range, first_break_is_crlf,
    fits_engine, parse_diagnostic_count, resolves_to, settled,
};
use crate::error::FormattingError;
use crate::handler::{
    bytes_outcome, change_of, handed_back, is_file_outcome, is_settled_outcome, is_text_outcome,
    is_whole_outcome, reaches_engine,
};
use crate::laws::{
    lemma_crlf_starts_no_line_feed, lemma_decimal_reads_back, lemma_first_target_ending,
    law_crlf_leaves_no_bare_line_feed, law_splice_keeps_the_rest, starts_with_crlf,
};
use crate::range::{
    is_part_outcome, is_range_outcome, part_fits, replacement, spliced, text_outcome,
    with_target_ending,
};
use crate::resolution::{is_known_key, resolution_problems, resolved_configuration};
use crate::settings::{
    Entry, RawValue, lookup, number_text, parsed_u32, read_bool, read_text, read_u32,
    reading_problems, u32_error_text,
};
use crate::text::{
    ascii_lowercase, canonical, crlf, decimal, is_digit, lf, no_bare_line_feed, utf8_error_text,
};
use std::ops::Range;
use vstd::prelude::*;
use vstd::utf8::{decode_utf8, encode_utf8, valid_utf8};

verus! {

// ---- `lineEnding` values ----

/// Lower case leaves a text's length and every character but `A` to `Z`.
pub proof fn law_lower_case(text: Seq<char>)
    ensures
        ascii_lowercase(text).len() == text.len(),
        forall|i: int|
            0 <= i < text.len() ==> (#[trigger] ascii_lowercase(text)[i]) as int == if 'A' as int
                <= text[i] as int <= 'Z' as int {
                text[i] as int + ('a' as int - 'A' as int)
            } else {
                text[i] as int
            },
{
}

/// A `lineEnding` stands for the ending that it spells in lower case. A value
/// that is none of the four names stands for `auto` and is reported once; one of
/// the four names is not reported.
pub proof fn law_line_ending_values(value: Seq<char>)
    ensures
        ({
            let lower = ascii_lowercase(value);
            let named = lower == "auto"@ || lower == "lf"@ || lower == "crlf"@ || lower
                == "native"@;
            &&& spelled_line_ending(value) is Some <==> named
            &&& lower == "auto"@ ==> effective_line_ending(value) == LineEnding::Auto
            &&& lower == "lf"@ ==> effective_line_ending(value) == LineEnding::Lf
            &&& lower == "crlf"@ ==> effective_line_ending(value) == LineEnding::Crlf
            &&& lower == "native"@ ==> effective_line_ending(value) == LineEnding::Native
            &&& named ==> line_ending_problems(value).len() == 0
            &&& !named ==> effective_line_ending(value) == LineEnding::Auto
            &&& !named ==> line_ending_problems(value).len() == 1
            &&& !named ==> line_ending_problems(value)[0].property_name == "lineEnding"@
            &&& !named ==> line_ending_problems(value)[0].message == "Unknown line ending '"@
                + lower + "'. Expected one of: auto, lf, crlf, native."@
        }),
{
    lemma_names_differ();
}

/// The names of the line endings differ from one another.
proof fn lemma_names_differ()
    ensures
        "auto"@ != "lf"@,
        "auto"@ != "crlf"@,
        "auto"@ != "native"@,
        "lf"@ != "crlf"@,
        "lf"@ != "native"@,
        "crlf"@ != "native"@,
{
    reveal_strlit("auto");
    reveal_strlit("lf");
    reveal_strlit("crlf");
    reveal_strlit("native");
    assert("auto"@.len() == 4 && "lf"@.len() == 2 && "crlf"@.len() == 4 && "native"@.len() == 6);
    assert("auto"@[0] == 'a' && "crlf"@[0] == 'c');
}

/// dprint's `newLineKind` stands for `lf` and `crlf` by name, and for `auto`
/// where it is automatic or unset.
pub proof fn law_new_line_kinds(kind: Option<NewLineKind>)
    ensures
        kind == Some(NewLineKind::LineFeed) ==> line_ending_of_kind(kind) == "lf"@,
        kind == Some(NewLineKind::CarriageReturnLineFeed) ==> line_ending_of_kind(kind) == "crlf"@,
        kind == Some(NewLineKind::Auto) || kind is None ==> line_ending_of_kind(kind) == "auto"@,
{
}

/// The layout has the widths of its configuration.
pub proof fn law_style_has_the_widths(config: ConfigurationView)
    ensures
        style_of(config).line_width == config.line_width,
        style_of(config).indent_width == config.indent_width,
        style_of(config).line_ending == effective_line_ending(config.line_ending),
{
}

// ---- Views and outcomes ----

/// A view has every field of its value.
pub proof fn law_views_have_every_field(
    config: Configuration,
    diagnostic: ConfigurationDiagnostic,
    part: RangeFormatted,
    err: FormattingError,
)
    ensures
        config@.line_width == config.line_width,
        config@.indent_width == config.indent_width,
        config@.line_ending == config.line_ending@,
        config@.roxygen_markdown == config.roxygen_markdown,
        diagnostic@.property_name == diagnostic.property_name@,
        diagnostic@.message == diagnostic.message@,
        part@.start == part.start,
        part@.end == part.end,
        part@.text == part.text@,
        err@ == err.message@,
{
}

/// A list of diagnostics is viewed one for one.
pub proof fn law_diagnostics_are_viewed_one_for_one(diagnostics: Seq<ConfigurationDiagnostic>)
    ensures
        diagnostics_view(diagnostics).len() == diagnostics.len(),
        forall|i: int|
            0 <= i < diagnostics.len() ==> #[trigger] diagnostics_view(diagnostics)[i]
                == diagnostics[i]@,
{
}

/// What formatting returned is viewed as the text or the bytes in it, nothing,
/// or its message.
pub proof fn law_outcomes_are_viewed_as_they_are(
    text: String,
    bytes: Vec<u8>,
    err: FormattingError,
)
    ensures
        text_outcome(Ok(Some(text))) == Ok::<Option<Seq<char>>, Seq<char>>(Some(text@)),
        text_outcome(Ok(None)) == Ok::<Option<Seq<char>>, Seq<char>>(None),
        text_outcome(Err(err)) == Err::<Option<Seq<char>>, Seq<char>>(err.message@),
        bytes_outcome(Ok(Some(bytes))) == Ok::<Option<Seq<u8>>, Seq<char>>(Some(bytes@)),
        bytes_outcome(Ok(None)) == Ok::<Option<Seq<u8>>, Seq<char>>(None),
        bytes_outcome(Err(err)) == Err::<Option<Seq<u8>>, Seq<char>>(err.message@),
{
}

// ---- Settings ----

/// The value under a key is that of the key's entry, and there is none where no
/// entry has the key.
pub proof fn law_setting_is_its_entry(entries: Seq<Entry>, key: Seq<char>)
    ensures
        forall|at: int|
            0 <= at < entries.len() && (#[trigger] entries[at]).0 == key && (forall|i: int|
                at < i < entries.len() ==> (#[trigger] entries[i]).0 != key) ==> lookup(
                entries,
                key,
            ) == Some(entries[at].1),
        (forall|i: int| 0 <= i < entries.len() ==> (#[trigger] entries[i]).0 != key) ==> lookup(
            entries,
            key,
        ) is None,
    decreases entries.len(),
{
    if entries.len() > 0 {
        let rest = entries.drop_last();
        law_setting_is_its_entry(rest, key);
        assert forall|at: int|
            0 <= at < entries.len() && (#[trigger] entries[at]).0 == key && (forall|i: int|
                at < i < entries.len() ==> (#[trigger] entries[i]).0 != key) implies lookup(
            entries,
            key,
        ) == Some(entries[at].1) by {
            if at < rest.len() {
                assert(entries[entries.len() - 1].0 != key);
                assert(rest[at].0 == key);
                assert forall|i: int| at < i < rest.len() implies (#[trigger] rest[i]).0 != key by {
                    assert(entries[i].0 != key);
                }
            }
        }
        if forall|i: int| 0 <= i < entries.len() ==> (#[trigger] entries[i]).0 != key {
            assert(entries[entries.len() - 1].0 != key);
            assert forall|i: int| 0 <= i < rest.len() implies (#[trigger] rest[i]).0 != key by {
                assert(entries[i].0 != key);
            }
        }
    }
}

/// A number that is written in decimal is read as that number.
pub proof fn law_written_numbers_are_read(number: u32)
    ensures
        parsed_u32(decimal(number as int)) == Some(number),
{
    lemma_decimal_reads_back(number as int);
    assert(is_digit(decimal(number as int)[0]));
}

/// What is wrong with a value under a width key, if anything.
pub open spec fn width_problem(value: Option<RawValue>) -> Option<Seq<char>> {
    match value {
        None => None,
        Some(RawValue::Null) => None,
        Some(RawValue::Compound) => Some("Arrays and objects are not supported for this value"@),
        Some(RawValue::Number(number)) => if number < 0 {
            Some(u32_error_text(decimal(number as int)))
        } else {
            None
        },
        Some(RawValue::Switch(on)) => Some(
            u32_error_text(
                if on {
                    "true"@
                } else {
                    "false"@
                },
            ),
        ),
        Some(RawValue::Text(text)) => if parsed_u32(text) is None {
            Some(u32_error_text(text))
        } else {
            None
        },
    }
}

/// No boolean and no negative number reads as a width.
proof fn lemma_no_widths(number: i32)
    ensures
        parsed_u32("true"@) is None,
        parsed_u32("false"@) is None,
        number < 0 ==> parsed_u32(decimal(number as int)) is None,
{
    reveal_strlit("true");
    reveal_strlit("false");
    assert("true"@.len() == 4 && "true"@[0] == 't' && "false"@.len() == 5 && "false"@[0] == 'f');
    if number < 0 {
        assert(decimal(number as int) =~= seq!['-'] + decimal(-(number as int)));
        assert(decimal(number as int)[0] == '-');
    }
}

/// The line width is that of the block where it is a number from zero up or a
/// text of one, whatever stands under the other keys, and else dprint's, and
/// else 80.
pub proof fn law_line_width_stands_alone(entries: Seq<Entry>, global: GlobalConfiguration)
    ensures
        ({
            let width = resolved_configuration(entries, global).line_width;
            let own = lookup(entries, "lineWidth"@);
            &&& own matches Some(RawValue::Number(number)) ==> number >= 0 ==> width == number
            &&& own matches Some(RawValue::Text(text)) ==> parsed_u32(text) matches Some(number)
                ==> width == number
            &&& own is None || own == Some(RawValue::Null) || width_problem(own) is Some ==> {
                &&& global.line_width matches Some(set) ==> width == set
                &&& global.line_width is None ==> width == 80
            }
        }),
{
    lemma_width_readings(lookup(entries, "lineWidth"@));
}

/// The indentation is that of the block where it is a number from zero up or a
/// text of one, whatever stands under the other keys, and else dprint's, and
/// else 2.
pub proof fn law_indent_width_stands_alone(entries: Seq<Entry>, global: GlobalConfiguration)
    ensures
        ({
            let width = resolved_configuration(entries, global).indent_width;
            let own = lookup(entries, "indentWidth"@);
            &&& own matches Some(RawValue::Number(number)) ==> number >= 0 ==> width == number
            &&& own matches Some(RawValue::Text(text)) ==> parsed_u32(text) matches Some(number)
                ==> width == number
            &&& own is None || own == Some(RawValue::Null) || width_problem(own) is Some ==> {
                &&& global.indent_width matches Some(set) ==> width == set
                &&& global.indent_width is None ==> width == 2
            }
        }),
{
    lemma_width_readings(lookup(entries, "indentWidth"@));
}

/// What a reader makes of a value under a width key.
proof fn lemma_width_readings(value: Option<RawValue>)
    ensures
        value matches Some(RawValue::Number(number)) ==> {
            &&& number >= 0 ==> parsed_u32(decimal(number as int)) == Some(number as u32)
            &&& number < 0 ==> parsed_u32(decimal(number as int)) is None
        },
        parsed_u32("true"@) is None,
        parsed_u32("false"@) is None,
{
    match value {
        Some(RawValue::Number(number)) => {
            lemma_no_widths(number);
            if number >= 0 {
                law_written_numbers_are_read(number as u32);
            }
        },
        _ => {
            lemma_no_widths(0);
        },
    }
}

/// The `lineEnding` is that of the block where it is a text, or the text of a
/// number or a boolean, whatever stands under the other keys, and else the one
/// of dprint's `newLineKind`.
pub proof fn law_line_ending_stands_alone(entries: Seq<Entry>, global: GlobalConfiguration)
    ensures
        ({
            let ending = resolved_configuration(entries, global).line_ending;
            let own = lookup(entries, "lineEnding"@);
            &&& own matches Some(RawValue::Text(text)) ==> ending == text
            &&& own matches Some(RawValue::Number(number)) ==> ending == decimal(number as int)
            &&& own == Some(RawValue::Switch(true)) ==> ending == "true"@
            &&& own == Some(RawValue::Switch(false)) ==> ending == "false"@
            &&& own is None || own == Some(RawValue::Null) || own == Some(RawValue::Compound) ==> {
                &&& global.new_line_kind == Some(NewLineKind::LineFeed) ==> ending == "lf"@
                &&& global.new_line_kind == Some(NewLineKind::CarriageReturnLineFeed) ==> ending
                    == "crlf"@
                &&& global.new_line_kind == Some(NewLineKind::Auto) || global.new_line_kind is None
                    ==> ending == "auto"@
            }
        }),
{
}

/// `roxygenMarkdown` is on exactly where the block holds `true`, as a boolean or
/// as a text, whatever stands under the other keys.
pub proof fn law_roxygen_markdown_stands_alone(entries: Seq<Entry>, global: GlobalConfiguration)
    ensures
        ({
            let own = lookup(entries, "roxygenMarkdown"@);
            resolved_configuration(entries, global).roxygen_markdown <==> {
                ||| own == Some(RawValue::Switch(true))
                ||| own == Some(RawValue::Text("true"@))
            }
        }),
{
    lemma_no_switches(0);
    match lookup(entries, "roxygenMarkdown"@) {
        Some(RawValue::Number(number)) => lemma_no_switches(number),
        _ => {},
    }
}

/// No number reads as a boolean.
proof fn lemma_no_switches(number: i32)
    ensures
        decimal(number as int) != "true"@,
        decimal(number as int) != "false"@,
        "true"@ != "false"@,
{
    reveal_strlit("true");
    reveal_strlit("false");
    assert("true"@.len() == 4 && "true"@[0] == 't' && "false"@.len() == 5 && "false"@[0] == 'f');
    if number >= 0 {
        lemma_decimal_reads_back(number as int);
        assert(is_digit(decimal(number as int)[0]));
    } else {
        assert(decimal(number as int) =~= seq!['-'] + decimal(-(number as int)));
        assert(decimal(number as int)[0] == '-');
    }
}

/// The plugin's own keys are these four.
pub proof fn law_the_keys_are_four(key: Seq<char>)
    ensures
        is_known_key(key) <==> {
            ||| key == "lineWidth"@
            ||| key == "indentWidth"@
            ||| key == "lineEnding"@
            ||| key == "roxygenMarkdown"@
        },
{
}

/// One diagnostic on `key` where there is a message, else none.
pub open spec fn report(key: Seq<char>, message: Option<Seq<char>>) -> Seq<DiagnosticView> {
    match message {
        Some(message) => seq![DiagnosticView { property_name: key, message }],
        None => seq![],
    }
}

/// What is wrong with the type of a value under `lineEnding`, if anything.
pub open spec fn text_problem(value: Option<RawValue>) -> Option<Seq<char>> {
    if value == Some(RawValue::Compound) {
        Some("Arrays and objects are not supported for this value"@)
    } else {
        None
    }
}

/// What is wrong with a value under `roxygenMarkdown`, if anything.
pub open spec fn switch_problem(value: Option<RawValue>) -> Option<Seq<char>> {
    match value {
        Some(RawValue::Compound) => Some("Arrays and objects are not supported for this value"@),
        Some(RawValue::Number(_)) => Some("provided string was not `true` or `false`"@),
        Some(RawValue::Text(text)) => if text == "true"@ || text == "false"@ {
            None
        } else {
            Some("provided string was not `true` or `false`"@)
        },
        _ => None,
    }
}

/// What is wrong with the spelling of a `lineEnding`, if anything.
pub open spec fn spelling_problem(value: Seq<char>) -> Option<Seq<char>> {
    let lower = ascii_lowercase(value);
    if lower == "auto"@ || lower == "lf"@ || lower == "crlf"@ || lower == "native"@ {
        None
    } else {
        Some(
            "Unknown line ending '"@ + lower + "'. Expected one of: auto, lf, crlf, native."@,
        )
    }
}

/// What a reader reports on a value under a width key.
proof fn lemma_width_report(key: Seq<char>, value: Option<RawValue>)
    ensures
        reading_problems(key, read_u32(value, u32_error_text(number_text(value)))) == report(
            key,
            width_problem(value),
        ),
{
    lemma_width_readings(value);
}

/// What a reader reports on a value under `lineEnding`.
proof fn lemma_text_report(key: Seq<char>, value: Option<RawValue>)
    ensures
        reading_problems(key, read_text(value)) == report(key, text_problem(value)),
{
}

/// What a reader reports on a value under `roxygenMarkdown`.
proof fn lemma_switch_report(key: Seq<char>, value: Option<RawValue>)
    ensures
        reading_problems(key, read_bool(value)) == report(key, switch_problem(value)),
{
    match value {
        Some(RawValue::Number(number)) => lemma_no_switches(number),
        _ => lemma_no_switches(0),
    }
}

/// Each value that does not suit its key is reported once with what is wrong
/// with it, in the order of the keys, then a `lineEnding` that spells none, and
/// then, in their order, the keys that are not the plugin's own.
pub proof fn law_what_is_reported(entries: Seq<Entry>, global: GlobalConfiguration)
    ensures
        resolution_problems(entries, global) == report(
            "lineWidth"@,
            width_problem(lookup(entries, "lineWidth"@)),
        ) + report("indentWidth"@, width_problem(lookup(entries, "indentWidth"@))) + report(
            "lineEnding"@,
            text_problem(lookup(entries, "lineEnding"@)),
        ) + report("roxygenMarkdown"@, switch_problem(lookup(entries, "roxygenMarkdown"@)))
            + report(
            "lineEnding"@,
            spelling_problem(resolved_configuration(entries, global).line_ending),
        ) + entries.filter(
            |entry: Entry|
                entry.0 != "lineWidth"@ && entry.0 != "indentWidth"@ && entry.0 != "lineEnding"@
                    && entry.0 != "roxygenMarkdown"@,
        ).map_values(
            |entry: Entry|
                DiagnosticView {
                    property_name: entry.0,
                    message: "Unknown property in configuration"@,
                },
        ),
{
    lemma_width_report("lineWidth"@, lookup(entries, "lineWidth"@));
    lemma_width_report("indentWidth"@, lookup(entries, "indentWidth"@));
    lemma_text_report("lineEnding"@, lookup(entries, "lineEnding"@));
    lemma_switch_report("roxygenMarkdown"@, lookup(entries, "roxygenMarkdown"@));
    let value = resolved_configuration(entries, global).line_ending;
    assert(line_ending_problems(value) == report("lineEnding"@, spelling_problem(value)));
    let ours = |entry: Entry| !is_known_key(entry.0);
    let named = |entry: Entry|
        entry.0 != "lineWidth"@ && entry.0 != "indentWidth"@ && entry.0 != "lineEnding"@ && entry.0
            != "roxygenMarkdown"@;
    assert(ours =~= named);
}

// ---- Line endings and sizes ----

/// The first line feed of a text decides for `auto`, by what stands before it.
pub proof fn law_first_line_feed_decides(text: Seq<char>, at: int)
    requires
        0 <= at < text.len(),
        text[at] == '\n',
        forall|i: int| 0 <= i < at ==> text[i] != '\n',
    ensures
        first_break_is_crlf(text) <==> at > 0 && text[at - 1] == '\r',
{
}

/// A text without a line feed counts as one with LF.
pub proof fn law_no_line_feed_counts_as_lf(text: Seq<char>)
    requires
        forall|i: int| 0 <= i < text.len() ==> text[i] != '\n',
    ensures
        !first_break_is_crlf(text),
{
}

/// `lf` and `crlf` come to themselves, `auto` to what the text has.
pub proof fn law_what_line_endings_come_to(text: Seq<char>, use_crlf: bool)
    ensures
        resolves_to(LineEnding::Lf, text, use_crlf) <==> !use_crlf,
        resolves_to(LineEnding::Crlf, text, use_crlf) <==> use_crlf,
        resolves_to(LineEnding::Auto, text, use_crlf) <==> use_crlf == first_break_is_crlf(text),
{
}

/// Settling the line ending leaves the widths.
pub proof fn law_settling_leaves_the_widths(style: FormatStyle, use_crlf: bool)
    ensures
        settled(style, use_crlf).line_width == style.line_width,
        settled(style, use_crlf).indent_width == style.indent_width,
        settled(style, use_crlf).line_ending == LineEnding::Crlf <==> use_crlf,
        settled(style, use_crlf).line_ending == LineEnding::Lf <==> !use_crlf,
{
}

/// A text of a million bytes is within the engine's reach at an indentation of a
/// thousand columns, and so is every smaller one.
pub proof fn law_ordinary_files_fit(len: int, indent_width: int)
    requires
        0 <= len <= 1_000_000,
        0 <= indent_width <= 1_000,
    ensures
        fits_engine(len, indent_width),
{
    assert((indent_width + 16) * (len + 2) <= 1_016 * 1_000_002) by (nonlinear_arith)
        requires
            0 <= len <= 1_000_000,
            0 <= indent_width <= 1_000,
    ;
}

/// A request gets as far as the engine exactly where the file is text and the
/// range, if there is one, lies in it.
pub proof fn law_what_reaches_the_engine(bytes: Seq<u8>, range: Option<Range<usize>>)
    ensures
        reaches_engine(bytes, range) <==> valid_utf8(bytes) && (range matches Some(part) ==> {
            &&& part.start <= part.end <= bytes.len()
            &&& part.end <= u32::MAX
        }),
{
}

// ---- Whole files ----

/// A whole text comes out as the engine formats it for the line ending: for LF
/// or CRLF where the style says so, and under `auto` for what the text has.
pub proof fn law_whole_text_by_line_ending(
    text: Seq<char>,
    style: FormatStyle,
    markdown: bool,
    outcome: Result<Seq<char>, Seq<char>>,
)
    requires
        is_whole_outcome(text, style, markdown, outcome),
    ensures
        ({
            let (width, indent) = (style.line_width as nat, style.indent_width as nat);
            let for_lf = engine_format(text, width, indent, false, markdown);
            let for_crlf = engine_format(text, width, indent, true, markdown);
            &&& style.line_ending == LineEnding::Lf ==> outcome == for_lf
            &&& style.line_ending == LineEnding::Crlf ==> outcome == for_crlf
            &&& style.line_ending == LineEnding::Auto ==> outcome == engine_format(
                text,
                width,
                indent,
                first_break_is_crlf(text),
                markdown,
            )
            &&& outcome == for_lf || outcome == for_crlf
        }),
{
}

/// What comes back of a file whose text is `text` when the engine's outcome for
/// it is `engines`: the new bytes where they are new, else nothing, or the
/// engine's message.
pub open spec fn comes_back(
    text: Seq<char>,
    engines: Result<Seq<char>, Seq<char>>,
    outcome: Result<Option<Seq<u8>>, Seq<char>>,
) -> bool {
    match engines {
        Ok(new_text) => if new_text == text {
            outcome == Ok::<Option<Seq<u8>>, Seq<char>>(None)
        } else {
            outcome == Ok::<Option<Seq<u8>>, Seq<char>>(Some(encode_utf8(new_text)))
        },
        Err(message) => outcome == Err::<Option<Seq<u8>>, Seq<char>>(message),
    }
}

/// A whole file comes out as the engine formats its text for the `lineEnding` of
/// the configuration: `lf` and `crlf` say which, `native` leaves it to the
/// system, and every other value keeps what the file has.
#[verifier::spinoff_prover]
#[verifier::rlimit(40)]
pub proof fn law_whole_file_by_line_ending(
    bytes: Seq<u8>,
    config: ConfigurationView,
    outcome: Result<Option<Seq<u8>>, Seq<char>>,
)
    requires
        valid_utf8(bytes),
        is_file_outcome(bytes, None, config, outcome),
    ensures
        ({
            let text = decode_utf8(bytes);
            let lower = ascii_lowercase(config.line_ending);
            let (width, indent) = (config.line_width as nat, config.indent_width as nat);
            let for_lf = engine_format(text, width, indent, false, config.roxygen_markdown);
            let for_crlf = engine_format(text, width, indent, true, config.roxygen_markdown);
            &&& lower == "lf"@ ==> comes_back(text, for_lf, outcome)
            &&& lower == "crlf"@ ==> comes_back(text, for_crlf, outcome)
            &&& lower == "native"@ ==> comes_back(text, for_lf, outcome) || comes_back(
                text,
                for_crlf,
                outcome,
            )
            &&& lower != "lf"@ && lower != "crlf"@ && lower != "native"@ ==> comes_back(
                text,
                engine_format(
                    text,
                    width,
                    indent,
                    first_break_is_crlf(text),
                    config.roxygen_markdown,
                ),
                outcome,
            )
        }),
{
    let text = decode_utf8(bytes);
    let style = style_of(config);
    let markdown = config.roxygen_markdown;
    law_line_ending_values(config.line_ending);
    lemma_names_differ();
    let use_crlf = choose|use_crlf: bool|
        {
            &&& #[trigger] resolves_to(style.line_ending, text, use_crlf)
            &&& is_settled_outcome(bytes, None, config, use_crlf, outcome)
        };
    let formatted = choose|formatted: Result<Option<Seq<char>>, Seq<char>>| #[trigger]
        is_text_outcome(text, None, settled(style, use_crlf), markdown, formatted) && outcome
            == handed_back(text, formatted);
    let whole: Result<Seq<char>, Seq<char>> = match formatted {
        Ok(new_text) => Ok(new_text->0),
        Err(message) => Err(message),
    };
    law_whole_text_by_line_ending(text, settled(style, use_crlf), markdown, whole);
}

/// Bytes that are not UTF-8 are refused, whatever was asked for.
pub proof fn law_what_is_not_text_is_refused(
    bytes: Seq<u8>,
    range: Option<Range<usize>>,
    config: ConfigurationView,
    outcome: Result<Option<Seq<u8>>, Seq<char>>,
)
    requires
        !valid_utf8(bytes),
        is_file_outcome(bytes, range, config, outcome),
    ensures
        outcome == Err::<Option<Seq<u8>>, Seq<char>>(
            "input is not valid UTF-8: "@ + utf8_error_text(bytes),
        ),
{
}

/// Only a text that differs is handed back, as its bytes.
pub proof fn law_only_what_differs_is_handed_back(text: Seq<char>, new_text: Seq<char>)
    ensures
        change_of(text, None) is None,
        new_text == text ==> change_of(text, Some(new_text)) is None,
        new_text != text ==> change_of(text, Some(new_text)) == Some(encode_utf8(new_text)),
{
}

// ---- Parts of files ----

/// A text with the carriage return of each CRLF taken out.
pub open spec fn without_break_returns(text: Seq<char>) -> Seq<char>
    decreases text.len(),
{
    if text.len() == 0 {
        text
    } else if text.len() >= 2 && text[0] == '\r' && text[1] == '\n' {
        seq!['\n'] + without_break_returns(text.skip(2))
    } else {
        seq![text[0]] + without_break_returns(text.skip(1))
    }
}

/// A text with every carriage return taken out.
pub open spec fn without_returns(text: Seq<char>) -> Seq<char>
    decreases text.len(),
{
    if text.len() == 0 {
        text
    } else if text[0] == '\r' {
        without_returns(text.skip(1))
    } else {
        seq![text[0]] + without_returns(text.skip(1))
    }
}

/// Whether `written` is `part` as it goes into a file: the part itself where LF
/// was asked for, and its characters with CRLF for each line break where CRLF
/// was.
pub open spec fn is_part_as_written(part: Seq<char>, use_crlf: bool, written: Seq<char>) -> bool {
    if use_crlf {
        &&& no_bare_line_feed(written)
        &&& without_break_returns(written) == without_break_returns(part)
        &&& without_returns(written) == without_returns(part)
    } else {
        written == part
    }
}

/// Whether `new_text` is `text` with an engine's part in the place of the bytes
/// that it covers: the bytes before them, the part as it is written, the bytes
/// behind them. Where CRLF was asked for and the covered bytes take the carriage
/// return of a CRLF but not its line feed, the part ends with one.
pub open spec fn is_text_with_part(
    text: Seq<char>,
    part: RangeFormattedView,
    use_crlf: bool,
    new_text: Seq<char>,
) -> bool {
    let bytes = encode_utf8(text);
    let covered = decode_utf8(bytes.subrange(0, part.end as int));
    let before = bytes.subrange(0, part.start as int);
    let behind = bytes.subrange(part.end as int, bytes.len() as int);
    let cuts_break = covered.len() > 0 && covered.last() == '\r' && decode_utf8(behind).len() > 0
        && decode_utf8(behind)[0] == '\n';
    exists|written: Seq<char>|
        {
            let ends = written.len() > 0 && written.last() == '\r';
            &&& #[trigger] is_part_as_written(part.text, use_crlf, written)
            &&& encode_utf8(new_text) == before + encode_utf8(
                if use_crlf && cuts_break && !ends {
                    written.push('\r')
                } else {
                    written
                },
            ) + behind
        }
}

/// What is left of a text that starts with CRLF when its carriage returns are
/// taken out.
proof fn lemma_without_returns_behind_crlf(rest: Seq<char>)
    ensures
        without_returns(crlf() + rest) == seq!['\n'] + without_returns(rest),
{
    let text = crlf() + rest;
    assert(text[0] == '\r' && text.skip(1)[0] == '\n');
    assert(text.skip(1).skip(1) =~= rest);
    assert(without_returns(text) == without_returns(text.skip(1)));
    assert(without_returns(text.skip(1)) == seq!['\n'] + without_returns(rest));
}

/// A part with CRLF for its line breaks has the characters of the part, but for
/// the carriage returns.
proof fn lemma_crlf_keeps_what_is_no_return(part: Seq<char>)
    ensures
        without_returns(with_target_ending(part, crlf())) == without_returns(part),
    decreases part.len(),
{
    let out = with_target_ending(part, crlf());
    if part.len() == 0 {
        assert(out =~= part);
    } else {
        lemma_first_target_ending(part, crlf());
        if starts_with_crlf(part) {
            lemma_crlf_keeps_what_is_no_return(part.skip(2));
            lemma_without_returns_behind_crlf(part.skip(2));
            lemma_without_returns_behind_crlf(with_target_ending(part.skip(2), crlf()));
            assert(part =~= crlf() + part.skip(2));
        } else {
            let rest_out = with_target_ending(part.skip(1), crlf());
            lemma_crlf_keeps_what_is_no_return(part.skip(1));
            lemma_without_returns_behind_crlf(rest_out);
            if part[0] != '\n' {
                assert(out.skip(1) =~= rest_out);
            }
        }
    }
}

/// A part with CRLF for its line breaks has the lines of the part.
proof fn lemma_crlf_keeps_the_lines(part: Seq<char>)
    ensures
        without_break_returns(with_target_ending(part, crlf())) == without_break_returns(part),
    decreases part.len(),
{
    let out = with_target_ending(part, crlf());
    if part.len() == 0 {
        assert(out =~= part);
    } else {
        lemma_first_target_ending(part, crlf());
        if starts_with_crlf(part) {
            lemma_crlf_keeps_the_lines(part.skip(2));
            assert(out.skip(2) =~= with_target_ending(part.skip(2), crlf()));
        } else if part[0] == '\n' {
            lemma_crlf_keeps_the_lines(part.skip(1));
            assert(out.skip(2) =~= with_target_ending(part.skip(1), crlf()));
        } else {
            lemma_crlf_keeps_the_lines(part.skip(1));
            lemma_crlf_starts_no_line_feed(part.skip(1));
            assert(out.skip(1) =~= with_target_ending(part.skip(1), crlf()));
        }
    }
}

/// Putting an engine's part into a text leaves the bytes before and behind it
/// and puts the part between them, as it is for LF, and with CRLF for each of
/// its line breaks for CRLF.
pub proof fn law_splice_puts_the_part_in(
    text: Seq<char>,
    part: RangeFormattedView,
    use_crlf: bool,
    eol: Seq<char>,
)
    requires
        part_fits(text, part),
        use_crlf ==> eol == seq!['\r', '\n'],
        !use_crlf ==> eol == seq!['\n'],
    ensures
        is_text_with_part(
            text,
            part,
            use_crlf,
            spliced(text, part.start as int, part.end as int, replacement(text, part, eol)),
        ),
{
    let new_part = replacement(text, part, eol);
    law_splice_keeps_the_rest(text, part.start as int, part.end as int, new_part);
    if use_crlf {
        assert(crlf().len() != lf().len());
        lemma_crlf_keeps_the_lines(part.text);
        lemma_crlf_keeps_what_is_no_return(part.text);
        law_crlf_leaves_no_bare_line_feed(canonical(part.text));
        let written = with_target_ending(part.text, crlf());
        assert(is_part_as_written(part.text, use_crlf, written));
    } else {
        assert(is_part_as_written(part.text, use_crlf, part.text));
    }
}

/// A requested range that does not lie in its file is refused, and the message
/// says how.
pub proof fn law_ranges_that_are_refused(
    text: Seq<char>,
    start: int,
    end: int,
    style: FormatStyle,
    markdown: bool,
    outcome: Result<Option<Seq<char>>, Seq<char>>,
)
    requires
        is_range_outcome(text, start, end, style, markdown, outcome),
    ensures
        ({
            let fits = start <= u32::MAX && end <= u32::MAX;
            let len = encode_utf8(text).len();
            let count = parse_diagnostic_count(text, markdown);
            &&& start > u32::MAX ==> is_message(
                outcome,
                "format range start does not fit in the file"@,
            )
            &&& start <= u32::MAX < end ==> is_message(
                outcome,
                "format range end does not fit in the file"@,
            )
            &&& fits && start > end ==> is_message(outcome, "format range start is after its end"@)
            &&& fits && start <= end && end > len ==> is_message(
                outcome,
                "format range extends past the end of file"@,
            )
            &&& fits && start <= end <= len && count > 0 ==> is_message(
                outcome,
                "input contains "@ + decimal(count as int)
                    + " parser diagnostic(s); formatter only supports parseable input"@,
            )
        }),
{
}

/// Whether an outcome is a refusal with the given message.
pub open spec fn is_message(
    outcome: Result<Option<Seq<char>>, Seq<char>>,
    message: Seq<char>,
) -> bool {
    outcome matches Err(given) && given == message
}

/// Whether `outcome` is what a text comes to where the engine's outcome for the
/// requested part of it is `engines`: the text with the part put in, nothing, or
/// the engine's message.
pub open spec fn takes_the_part(
    text: Seq<char>,
    use_crlf: bool,
    engines: Result<Option<RangeFormattedView>, Seq<char>>,
    outcome: Result<Option<Seq<char>>, Seq<char>>,
) -> bool {
    match engines {
        Ok(Some(part)) => outcome matches Ok(Some(new_text)) && is_text_with_part(
            text,
            part,
            use_crlf,
            new_text,
        ),
        Ok(None) => outcome matches Ok(None),
        Err(message) => is_message(outcome, message),
    }
}

/// A range that lies in a text which parses comes out as the text with the
/// engine's part put in, formatted and written for one line ending: for LF or
/// CRLF where the style says so, and under `auto` for what the text has.
pub proof fn law_range_by_line_ending(
    text: Seq<char>,
    start: int,
    end: int,
    style: FormatStyle,
    markdown: bool,
    outcome: Result<Option<Seq<char>>, Seq<char>>,
)
    requires
        is_range_outcome(text, start, end, style, markdown, outcome),
        0 <= start <= end <= encode_utf8(text).len(),
        end <= u32::MAX,
        parse_diagnostic_count(text, markdown) == 0,
    ensures
        ({
            let (width, indent) = (style.line_width as nat, style.indent_width as nat);
            let (from, to) = (start as nat, end as nat);
            let for_lf = engine_format_range(text, from, to, width, indent, false, markdown);
            let for_crlf = engine_format_range(text, from, to, width, indent, true, markdown);
            let (lf_taken, crlf_taken) = (
                takes_the_part(text, false, for_lf, outcome),
                takes_the_part(text, true, for_crlf, outcome),
            );
            &&& style.line_ending == LineEnding::Lf ==> lf_taken
            &&& style.line_ending == LineEnding::Crlf ==> crlf_taken
            &&& style.line_ending == LineEnding::Auto && first_break_is_crlf(text) ==> crlf_taken
            &&& style.line_ending == LineEnding::Auto && !first_break_is_crlf(text) ==> lf_taken
            &&& lf_taken || crlf_taken
        }),
{
    let use_crlf = choose|use_crlf: bool|
        {
            &&& #[trigger] resolves_to(style.line_ending, text, use_crlf)
            &&& is_part_outcome(text, start, end, style, markdown, use_crlf, outcome)
        };
    let engines = engine_format_range(
        text,
        start as nat,
        end as nat,
        style.line_width as nat,
        style.indent_width as nat,
        use_crlf,
        markdown,
    );
    if let Ok(Some(part)) = engines {
        law_splice_puts_the_part_in(
            text,
            part,
            use_crlf,
            if use_crlf {
                seq!['\r', '\n']
            } else {
                seq!['\n']
            },
        );
    }
    assert(takes_the_part(text, use_crlf, engines, outcome));
}

/// In a file that is to have LF, a part that the engine formatted goes in as it
/// came: the bytes before it, the part's own, the bytes behind it.
pub proof fn law_lf_part_goes_in_as_it_came(
    text: Seq<char>,
    start: int,
    end: int,
    style: FormatStyle,
    markdown: bool,
    part: RangeFormattedView,
    outcome: Result<Option<Seq<char>>, Seq<char>>,
)
    requires
        is_range_outcome(text, start, end, style, markdown, outcome),
        0 <= start <= end <= encode_utf8(text).len(),
        end <= u32::MAX,
        parse_diagnostic_count(text, markdown) == 0,
        style.line_ending == LineEnding::Lf || style.line_ending == LineEnding::Auto
            && !first_break_is_crlf(text),
        engine_format_range(
            text,
            start as nat,
            end as nat,
            style.line_width as nat,
            style.indent_width as nat,
            false,
            markdown,
        ) == Ok::<Option<RangeFormattedView>, Seq<char>>(Some(part)),
    ensures
        outcome matches Ok(Some(new_text)) && encode_utf8(new_text) == encode_utf8(text).subrange(
            0,
            part.start as int,
        ) + encode_utf8(part.text) + encode_utf8(text).subrange(
            part.end as int,
            encode_utf8(text).len() as int,
        ),
{
    law_range_by_line_ending(text, start, end, style, markdown, outcome);
}

/// What comes back of a file of which a part was formatted is what its text
/// comes to under the configuration's widths and line ending: the new bytes
/// where they are new, else nothing, or the message.
pub proof fn law_range_of_a_file(
    bytes: Seq<u8>,
    range: Range<usize>,
    config: ConfigurationView,
    outcome: Result<Option<Seq<u8>>, Seq<char>>,
)
    requires
        valid_utf8(bytes),
        is_file_outcome(bytes, Some(range), config, outcome),
    ensures
        ({
            let text = decode_utf8(bytes);
            exists|formatted: Result<Option<Seq<char>>, Seq<char>>|
                {
                    &&& #[trigger] is_range_outcome(
                        text,
                        range.start as int,
                        range.end as int,
                        (FormatStyle {
                            line_width: config.line_width as usize,
                            indent_width: config.indent_width as usize,
                            line_ending: effective_line_ending(config.line_ending),
                        }),
                        config.roxygen_markdown,
                        formatted,
                    )
                    &&& match formatted {
                        Ok(Some(new_text)) => comes_back(text, Ok(new_text), outcome),
                        Ok(None) => outcome == Ok::<Option<Seq<u8>>, Seq<char>>(None),
                        Err(message) => comes_back(text, Err(message), outcome),
                    }
                }
        }),
{
    let text = decode_utf8(bytes);
    let style = style_of(config);
    let markdown = config.roxygen_markdown;
    let (start, end) = (range.start as int, range.end as int);
    let use_crlf = choose|use_crlf: bool|
        {
            &&& #[trigger] resolves_to(style.line_ending, text, use_crlf)
            &&& is_settled_outcome(bytes, Some(range), config, use_crlf, outcome)
        };
    let formatted = choose|formatted: Result<Option<Seq<char>>, Seq<char>>| #[trigger]
        is_text_outcome(text, Some(range), settled(style, use_crlf), markdown, formatted) && outcome
            == handed_back(text, formatted);
    assert(is_part_outcome(text, start, end, style, markdown, use_crlf, formatted));
    assert(is_range_outcome(text, start, end, style, markdown, formatted));
}

} // verus!
