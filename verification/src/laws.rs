//! What holds of the plugin as a whole.
use crate::config::{
    ConfigurationView, DiagnosticView, FormatStyle, GlobalConfiguration, LineEnding, NewLineKind,
    effective_line_ending, line_ending_of_kind, line_ending_problems, spelled_line_ending,
    style_of,
};
use crate::engine::{
    RangeFormattedView, engine_format, first_break_is_crlf, line_break, parse_diagnostic_count,
    parse_errors_text, resolves_to, settled,
};
use crate::handler::{
    change_of, handed_back, is_file_outcome, is_settled_outcome, is_text_outcome, is_whole_outcome,
};
use crate::range::{
    engine_part, is_part_outcome, is_range_outcome, part_fits, range_outcome, range_problem, replacement, spliced,
    splits_line_break, with_target_ending,
};
use crate::resolution::{
    fallback_indent_width, fallback_line_width, is_known_key, resolution_problems,
    resolved_configuration, u32_setting, unknown_entries,
};
use crate::settings::{
    Entry, RawValue, Reading, lookup, read_bool, read_text, reading_problems, unknown_properties,
};
use crate::text::{
    ascii_lowercase, canonical, crlf, decimal, digits_value, is_digit, lemma_first_line_break, lf,
    no_bare_line_feed, with_line_breaks,
};
use std::ops::Range;
use vstd::prelude::*;
use vstd::utf8::{
    decode_utf8, decode_utf8_encode_utf8, decode_utf8_split, encode_utf8, encode_utf8_decode_utf8,
    encode_utf8_valid_utf8, is_char_boundary, valid_utf8, valid_utf8_split,
};

verus! {

/// Each of the four line endings is spelled by its own lower-case name.
pub proof fn law_line_endings_have_their_names()
    ensures
        spelled_line_ending("auto"@) == Some(LineEnding::Auto),
        spelled_line_ending("lf"@) == Some(LineEnding::Lf),
        spelled_line_ending("crlf"@) == Some(LineEnding::Crlf),
        spelled_line_ending("native"@) == Some(LineEnding::Native),
{
    reveal_strlit("auto");
    reveal_strlit("lf");
    reveal_strlit("crlf");
    reveal_strlit("native");
    assert("auto"@.len() == 4 && "lf"@.len() == 2 && "crlf"@.len() == 4 && "native"@.len() == 6);
    assert("auto"@[0] == 'a' && "crlf"@[0] == 'c');
    assert(ascii_lowercase("auto"@) =~= "auto"@);
    assert(ascii_lowercase("lf"@) =~= "lf"@);
    assert(ascii_lowercase("crlf"@) =~= "crlf"@);
    assert(ascii_lowercase("native"@) =~= "native"@);
}

/// A global `newLineKind` always stands for a `lineEnding` that is spelled
/// right, and for the matching one.
pub proof fn law_global_kind_is_a_line_ending(kind: Option<NewLineKind>)
    ensures
        spelled_line_ending(line_ending_of_kind(kind)) == Some(
            match kind {
                Some(NewLineKind::LineFeed) => LineEnding::Lf,
                Some(NewLineKind::CarriageReturnLineFeed) => LineEnding::Crlf,
                Some(NewLineKind::Auto) => LineEnding::Auto,
                None => LineEnding::Auto,
            },
        ),
{
    law_line_endings_have_their_names();
}

/// How a `lineEnding` is capitalised makes no difference to the layout, nor to
/// what is reported.
pub proof fn law_line_ending_ignores_case(left: Seq<char>, right: Seq<char>)
    requires
        ascii_lowercase(left) == ascii_lowercase(right),
    ensures
        effective_line_ending(left) == effective_line_ending(right),
        line_ending_problems(left) == line_ending_problems(right),
{
}

/// Arity always indents with spaces: dprint's global `useTabs` has no effect.
pub proof fn law_use_tabs_has_no_effect(
    entries: Seq<Entry>,
    global: GlobalConfiguration,
    use_tabs: Option<bool>,
)
    ensures
        resolved_configuration(entries, global) == resolved_configuration(
            entries,
            (GlobalConfiguration { use_tabs, ..global }),
        ),
        resolution_problems(entries, global) == resolution_problems(
            entries,
            (GlobalConfiguration { use_tabs, ..global }),
        ),
{
}

/// An empty `arity` block takes dprint's global settings, and the plugin's own
/// fallbacks where dprint sets nothing, and nothing is reported.
pub proof fn law_empty_block_takes_fallbacks(entries: Seq<Entry>, global: GlobalConfiguration)
    requires
        entries.len() == 0,
    ensures
        resolved_configuration(entries, global) == (ConfigurationView {
            line_width: fallback_line_width(global),
            indent_width: fallback_indent_width(global),
            line_ending: line_ending_of_kind(global.new_line_kind),
            roxygen_markdown: false,
        }),
        resolution_problems(entries, global).len() == 0,
{
    reveal(Seq::filter);
    law_global_kind_is_a_line_ending(global.new_line_kind);
}

/// A number that is written in decimal is read back from its digits.
pub proof fn lemma_decimal_reads_back(value: int)
    requires
        value >= 0,
    ensures
        decimal(value).len() > 0,
        forall|i: int| 0 <= i < decimal(value).len() ==> is_digit(#[trigger] decimal(value)[i]),
        digits_value(decimal(value)) == value,
    decreases value,
{
    if value < 10 {
        assert(decimal(value).drop_last() =~= Seq::<char>::empty());
        assert(digits_value(Seq::<char>::empty()) == 0);
    } else {
        lemma_decimal_reads_back(value / 10);
        assert(decimal(value).drop_last() =~= decimal(value / 10));
    }
}

/// A number from zero up under a width key is taken as it is.
pub proof fn law_numbers_are_widths(entries: Seq<Entry>, key: Seq<char>, number: i32)
    requires
        lookup(entries, key) == Some(RawValue::Number(number)),
        number >= 0,
    ensures
        u32_setting(entries, key) == Reading::Found(number as u32),
{
    lemma_decimal_reads_back(number as int);
    assert(is_digit(decimal(number as int)[0]));
}

/// The plugin's own settings win: numbers from zero up under the width keys, a
/// string under `lineEnding` and a boolean under `roxygenMarkdown` are taken as
/// they are, whatever dprint's global configuration says.
pub proof fn law_own_settings_win(
    entries: Seq<Entry>,
    global: GlobalConfiguration,
    own: ConfigurationView,
)
    requires
        own.line_width <= i32::MAX,
        own.indent_width <= i32::MAX,
        lookup(entries, "lineWidth"@) == Some(RawValue::Number(own.line_width as i32)),
        lookup(entries, "indentWidth"@) == Some(RawValue::Number(own.indent_width as i32)),
        lookup(entries, "lineEnding"@) == Some(RawValue::Text(own.line_ending)),
        lookup(entries, "roxygenMarkdown"@) == Some(RawValue::Switch(own.roxygen_markdown)),
    ensures
        resolved_configuration(entries, global) == own,
{
    law_numbers_are_widths(entries, "lineWidth"@, own.line_width as i32);
    law_numbers_are_widths(entries, "indentWidth"@, own.indent_width as i32);
    reveal_strlit("true");
    reveal_strlit("false");
    assert("true"@.len() == 4 && "false"@.len() == 5);
}

/// The diagnostic on a key that is not the plugin's own.
pub open spec fn unknown_property(key: Seq<char>) -> DiagnosticView {
    DiagnosticView { property_name: key, message: "Unknown property in configuration"@ }
}

/// What the plugin reports on its own keys.
spec fn known_problems(entries: Seq<Entry>, global: GlobalConfiguration) -> Seq<DiagnosticView> {
    reading_problems("lineWidth"@, u32_setting(entries, "lineWidth"@)) + reading_problems(
        "indentWidth"@,
        u32_setting(entries, "indentWidth"@),
    ) + reading_problems("lineEnding"@, read_text(lookup(entries, "lineEnding"@)))
        + reading_problems("roxygenMarkdown"@, read_bool(lookup(entries, "roxygenMarkdown"@)))
        + line_ending_problems(resolved_configuration(entries, global).line_ending)
}

/// The reports on the plugin's own keys bear their names.
proof fn lemma_known_problems_are_named(entries: Seq<Entry>, global: GlobalConfiguration)
    ensures
        resolution_problems(entries, global) == known_problems(entries, global)
            + unknown_properties(unknown_entries(entries)),
        forall|i: int|
            0 <= i < known_problems(entries, global).len() ==> is_known_key(
                (#[trigger] known_problems(entries, global)[i]).property_name,
            ),
{
}

/// An unknown key that the block holds once is among the unknown entries once.
proof fn lemma_unknown_entry_once(entries: Seq<Entry>, at: int)
    requires
        0 <= at < entries.len(),
        !is_known_key(entries[at].0),
        forall|i: int|
            0 <= i < entries.len() && (#[trigger] entries[i]).0 == entries[at].0 ==> i == at,
    ensures
        exists|k: int|
            0 <= k < unknown_entries(entries).len() && (#[trigger] unknown_entries(entries)[k]).0
                == entries[at].0 && (forall|j: int|
                0 <= j < unknown_entries(entries).len() && (#[trigger] unknown_entries(
                    entries,
                )[j]).0 == entries[at].0 ==> j == k),
    decreases entries.len(),
{
    reveal(Seq::filter);
    let rest = entries.drop_last();
    let key = entries[at].0;
    if at == entries.len() - 1 {
        lemma_absent_key_stays_absent(rest, key);
        let k = unknown_entries(rest).len() as int;
        assert(unknown_entries(entries)[k].0 == key);
        assert forall|j: int|
            0 <= j < unknown_entries(entries).len() && (#[trigger] unknown_entries(entries)[j]).0
                == key implies j == k by {
            if j < k {
                assert(unknown_entries(rest)[j] == unknown_entries(entries)[j]);
            }
        }
    } else {
        assert forall|i: int| 0 <= i < rest.len() && (#[trigger] rest[i]).0 == key implies i
            == at by {
            assert(entries[i].0 == key);
        }
        lemma_unknown_entry_once(rest, at);
        let k = choose|k: int|
            0 <= k < unknown_entries(rest).len() && (#[trigger] unknown_entries(rest)[k]).0 == key
                && (forall|j: int|
                0 <= j < unknown_entries(rest).len() && (#[trigger] unknown_entries(rest)[j]).0
                    == key ==> j == k);
        assert(entries.last().0 != key);
        assert(unknown_entries(entries)[k] == unknown_entries(rest)[k]);
        assert forall|j: int|
            0 <= j < unknown_entries(entries).len() && (#[trigger] unknown_entries(entries)[j]).0
                == key implies j == k by {
            if j < unknown_entries(rest).len() {
                assert(unknown_entries(rest)[j] == unknown_entries(entries)[j]);
            }
        }
    }
}

/// A key that the block does not hold is not among the unknown entries.
proof fn lemma_absent_key_stays_absent(entries: Seq<Entry>, key: Seq<char>)
    requires
        forall|i: int| 0 <= i < entries.len() ==> (#[trigger] entries[i]).0 != key,
    ensures
        forall|i: int|
            0 <= i < unknown_entries(entries).len() ==> (#[trigger] unknown_entries(entries)[i]).0
                != key,
    decreases entries.len(),
{
    reveal(Seq::filter);
    if entries.len() > 0 {
        let rest = entries.drop_last();
        assert forall|i: int| 0 <= i < rest.len() implies (#[trigger] rest[i]).0 != key by {
            assert(entries[i].0 != key);
        }
        lemma_absent_key_stays_absent(rest, key);
        assert(entries[entries.len() - 1].0 != key);
        assert forall|i: int| 0 <= i < unknown_entries(entries).len() implies (
        #[trigger] unknown_entries(entries)[i]).0 != key by {
            if i < unknown_entries(rest).len() {
                assert(unknown_entries(rest)[i] == unknown_entries(entries)[i]);
            }
        }
    }
}

/// A key that is not the plugin's own is reported as unknown, once, and not
/// otherwise. A map of settings holds a key at most once.
pub proof fn law_unknown_key_is_reported_once(
    entries: Seq<Entry>,
    global: GlobalConfiguration,
    at: int,
)
    requires
        0 <= at < entries.len(),
        !is_known_key(entries[at].0),
        forall|i: int|
            0 <= i < entries.len() && (#[trigger] entries[i]).0 == entries[at].0 ==> i == at,
    ensures
        exists|k: int|
            0 <= k < resolution_problems(entries, global).len() && #[trigger] resolution_problems(
                entries,
                global,
            )[k] == unknown_property(entries[at].0) && (forall|j: int|
                0 <= j < resolution_problems(entries, global).len()
                    && (#[trigger] resolution_problems(entries, global)[j]).property_name
                    == entries[at].0 ==> j == k),
{
    lemma_known_problems_are_named(entries, global);
    lemma_unknown_entry_once(entries, at);
    let key = entries[at].0;
    let problems = resolution_problems(entries, global);
    let known = known_problems(entries, global);
    let unknown = unknown_entries(entries);
    let k = choose|k: int|
        0 <= k < unknown.len() && (#[trigger] unknown[k]).0 == key && (forall|j: int|
            0 <= j < unknown.len() && (#[trigger] unknown[j]).0 == key ==> j == k);
    assert(problems[known.len() + k] == unknown_properties(unknown)[k]);
    assert(problems[known.len() + k] == unknown_property(key));
    assert forall|j: int|
        0 <= j < problems.len() && (#[trigger] problems[j]).property_name == key implies j
        == known.len() + k by {
        if j < known.len() {
            assert(is_known_key(known[j].property_name));
        } else {
            assert(problems[j] == unknown_properties(unknown)[j - known.len()]);
            assert(unknown[j - known.len()].0 == key);
        }
    }
}

/// A key that is not the plugin's own and that the block does not hold is not
/// reported on.
pub proof fn law_absent_key_is_not_reported(
    entries: Seq<Entry>,
    global: GlobalConfiguration,
    key: Seq<char>,
)
    requires
        !is_known_key(key),
        forall|i: int| 0 <= i < entries.len() ==> (#[trigger] entries[i]).0 != key,
    ensures
        forall|i: int|
            0 <= i < resolution_problems(entries, global).len() ==> (
            #[trigger] resolution_problems(entries, global)[i]).property_name != key,
{
    lemma_known_problems_are_named(entries, global);
    lemma_absent_key_stays_absent(entries, key);
    let problems = resolution_problems(entries, global);
    let known = known_problems(entries, global);
    let unknown = unknown_entries(entries);
    assert forall|i: int| 0 <= i < problems.len() implies (
    #[trigger] problems[i]).property_name != key by {
        if i < known.len() {
            assert(is_known_key(known[i].property_name));
        } else {
            assert(problems[i] == unknown_properties(unknown)[i - known.len()]);
            assert(unknown[i - known.len()].0 != key);
        }
    }
}

/// No unknown entry is left exactly where every key is the plugin's own.
proof fn lemma_no_unknown_entries(entries: Seq<Entry>)
    ensures
        unknown_entries(entries).len() == 0 <==> (forall|i: int|
            0 <= i < entries.len() ==> is_known_key((#[trigger] entries[i]).0)),
    decreases entries.len(),
{
    reveal(Seq::filter);
    if entries.len() > 0 {
        let rest = entries.drop_last();
        lemma_no_unknown_entries(rest);
        if unknown_entries(entries).len() == 0 {
            assert forall|i: int| 0 <= i < entries.len() implies is_known_key(
                (#[trigger] entries[i]).0,
            ) by {
                if i < rest.len() {
                    assert(is_known_key(rest[i].0));
                }
            }
        }
        if forall|i: int| 0 <= i < entries.len() ==> is_known_key((#[trigger] entries[i]).0) {
            assert forall|i: int| 0 <= i < rest.len() implies is_known_key(
                (#[trigger] rest[i]).0,
            ) by {
                assert(is_known_key(entries[i].0));
            }
            assert(is_known_key(entries[entries.len() - 1].0));
        }
    }
}

/// Nothing is reported exactly where every key is the plugin's own, every value
/// is of its key's type, and the line ending is spelled right.
pub proof fn law_nothing_reported_means_nothing_wrong(
    entries: Seq<Entry>,
    global: GlobalConfiguration,
)
    ensures
        resolution_problems(entries, global).len() == 0 <==> {
            &&& forall|i: int| 0 <= i < entries.len() ==> is_known_key((#[trigger] entries[i]).0)
            &&& !(u32_setting(entries, "lineWidth"@) is Problem)
            &&& !(u32_setting(entries, "indentWidth"@) is Problem)
            &&& !(read_text(lookup(entries, "lineEnding"@)) is Problem)
            &&& !(read_bool(lookup(entries, "roxygenMarkdown"@)) is Problem)
            &&& spelled_line_ending(resolved_configuration(entries, global).line_ending) is Some
        },
{
    lemma_known_problems_are_named(entries, global);
    lemma_no_unknown_entries(entries);
}

/// Where resolving reported nothing on `lineEnding`, the layout's line ending is
/// the one that the configuration spells: nothing that is discarded later was
/// left unsaid.
pub proof fn law_reported_line_ending_is_used(entries: Seq<Entry>, global: GlobalConfiguration)
    requires
        forall|i: int|
            0 <= i < resolution_problems(entries, global).len() ==> (
            #[trigger] resolution_problems(entries, global)[i]).property_name != "lineEnding"@,
    ensures
        spelled_line_ending(resolved_configuration(entries, global).line_ending) == Some(
            style_of(resolved_configuration(entries, global)).line_ending,
        ),
{
    if spelled_line_ending(resolved_configuration(entries, global).line_ending) is None {
        law_unknown_line_ending_counts_as_auto(entries, global);
    }
}

/// A `lineEnding` that spells none is reported with its value and counts as
/// `auto`.
pub proof fn law_unknown_line_ending_counts_as_auto(
    entries: Seq<Entry>,
    global: GlobalConfiguration,
)
    requires
        spelled_line_ending(resolved_configuration(entries, global).line_ending) is None,
    ensures
        exists|i: int|
            0 <= i < resolution_problems(entries, global).len() && (
            #[trigger] resolution_problems(entries, global)[i]) == (DiagnosticView {
                property_name: "lineEnding"@,
                message: "Unknown line ending '"@ + ascii_lowercase(
                    resolved_configuration(entries, global).line_ending,
                ) + "'. Expected one of: auto, lf, crlf, native."@,
            }),
        style_of(resolved_configuration(entries, global)).line_ending == LineEnding::Auto,
{
    let before = reading_problems("lineWidth"@, u32_setting(entries, "lineWidth"@))
        + reading_problems("indentWidth"@, u32_setting(entries, "indentWidth"@))
        + reading_problems("lineEnding"@, read_text(lookup(entries, "lineEnding"@)))
        + reading_problems("roxygenMarkdown"@, read_bool(lookup(entries, "roxygenMarkdown"@)));
    let value = resolved_configuration(entries, global).line_ending;
    assert(resolution_problems(entries, global)[before.len() as int] == line_ending_problems(
        value,
    )[0]);
}

/// The bytes of two texts in a row are the bytes of the one and then of the
/// other.
proof fn lemma_encode_in_a_row(left: Seq<char>, right: Seq<char>)
    ensures
        encode_utf8(left + right) == encode_utf8(left) + encode_utf8(right),
    decreases left.len(),
{
    if left.len() == 0 {
        assert(left + right =~= right);
        assert(encode_utf8(left) + encode_utf8(right) =~= encode_utf8(right));
    } else {
        lemma_encode_in_a_row(left.drop_first(), right);
        assert((left + right).drop_first() =~= left.drop_first() + right);
        assert(encode_utf8(left + right) =~= encode_utf8(left) + encode_utf8(right));
    }
}

/// Range formatting only touches its range: the bytes before it and after it
/// are those of the file.
pub proof fn law_splice_keeps_the_rest(
    text: Seq<char>,
    start: int,
    end: int,
    replacement: Seq<char>,
)
    requires
        is_char_boundary(encode_utf8(text), start),
        is_char_boundary(encode_utf8(text), end),
    ensures
        encode_utf8(spliced(text, start, end, replacement)) == encode_utf8(text).subrange(0, start)
            + encode_utf8(replacement) + encode_utf8(text).subrange(
            end,
            encode_utf8(text).len() as int,
        ),
{
    let bytes = encode_utf8(text);
    let before = bytes.subrange(0, start);
    let after = bytes.subrange(end, bytes.len() as int);
    encode_utf8_valid_utf8(text);
    valid_utf8_split(bytes, start);
    valid_utf8_split(bytes, end);
    decode_utf8_encode_utf8(before);
    decode_utf8_encode_utf8(after);
    lemma_encode_in_a_row(decode_utf8(before), replacement);
    lemma_encode_in_a_row(decode_utf8(before) + replacement, decode_utf8(after));
}

/// A text that is written with CRLF line breaks has no bare line feed.
pub proof fn law_crlf_leaves_no_bare_line_feed(text: Seq<char>)
    ensures
        no_bare_line_feed(with_line_breaks(text, crlf())),
    decreases text.len(),
{
    if text.len() > 0 {
        law_crlf_leaves_no_bare_line_feed(text.skip(1));
        lemma_first_line_break(text, crlf());
        lemma_no_bare_line_feed_in_a_row(
            if text[0] == '\n' {
                crlf()
            } else {
                seq![text[0]]
            },
            with_line_breaks(text.skip(1), crlf()),
        );
    }
}

/// Two texts without a bare line feed have none when put in a row.
proof fn lemma_no_bare_line_feed_in_a_row(left: Seq<char>, right: Seq<char>)
    requires
        no_bare_line_feed(left),
        no_bare_line_feed(right),
    ensures
        no_bare_line_feed(left + right),
{
    let row = left + right;
    assert forall|i: int| 0 <= i < row.len() && #[trigger] row[i] == '\n' implies i > 0 && row[i
        - 1] == '\r' by {
        if i < left.len() {
            assert(left[i] == '\n');
        } else {
            assert(right[i - left.len()] == '\n');
        }
    }
}

/// A part that is spliced with CRLF line breaks into a file without a bare line
/// feed leaves the file without one.
#[verifier::spinoff_prover]
#[verifier::rlimit(40)]
pub proof fn law_splice_grows_no_bare_line_feed(text: Seq<char>, part: RangeFormattedView)
    requires
        part_fits(text, part),
        no_bare_line_feed(text),
    ensures
        no_bare_line_feed(
            spliced(text, part.start as int, part.end as int, replacement(text, part, crlf())),
        ),
{
    let bytes = encode_utf8(text);
    let (start, end) = (part.start as int, part.end as int);
    let before = decode_utf8(bytes.subrange(0, start));
    let covered = decode_utf8(bytes.subrange(0, end));
    let behind = decode_utf8(bytes.subrange(end, bytes.len() as int));
    let plain = with_target_ending(part.text, crlf());
    let new_part = replacement(text, part, crlf());
    encode_utf8_valid_utf8(text);
    encode_utf8_decode_utf8(text);
    decode_utf8_split(bytes, start);
    decode_utf8_split(bytes, end);
    assert(text == covered + behind);
    assert forall|i: int| 0 <= i < before.len() && #[trigger] before[i] == '\n' implies i > 0
        && before[i - 1] == '\r' by {
        assert(text[i] == '\n');
    }
    law_crlf_leaves_no_bare_line_feed(canonical(part.text));
    if new_part != plain {
        lemma_no_bare_line_feed_in_a_row(plain, seq!['\r']);
        assert(new_part =~= plain + seq!['\r']);
    }
    lemma_no_bare_line_feed_in_a_row(before, new_part);
    let upto = before + new_part;
    let row = upto + behind;
    assert forall|i: int| 0 <= i < row.len() && #[trigger] row[i] == '\n' implies i > 0 && row[i
        - 1] == '\r' by {
        if i < upto.len() {
            assert(upto[i] == '\n');
        } else {
            assert(text[covered.len() + (i - upto.len())] == '\n');
            if i == upto.len() {
                assert(covered.last() == '\r');
                assert(splits_line_break(text, end));
                assert(new_part.last() == '\r');
            }
        }
    }
}

/// Whether two carriage returns and a line feed stand at a place of a text.
pub open spec fn doubled_return_at(text: Seq<char>, i: int) -> bool {
    &&& 0 <= i && i + 2 < text.len()
    &&& text[i] == '\r' && text[i + 1] == '\r' && text[i + 2] == '\n'
}

/// Whether no line feed of a text stands behind two carriage returns.
pub open spec fn no_doubled_return(text: Seq<char>) -> bool {
    forall|i: int| !#[trigger] doubled_return_at(text, i)
}

/// Whether a text starts with CRLF.
pub open spec fn starts_with_crlf(text: Seq<char>) -> bool {
    text.len() >= 2 && text[0] == '\r' && text[1] == '\n'
}

/// What `with_target_ending` does with the first line break or character of a
/// part.
pub proof fn lemma_first_target_ending(part: Seq<char>, eol: Seq<char>)
    requires
        part.len() > 0,
    ensures
        with_target_ending(part, eol) == if starts_with_crlf(part) {
            eol + with_target_ending(part.skip(2), eol)
        } else if part[0] == '\n' {
            eol + with_target_ending(part.skip(1), eol)
        } else {
            seq![part[0]] + with_target_ending(part.skip(1), eol)
        },
{
    let line_feeds = canonical(part);
    if starts_with_crlf(part) {
        assert(part.take(2) =~= crlf());
        assert(line_feeds =~= lf() + canonical(part.skip(2)));
        assert(line_feeds.skip(1) =~= canonical(part.skip(2)));
    } else {
        if part.len() >= 2 && part.take(2) == crlf() {
            assert(part.take(2)[0] == '\r' && part.take(2)[1] == '\n');
        }
        assert(line_feeds =~= seq![part[0]] + canonical(part.skip(1)));
        assert(line_feeds.skip(1) =~= canonical(part.skip(1)));
    }
    lemma_first_line_break(line_feeds, eol);
}

/// A part with CRLF for its line breaks does not start with a line feed.
pub proof fn lemma_crlf_starts_no_line_feed(part: Seq<char>)
    ensures
        ({
            let out = with_target_ending(part, crlf());
            out.len() > 0 ==> out[0] != '\n'
        }),
{
    if part.len() > 0 {
        lemma_first_target_ending(part, crlf());
    }
}

/// The target ending is applied once: a part in which no line feed stands behind
/// two carriage returns has none such when it is put into a text either.
pub proof fn law_splice_doubles_no_return(
    text: Seq<char>,
    part: RangeFormattedView,
    use_crlf: bool,
)
    requires
        no_doubled_return(part.text),
    ensures
        no_doubled_return(replacement(text, part, line_break(use_crlf))),
{
    if use_crlf {
        let plain = with_target_ending(part.text, crlf());
        let new_part = replacement(text, part, crlf());
        lemma_crlf_doubles_no_return(part.text);
        assert(crlf().len() != lf().len());
        assert forall|i: int| !#[trigger] doubled_return_at(new_part, i) by {
            assert(!doubled_return_at(plain, i));
        }
    }
}

/// A part in which no line feed stands behind two carriage returns has none such
/// with CRLF for its line breaks.
proof fn lemma_crlf_doubles_no_return(part: Seq<char>)
    requires
        no_doubled_return(part),
    ensures
        no_doubled_return(with_target_ending(part, crlf())),
    decreases part.len(),
{
    let out = with_target_ending(part, crlf());
    if part.len() > 0 {
        lemma_first_target_ending(part, crlf());
        let whole_break = starts_with_crlf(part);
        let taken: int = if whole_break {
            2
        } else {
            1
        };
        let rest = part.skip(taken);
        let rest_out = with_target_ending(rest, crlf());
        let head = if whole_break || part[0] == '\n' {
            crlf()
        } else {
            seq![part[0]]
        };
        assert forall|i: int| !#[trigger] doubled_return_at(rest, i) by {
            assert(!doubled_return_at(part, i + taken));
        }
        lemma_crlf_doubles_no_return(rest);
        assert forall|i: int| !#[trigger] doubled_return_at(out, i) by {
            assert(!doubled_return_at(rest_out, i - head.len()));
            if i == 0 && doubled_return_at(out, i) {
                assert(rest_out[0] == '\r' && rest_out[1] == '\n');
                lemma_first_target_ending(rest, crlf());
                assert(!doubled_return_at(part, 0));
                if !starts_with_crlf(rest) && rest[0] != '\n' {
                    lemma_crlf_starts_no_line_feed(rest.skip(1));
                }
            }
        }
    }
}

/// A part whose line breaks are all CRLF keeps them as they are when CRLF is its
/// target ending.
pub proof fn law_crlf_part_stays(part: Seq<char>)
    requires
        no_bare_line_feed(part),
        no_doubled_return(part),
    ensures
        with_target_ending(part, crlf()) == part,
    decreases part.len(),
{
    if part.len() > 0 {
        lemma_first_target_ending(part, crlf());
        assert(part[0] != '\n');
        let taken: int = if starts_with_crlf(part) {
            2
        } else {
            1
        };
        let rest = part.skip(taken);
        assert forall|i: int| !#[trigger] doubled_return_at(rest, i) by {
            assert(!doubled_return_at(part, i + taken));
        }
        assert forall|i: int| 0 <= i < rest.len() && #[trigger] rest[i] == '\n' implies i > 0
            && rest[i - 1] == '\r' by {
            assert(part[i + taken] == '\n');
        }
        law_crlf_part_stays(rest);
        assert(with_target_ending(part, crlf()) =~= part);
    }
}

/// Range formatting only touches its range: outside the bytes that the engine
/// says it covered, the new text has the bytes of the old.
pub proof fn law_range_formatting_keeps_the_rest(
    text: Seq<char>,
    start: int,
    end: int,
    style: FormatStyle,
    markdown: bool,
    new_text: Seq<char>,
)
    requires
        is_range_outcome(text, start, end, style, markdown, Ok(Some(new_text))),
    ensures
        exists|use_crlf: bool|
            {
                let part = engine_part(text, start, end, style, markdown, use_crlf)->Ok_0->0;
                let old_bytes = encode_utf8(text);
                let new_bytes = encode_utf8(new_text);
                let kept = old_bytes.len() - part.end;
                &&& #[trigger] resolves_to(style.line_ending, text, use_crlf)
                &&& part.start <= part.end <= old_bytes.len()
                &&& part.start + kept <= new_bytes.len()
                &&& new_bytes.subrange(0, part.start as int) == old_bytes.subrange(
                    0,
                    part.start as int,
                )
                &&& new_bytes.subrange(new_bytes.len() - kept, new_bytes.len() as int)
                    == old_bytes.subrange(part.end as int, old_bytes.len() as int)
            },
{
    let use_crlf = choose|use_crlf: bool|
        {
            &&& #[trigger] resolves_to(style.line_ending, text, use_crlf)
            &&& is_part_outcome(text, start, end, style, markdown, use_crlf, Ok(Some(new_text)))
        };
    let part = engine_part(text, start, end, style, markdown, use_crlf)->Ok_0->0;
    let new_part = replacement(text, part, line_break(use_crlf));
    let old_bytes = encode_utf8(text);
    let new_bytes = encode_utf8(new_text);
    let kept = old_bytes.len() - part.end;
    lemma_boundary_is_inside(text, part.start as int);
    lemma_boundary_is_inside(text, part.end as int);
    law_splice_keeps_the_rest(text, part.start as int, part.end as int, new_part);
    assert(new_bytes.subrange(0, part.start as int) =~= old_bytes.subrange(0, part.start as int));
    assert(new_bytes.subrange(new_bytes.len() - kept, new_bytes.len() as int)
        =~= old_bytes.subrange(part.end as int, old_bytes.len() as int));
}

/// A boundary between characters of a text lies in the text.
proof fn lemma_boundary_is_inside(text: Seq<char>, index: int)
    requires
        is_char_boundary(encode_utf8(text), index),
    ensures
        0 <= index <= encode_utf8(text).len(),
{
    encode_utf8_valid_utf8(text);
}

/// Formatting a part of a file for CRLF grows no LF-only islands: a file without
/// a bare line feed has none afterwards, whichever line ending came to CRLF.
pub proof fn law_range_formatting_grows_no_bare_line_feed(
    text: Seq<char>,
    start: int,
    end: int,
    style: FormatStyle,
    markdown: bool,
    new_text: Seq<char>,
)
    requires
        is_part_outcome(text, start, end, style, markdown, true, Ok(Some(new_text))),
        no_bare_line_feed(text),
    ensures
        no_bare_line_feed(new_text),
{
    law_splice_grows_no_bare_line_feed(
        text,
        engine_part(text, start, end, style, markdown, true)->Ok_0->0,
    );
}

/// A file that is formatted whole comes out as the engine formats its text, with
/// nothing added: its new bytes, nothing where they are the old ones, or the
/// engine's message.
pub proof fn law_whole_file_is_the_engines(
    bytes: Seq<u8>,
    config: ConfigurationView,
    use_crlf: bool,
    outcome: Result<Option<Seq<u8>>, Seq<char>>,
)
    requires
        valid_utf8(bytes),
        is_settled_outcome(bytes, None, config, use_crlf, outcome),
    ensures
        outcome == match engine_format(
            decode_utf8(bytes),
            config.line_width as nat,
            config.indent_width as nat,
            use_crlf,
            config.roxygen_markdown,
        ) {
            Ok(new_text) => if new_text == decode_utf8(bytes) {
                Ok(None)
            } else {
                Ok(Some(encode_utf8(new_text)))
            },
            Err(message) => Err(message),
        },
{
}

/// A file of which a part is formatted comes out as its text does: its new
/// bytes, nothing where they are the old ones, or the message.
pub proof fn law_part_of_a_file_is_the_texts(
    bytes: Seq<u8>,
    part: Range<usize>,
    config: ConfigurationView,
    use_crlf: bool,
    outcome: Result<Option<Seq<u8>>, Seq<char>>,
)
    requires
        valid_utf8(bytes),
        is_settled_outcome(bytes, Some(part), config, use_crlf, outcome),
    ensures
        outcome == match range_outcome(
            decode_utf8(bytes),
            part.start as int,
            part.end as int,
            style_of(config),
            config.roxygen_markdown,
            use_crlf,
        ) {
            Ok(Some(new_text)) => if new_text == decode_utf8(bytes) {
                Ok(None)
            } else {
                Ok(Some(encode_utf8(new_text)))
            },
            Ok(None) => Ok(None),
            Err(message) => Err(message),
        },
{
}

/// A second run changes nothing: a file that came out of formatting is left as
/// it is by the next run, given that the engine leaves its own output alone.
pub proof fn law_second_run_changes_nothing(
    bytes: Seq<u8>,
    config: ConfigurationView,
    first_crlf: bool,
    second_crlf: bool,
    change: Seq<u8>,
    outcome: Result<Option<Seq<u8>>, Seq<char>>,
)
    requires
        is_settled_outcome(bytes, None, config, first_crlf, Ok(Some(change))),
        engine_format(
            decode_utf8(change),
            config.line_width as nat,
            config.indent_width as nat,
            second_crlf,
            config.roxygen_markdown,
        ) == Ok::<Seq<char>, Seq<char>>(decode_utf8(change)),
        is_settled_outcome(change, None, config, second_crlf, outcome),
    ensures
        outcome == Ok::<Option<Seq<u8>>, Seq<char>>(None),
{
    lemma_settled_change_differs(bytes, None, config, first_crlf, change);
    law_formatted_file_is_left_alone(change, config, second_crlf, outcome);
}

/// A file that the engine leaves as it is, is not handed back.
pub proof fn law_formatted_file_is_left_alone(
    bytes: Seq<u8>,
    config: ConfigurationView,
    use_crlf: bool,
    outcome: Result<Option<Seq<u8>>, Seq<char>>,
)
    requires
        valid_utf8(bytes),
        engine_format(
            decode_utf8(bytes),
            config.line_width as nat,
            config.indent_width as nat,
            use_crlf,
            config.roxygen_markdown,
        ) == Ok::<Seq<char>, Seq<char>>(decode_utf8(bytes)),
        is_settled_outcome(bytes, None, config, use_crlf, outcome),
    ensures
        outcome == Ok::<Option<Seq<u8>>, Seq<char>>(None),
{
    law_whole_file_is_the_engines(bytes, config, use_crlf, outcome);
}

/// A whole file that formatting for CRLF changed has CRLF for all of its line
/// breaks.
pub proof fn law_whole_file_takes_crlf(
    bytes: Seq<u8>,
    config: ConfigurationView,
    change: Seq<u8>,
)
    requires
        is_settled_outcome(bytes, None, config, true, Ok(Some(change))),
    ensures
        no_bare_line_feed(decode_utf8(change)),
{
    let text = decode_utf8(bytes);
    let style = settled(style_of(config), true);
    let outcome: Result<Option<Seq<u8>>, Seq<char>> = Ok(Some(change));
    let formatted = choose|formatted: Result<Option<Seq<char>>, Seq<char>>| #[trigger]
        is_text_outcome(text, None, style, config.roxygen_markdown, formatted) && outcome
            == handed_back(text, formatted);
    encode_utf8_decode_utf8(formatted->Ok_0->0);
}

/// A file is handed back only where formatting changed it.
pub proof fn law_a_change_differs_from_the_file(
    bytes: Seq<u8>,
    range: Option<Range<usize>>,
    config: ConfigurationView,
    change: Seq<u8>,
)
    requires
        is_file_outcome(bytes, range, config, Ok(Some(change))),
    ensures
        valid_utf8(bytes),
        valid_utf8(change),
        change != bytes,
{
    let use_crlf = choose|use_crlf: bool|
        {
            &&& #[trigger] resolves_to(
                style_of(config).line_ending,
                decode_utf8(bytes),
                use_crlf,
            )
            &&& is_settled_outcome(bytes, range, config, use_crlf, Ok(Some(change)))
        };
    lemma_settled_change_differs(bytes, range, config, use_crlf, change);
}

/// A file is handed back only where formatting changed it, by the ending that
/// was settled on.
proof fn lemma_settled_change_differs(
    bytes: Seq<u8>,
    range: Option<Range<usize>>,
    config: ConfigurationView,
    use_crlf: bool,
    change: Seq<u8>,
)
    requires
        is_settled_outcome(bytes, range, config, use_crlf, Ok(Some(change))),
    ensures
        valid_utf8(bytes),
        valid_utf8(change),
        change != bytes,
{
    let text = decode_utf8(bytes);
    let style = settled(style_of(config), use_crlf);
    let outcome: Result<Option<Seq<u8>>, Seq<char>> = Ok(Some(change));
    let formatted = choose|formatted: Result<Option<Seq<char>>, Seq<char>>| #[trigger]
        is_text_outcome(text, range, style, config.roxygen_markdown, formatted) && outcome
            == handed_back(text, formatted);
    let new_text = formatted->Ok_0->0;
    assert(change_of(text, Some(new_text)) == Some(change));
    encode_utf8_valid_utf8(new_text);
    encode_utf8_decode_utf8(new_text);
}

/// A range that does not lie in its file is an error, on every file.
pub proof fn law_range_outside_the_file_is_an_error(
    text: Seq<char>,
    start: int,
    end: int,
    style: FormatStyle,
    markdown: bool,
    outcome: Result<Option<Seq<char>>, Seq<char>>,
)
    requires
        is_range_outcome(text, start, end, style, markdown, outcome),
        start > end || end > encode_utf8(text).len(),
    ensures
        outcome is Err,
{
}

/// A text that does not parse gets the same message whether a part of it was to
/// be formatted or the whole.
pub proof fn law_parse_failures_read_alike(
    text: Seq<char>,
    start: int,
    end: int,
    style: FormatStyle,
    markdown: bool,
    whole: Result<Seq<char>, Seq<char>>,
    part: Result<Option<Seq<char>>, Seq<char>>,
)
    requires
        parse_diagnostic_count(text, markdown) > 0,
        range_problem(start, end, encode_utf8(text).len() as int) is None,
        is_whole_outcome(text, style, markdown, whole),
        is_range_outcome(text, start, end, style, markdown, part),
    ensures
        whole is Err,
        part is Err,
        whole->Err_0 == part->Err_0,
        part->Err_0 == parse_errors_text(parse_diagnostic_count(text, markdown)),
{
}

/// Formatting is deterministic: a request has one outcome. What `native` comes
/// to goes by the system, and on one system it comes to one line ending.
pub proof fn law_formatting_is_deterministic(
    bytes: Seq<u8>,
    range: Option<Range<usize>>,
    config: ConfigurationView,
    one_crlf: bool,
    other_crlf: bool,
    one: Result<Option<Seq<u8>>, Seq<char>>,
    other: Result<Option<Seq<u8>>, Seq<char>>,
)
    requires
        resolves_to(style_of(config).line_ending, decode_utf8(bytes), one_crlf),
        resolves_to(style_of(config).line_ending, decode_utf8(bytes), other_crlf),
        style_of(config).line_ending == LineEnding::Native ==> one_crlf == other_crlf,
        is_settled_outcome(bytes, range, config, one_crlf, one),
        is_settled_outcome(bytes, range, config, other_crlf, other),
    ensures
        one == other,
{
    if valid_utf8(bytes) {
        let text = decode_utf8(bytes);
        let style = settled(style_of(config), one_crlf);
        let markdown = config.roxygen_markdown;
        let left = choose|formatted: Result<Option<Seq<char>>, Seq<char>>|
            #[trigger] is_text_outcome(text, range, style, markdown, formatted) && one
                == handed_back(text, formatted);
        let right = choose|formatted: Result<Option<Seq<char>>, Seq<char>>|
            #[trigger] is_text_outcome(text, range, style, markdown, formatted) && other
                == handed_back(text, formatted);
        assert(left == right);
    }
}

/// A request whose line ending is not `native` has one outcome on every system.
pub proof fn law_formatting_is_the_same_on_every_system(
    bytes: Seq<u8>,
    range: Option<Range<usize>>,
    config: ConfigurationView,
    one: Result<Option<Seq<u8>>, Seq<char>>,
    other: Result<Option<Seq<u8>>, Seq<char>>,
)
    requires
        effective_line_ending(config.line_ending) != LineEnding::Native,
        is_file_outcome(bytes, range, config, one),
        is_file_outcome(bytes, range, config, other),
    ensures
        one == other,
{
    let ending = style_of(config).line_ending;
    let text = decode_utf8(bytes);
    let one_crlf = choose|use_crlf: bool| #[trigger]
        resolves_to(ending, text, use_crlf) && is_settled_outcome(
            bytes,
            range,
            config,
            use_crlf,
            one,
        );
    let other_crlf = choose|use_crlf: bool| #[trigger]
        resolves_to(ending, text, use_crlf) && is_settled_outcome(
            bytes,
            range,
            config,
            use_crlf,
            other,
        );
    law_formatting_is_deterministic(bytes, range, config, one_crlf, other_crlf, one, other);
}

/// A request under `native` comes out as under `lf` or as under `crlf`.
pub proof fn law_native_is_lf_or_crlf(
    bytes: Seq<u8>,
    range: Option<Range<usize>>,
    config: ConfigurationView,
    outcome: Result<Option<Seq<u8>>, Seq<char>>,
)
    requires
        effective_line_ending(config.line_ending) == LineEnding::Native,
        is_file_outcome(bytes, range, config, outcome),
    ensures
        ({
            ||| is_file_outcome(
                bytes,
                range,
                (ConfigurationView { line_ending: "lf"@, ..config }),
                outcome,
            )
            ||| is_file_outcome(
                bytes,
                range,
                (ConfigurationView { line_ending: "crlf"@, ..config }),
                outcome,
            )
        }),
{
    let text = decode_utf8(bytes);
    let ending = style_of(config).line_ending;
    let use_crlf = choose|use_crlf: bool| #[trigger]
        resolves_to(ending, text, use_crlf) && is_settled_outcome(
            bytes,
            range,
            config,
            use_crlf,
            outcome,
        );
    law_line_endings_have_their_names();
    let name = if use_crlf {
        "crlf"@
    } else {
        "lf"@
    };
    let named = ConfigurationView { line_ending: name, ..config };
    assert(settled(style_of(named), use_crlf) == settled(style_of(config), use_crlf));
    assert(resolves_to(style_of(named).line_ending, text, use_crlf));
    if valid_utf8(bytes) {
        let style = settled(style_of(config), use_crlf);
        let formatted = choose|formatted: Result<Option<Seq<char>>, Seq<char>>| #[trigger]
            is_text_outcome(text, range, style, config.roxygen_markdown, formatted) && outcome
                == handed_back(text, formatted);
        assert(is_text_outcome(text, range, style, named.roxygen_markdown, formatted));
    }
    assert(is_settled_outcome(bytes, range, named, use_crlf, outcome));
}

/// `auto` mirrors the source: a file whose first line break is CRLF is formatted
/// as under `crlf`, any other as under `lf`.
pub proof fn law_auto_mirrors_the_source(
    text: Seq<char>,
    style: FormatStyle,
    markdown: bool,
    outcome: Result<Seq<char>, Seq<char>>,
)
    requires
        style.line_ending == LineEnding::Auto,
    ensures
        is_whole_outcome(text, style, markdown, outcome) <==> is_whole_outcome(
            text,
            (FormatStyle {
                line_ending: if first_break_is_crlf(text) {
                    LineEnding::Crlf
                } else {
                    LineEnding::Lf
                },
                ..style
            }),
            markdown,
            outcome,
        ),
{
}

} // verus!
