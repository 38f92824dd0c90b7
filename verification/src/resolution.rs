//! What the plugin's own block in dprint's configuration file and dprint's
//! global configuration add up to.
use crate::config::{
    ConfigurationView, DiagnosticView, GlobalConfiguration, line_ending_of_kind,
    line_ending_problems,
};
use crate::settings::{
    Entry, Reading, lemma_lookup_without, lookup, number_text, read_bool, read_text, read_u32,
    reading_or, reading_problems, u32_error_text, unknown_properties, without,
};
use vstd::prelude::*;

verus! {

/// Whether a key is one of the plugin's own.
pub open spec fn is_known_key(key: Seq<char>) -> bool {
    ||| key == "lineWidth"@
    ||| key == "indentWidth"@
    ||| key == "lineEnding"@
    ||| key == "roxygenMarkdown"@
}

/// The entries under keys that are not the plugin's own, in their order.
pub open spec fn unknown_entries(entries: Seq<Entry>) -> Seq<Entry> {
    entries.filter(|entry: Entry| !is_known_key(entry.0))
}

/// What the `arity` block says under a key that should hold a `u32`.
pub open spec fn u32_setting(entries: Seq<Entry>, key: Seq<char>) -> Reading<u32> {
    let raw = lookup(entries, key);
    read_u32(raw, u32_error_text(number_text(raw)))
}

/// The line width where the `arity` block sets none: dprint's, else 80.
pub open spec fn fallback_line_width(global: GlobalConfiguration) -> u32 {
    match global.line_width {
        Some(width) => width,
        None => 80,
    }
}

/// The indentation where the `arity` block sets none: dprint's, else 2.
pub open spec fn fallback_indent_width(global: GlobalConfiguration) -> u32 {
    match global.indent_width {
        Some(width) => width as u32,
        None => 2,
    }
}

/// The configuration that an `arity` block and dprint's global configuration
/// add up to: each key of the block where it holds a value of its type, else
/// the key's fallback.
pub open spec fn resolved_configuration(
    entries: Seq<Entry>,
    global: GlobalConfiguration,
) -> ConfigurationView {
    ConfigurationView {
        line_width: reading_or(u32_setting(entries, "lineWidth"@), fallback_line_width(global)),
        indent_width: reading_or(
            u32_setting(entries, "indentWidth"@),
            fallback_indent_width(global),
        ),
        line_ending: reading_or(
            read_text(lookup(entries, "lineEnding"@)),
            line_ending_of_kind(global.new_line_kind),
        ),
        roxygen_markdown: reading_or(read_bool(lookup(entries, "roxygenMarkdown"@)), false),
    }
}

/// What is reported on an `arity` block: the values of the wrong type, then a
/// `lineEnding` that spells none, then the unknown keys.
pub open spec fn resolution_problems(
    entries: Seq<Entry>,
    global: GlobalConfiguration,
) -> Seq<DiagnosticView> {
    reading_problems("lineWidth"@, u32_setting(entries, "lineWidth"@)) + reading_problems(
        "indentWidth"@,
        u32_setting(entries, "indentWidth"@),
    ) + reading_problems("lineEnding"@, read_text(lookup(entries, "lineEnding"@)))
        + reading_problems("roxygenMarkdown"@, read_bool(lookup(entries, "roxygenMarkdown"@)))
        + line_ending_problems(resolved_configuration(entries, global).line_ending)
        + unknown_properties(unknown_entries(entries))
}

/// The plugin's four keys differ from one another.
pub proof fn lemma_known_keys_differ()
    ensures
        "lineWidth"@ != "indentWidth"@,
        "lineWidth"@ != "lineEnding"@,
        "lineWidth"@ != "roxygenMarkdown"@,
        "indentWidth"@ != "lineEnding"@,
        "indentWidth"@ != "roxygenMarkdown"@,
        "lineEnding"@ != "roxygenMarkdown"@,
{
    reveal_strlit("lineWidth");
    reveal_strlit("indentWidth");
    reveal_strlit("lineEnding");
    reveal_strlit("roxygenMarkdown");
    assert("lineWidth"@.len() == 9);
    assert("indentWidth"@.len() == 11);
    assert("lineEnding"@.len() == 10);
    assert("roxygenMarkdown"@.len() == 15);
}

/// Taking the plugin's four keys out one after the other hides none of them
/// from its reader.
pub proof fn lemma_reading_in_turn(entries: Seq<Entry>)
    ensures
        ({
            let second = without(entries, "lineWidth"@);
            let third = without(second, "indentWidth"@);
            let fourth = without(third, "lineEnding"@);
            &&& lookup(second, "indentWidth"@) == lookup(entries, "indentWidth"@)
            &&& lookup(third, "lineEnding"@) == lookup(entries, "lineEnding"@)
            &&& lookup(fourth, "roxygenMarkdown"@) == lookup(entries, "roxygenMarkdown"@)
        }),
{
    lemma_known_keys_differ();
    let second = without(entries, "lineWidth"@);
    let third = without(second, "indentWidth"@);
    lemma_lookup_without(entries, "lineWidth"@, "indentWidth"@);
    lemma_lookup_without(entries, "lineWidth"@, "lineEnding"@);
    lemma_lookup_without(entries, "lineWidth"@, "roxygenMarkdown"@);
    lemma_lookup_without(second, "indentWidth"@, "lineEnding"@);
    lemma_lookup_without(second, "indentWidth"@, "roxygenMarkdown"@);
    lemma_lookup_without(third, "lineEnding"@, "roxygenMarkdown"@);
}

/// What is left once the plugin's four keys are taken out is what stands under
/// other keys.
pub proof fn lemma_taking_known_keys(entries: Seq<Entry>)
    ensures
        without(
            without(without(without(entries, "lineWidth"@), "indentWidth"@), "lineEnding"@),
            "roxygenMarkdown"@,
        ) == unknown_entries(entries),
    decreases entries.len(),
{
    reveal(Seq::filter);
    if entries.len() > 0 {
        let rest = entries.drop_last();
        lemma_taking_known_keys(rest);
        let first = without(entries, "lineWidth"@);
        let second = without(first, "indentWidth"@);
        let third = without(second, "lineEnding"@);
        let rest_first = without(rest, "lineWidth"@);
        let rest_second = without(rest_first, "indentWidth"@);
        let rest_third = without(rest_second, "lineEnding"@);
        let last = entries.last();
        if last.0 != "lineWidth"@ {
            assert(first.drop_last() =~= rest_first);
            if last.0 != "indentWidth"@ {
                assert(second.drop_last() =~= rest_second);
                if last.0 != "lineEnding"@ {
                    assert(third.drop_last() =~= rest_third);
                }
            }
        }
    }
}

} // verus!
