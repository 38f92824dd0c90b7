//! Reading settings out of the map of keys and values that dprint hands over.
//!
//! The map stays dprint's own. Its entries have a name in the specifications,
//! and each of dprint's readers that the plugin calls has a contract over it.
use crate::config::{ConfigurationDiagnostic, DiagnosticView, diagnostics_view};
use crate::text::{decimal, digits_value, is_digit};
use dprint_core::configuration::{
    ConfigKeyMap, get_unknown_property_diagnostics, get_value,
};
use vstd::prelude::*;

verus! {

/// dprint's map type, which keeps its keys in the order of their insertion.
#[verifier::external_type_specification]
#[verifier::external_body]
#[verifier::reject_recursive_types(K)]
#[verifier::reject_recursive_types(V)]
#[verifier::reject_recursive_types(S)]
pub struct ExIndexMap<K, V, S>(indexmap::IndexMap<K, V, S>);

/// The values of dprint's map, opaque here.
#[verifier::external_type_specification]
#[verifier::external_body]
pub struct ExConfigKeyValue(dprint_core::configuration::ConfigKeyValue);

/// A value of the map, as far as a reader can tell it from others.
pub enum RawValue {
    /// A string.
    Text(Seq<char>),
    /// A number.
    Number(i32),
    /// A boolean.
    Switch(bool),
    /// An array or an object.
    Compound,
    /// JSON's null, which counts as no value.
    Null,
}

/// One key of the map with its value.
pub type Entry = (Seq<char>, RawValue);

/// The keys of a map with their values, in the map's order.
pub uninterp spec fn config_entries(config: ConfigKeyMap) -> Seq<Entry>;

/// The value under `key`, if there is one.
pub open spec fn lookup(entries: Seq<Entry>, key: Seq<char>) -> Option<RawValue>
    decreases entries.len(),
{
    if entries.len() == 0 {
        None
    } else if entries.last().0 == key {
        Some(entries.last().1)
    } else {
        lookup(entries.drop_last(), key)
    }
}

/// The entries under other keys than `key`, in their order.
pub open spec fn without(entries: Seq<Entry>, key: Seq<char>) -> Seq<Entry> {
    entries.filter(|entry: Entry| entry.0 != key)
}

/// Taking one key out leaves the value of another key as it is.
pub proof fn lemma_lookup_without(entries: Seq<Entry>, taken: Seq<char>, key: Seq<char>)
    requires
        taken != key,
    ensures
        lookup(without(entries, taken), key) == lookup(entries, key),
    decreases entries.len(),
{
    reveal(Seq::filter);
    if entries.len() > 0 {
        lemma_lookup_without(entries.drop_last(), taken, key);
        if entries.last().0 != taken {
            assert(without(entries, taken).drop_last() =~= without(entries.drop_last(), taken));
        }
    }
}

/// The text that a reader makes of a string, a number or a boolean.
pub open spec fn raw_text(value: RawValue) -> Option<Seq<char>> {
    match value {
        RawValue::Text(text) => Some(text),
        RawValue::Number(number) => Some(decimal(number as int)),
        RawValue::Switch(true) => Some("true"@),
        RawValue::Switch(false) => Some("false"@),
        RawValue::Compound => None,
        RawValue::Null => None,
    }
}

/// What a reader finds under a key.
pub enum Reading<T> {
    /// Nothing, or null.
    Absent,
    /// A value of the wanted type.
    Found(T),
    /// Something else, with the message on it.
    Problem(Seq<char>),
}

/// What a reader returns: the value it found, or else `default_value`.
pub open spec fn reading_or<T>(reading: Reading<T>, default_value: T) -> T {
    match reading {
        Reading::Found(value) => value,
        _ => default_value,
    }
}

/// What a reader reports: its problem, if it met one.
pub open spec fn reading_problems<T>(key: Seq<char>, reading: Reading<T>) -> Seq<DiagnosticView> {
    match reading {
        Reading::Problem(message) => seq![DiagnosticView { property_name: key, message }],
        _ => seq![],
    }
}

/// The message on an array or an object.
pub open spec fn compound_problem() -> Seq<char> {
    "Arrays and objects are not supported for this value"@
}

/// What stands behind an optional plus sign.
pub open spec fn after_plus(text: Seq<char>) -> Seq<char> {
    if text.len() > 0 && text[0] == '+' {
        text.skip(1)
    } else {
        text
    }
}

/// The number that a text stands for: an optional plus sign, then digits and
/// nothing else, of a value that `u32` can hold.
pub open spec fn parsed_u32(text: Seq<char>) -> Option<u32> {
    let digits = after_plus(text);
    if digits.len() > 0 && (forall|i: int|
        0 <= i < digits.len() ==> is_digit(#[trigger] digits[i])) && digits_value(digits)
        <= u32::MAX {
        Some(digits_value(digits) as u32)
    } else {
        None
    }
}

/// The boolean that a text stands for.
pub open spec fn parsed_bool(text: Seq<char>) -> Option<bool> {
    if text == "true"@ {
        Some(true)
    } else if text == "false"@ {
        Some(false)
    } else {
        None
    }
}

/// What the error of parsing `text` as a `u32` reads as.
pub uninterp spec fn u32_error_text(text: Seq<char>) -> Seq<char>;

/// What the error of parsing a text as a `bool` reads as.
pub open spec fn bool_problem() -> Seq<char> {
    "provided string was not `true` or `false`"@
}

/// The text of a value that should be a number, empty where it has none.
pub open spec fn number_text(value: Option<RawValue>) -> Seq<char> {
    match value {
        None => seq![],
        Some(raw) => match raw_text(raw) {
            None => seq![],
            Some(text) => text,
        },
    }
}

/// What a value holds that should be a `u32`, where `problem` is the message on
/// a text that does not parse.
pub open spec fn read_u32(value: Option<RawValue>, problem: Seq<char>) -> Reading<u32> {
    match value {
        None => Reading::Absent,
        Some(RawValue::Null) => Reading::Absent,
        Some(raw) => match raw_text(raw) {
            None => Reading::Problem(compound_problem()),
            Some(text) => match parsed_u32(text) {
                Some(number) => Reading::Found(number),
                None => Reading::Problem(problem),
            },
        },
    }
}

/// What a value holds that should be a `bool`.
pub open spec fn read_bool(value: Option<RawValue>) -> Reading<bool> {
    match value {
        None => Reading::Absent,
        Some(RawValue::Null) => Reading::Absent,
        Some(raw) => match raw_text(raw) {
            None => Reading::Problem(compound_problem()),
            Some(text) => match parsed_bool(text) {
                Some(switch) => Reading::Found(switch),
                None => Reading::Problem(bool_problem()),
            },
        },
    }
}

/// What a value holds that should be a string.
pub open spec fn read_text(value: Option<RawValue>) -> Reading<Seq<char>> {
    match value {
        None => Reading::Absent,
        Some(RawValue::Null) => Reading::Absent,
        Some(raw) => match raw_text(raw) {
            None => Reading::Problem(compound_problem()),
            Some(text) => Reading::Found(text),
        },
    }
}

/// What is reported on entries that no reader has taken.
pub open spec fn unknown_properties(entries: Seq<Entry>) -> Seq<DiagnosticView> {
    entries.map_values(
        |entry: Entry|
            DiagnosticView {
                property_name: entry.0,
                message: "Unknown property in configuration"@,
            },
    )
}

/// `dprint_core::configuration::get_value` at `u32`: takes the entry under
/// `key` out of the map and parses its text, falls back to `default_value`, and
/// adds a diagnostic where there is a value that is no `u32`. The wording of a
/// parse error is named, not spelled out.
#[verifier::external_body]
pub(crate) fn get_u32(
    config: &mut ConfigKeyMap,
    key: &str,
    default_value: u32,
    diagnostics: &mut Vec<ConfigurationDiagnostic>,
) -> (value: u32)
    ensures
        ({
            let raw = lookup(config_entries(*old(config)), key@);
            let reading = read_u32(raw, u32_error_text(number_text(raw)));
            &&& value == reading_or(reading, default_value)
            &&& diagnostics_view(final(diagnostics)@) == diagnostics_view(old(diagnostics)@)
                + reading_problems(key@, reading)
        }),
        config_entries(*final(config)) == without(config_entries(*old(config)), key@),
{
    let mut found = Vec::new();
    let value = get_value(config, key, default_value, &mut found);
    for problem in found {
        diagnostics.push(
            ConfigurationDiagnostic {
                property_name: problem.property_name,
                message: problem.message,
            },
        );
    }
    value
}

/// `dprint_core::configuration::get_value` at `bool`: as [`get_u32`], with
/// `true` and `false` as the only texts that parse.
#[verifier::external_body]
pub(crate) fn get_bool(
    config: &mut ConfigKeyMap,
    key: &str,
    default_value: bool,
    diagnostics: &mut Vec<ConfigurationDiagnostic>,
) -> (value: bool)
    ensures
        ({
            let reading = read_bool(lookup(config_entries(*old(config)), key@));
            &&& value == reading_or(reading, default_value)
            &&& diagnostics_view(final(diagnostics)@) == diagnostics_view(old(diagnostics)@)
                + reading_problems(key@, reading)
        }),
        config_entries(*final(config)) == without(config_entries(*old(config)), key@),
{
    let mut found = Vec::new();
    let value = get_value(config, key, default_value, &mut found);
    for problem in found {
        diagnostics.push(
            ConfigurationDiagnostic {
                property_name: problem.property_name,
                message: problem.message,
            },
        );
    }
    value
}

/// `dprint_core::configuration::get_value` at `String`: as [`get_u32`], with
/// every text taken as it is.
#[verifier::external_body]
pub(crate) fn get_string(
    config: &mut ConfigKeyMap,
    key: &str,
    default_value: String,
    diagnostics: &mut Vec<ConfigurationDiagnostic>,
) -> (value: String)
    ensures
        ({
            let reading = read_text(lookup(config_entries(*old(config)), key@));
            &&& value@ == reading_or(reading, default_value@)
            &&& diagnostics_view(final(diagnostics)@) == diagnostics_view(old(diagnostics)@)
                + reading_problems(key@, reading)
        }),
        config_entries(*final(config)) == without(config_entries(*old(config)), key@),
{
    let mut found = Vec::new();
    let value = get_value(config, key, default_value, &mut found);
    for problem in found {
        diagnostics.push(
            ConfigurationDiagnostic {
                property_name: problem.property_name,
                message: problem.message,
            },
        );
    }
    value
}

/// `dprint_core::configuration::get_unknown_property_diagnostics`: one
/// diagnostic for each entry that is left in the map, in the map's order.
#[verifier::external_body]
pub(crate) fn unknown_property_diagnostics(config: ConfigKeyMap) -> (diagnostics: Vec<
    ConfigurationDiagnostic,
>)
    ensures
        diagnostics_view(diagnostics@) == unknown_properties(config_entries(config)),
{
    let mut diagnostics = Vec::new();
    for problem in get_unknown_property_diagnostics(config) {
        diagnostics.push(
            ConfigurationDiagnostic {
                property_name: problem.property_name,
                message: problem.message,
            },
        );
    }
    diagnostics
}

} // verus!
