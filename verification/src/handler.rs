//! The plugin: what it tells dprint of itself, how it resolves its
//! configuration, and how it formats a file.
use crate::config::{
    Configuration, ConfigurationDiagnostic, ConfigurationView, FormatStyle, GlobalConfiguration,
    ParseOptions, build_parse_options, build_style, default_indent_width, default_line_ending,
    default_line_width, diagnostics_view, parse_line_ending, style_of,
};
use crate::engine::{
    comes_to, engine_format, fits_engine, format_with_options, is_refusal, is_source_or_crlf,
    lemma_resolves, parse_diagnostic_count, parse_errors_text, resolves_to, settle, settled,
    uses_crlf,
};
use crate::error::{FormattingError, format_error};
use crate::range::{format_text_range, is_range_outcome, range_problem, text_outcome};
use crate::resolution::{
    lemma_reading_in_turn, lemma_taking_known_keys, resolution_problems, resolved_configuration,
};
use crate::settings::{
    config_entries, get_bool, get_string, get_u32, unknown_property_diagnostics,
};
use crate::text::{same_text, utf8_error_message, utf8_error_text};
use dprint_core::configuration::ConfigKeyMap;
use dprint_core::plugins::{CheckConfigUpdatesMessage, ConfigChange};
use std::ops::Range;
use vstd::prelude::*;
use vstd::string::StringSliceAdditionalSpecFns;
use vstd::utf8::{
    decode_utf8, decode_utf8_encode_utf8, encode_utf8, encode_utf8_valid_utf8, valid_utf8,
};

verus! {

/// What dprint tells a plugin when it asks for updates to its configuration,
/// opaque here.
#[verifier::external_type_specification]
#[verifier::external_body]
pub struct ExCheckConfigUpdatesMessage(dprint_core::plugins::CheckConfigUpdatesMessage);

/// An update to a configuration, opaque here.
#[verifier::external_type_specification]
#[verifier::external_body]
pub struct ExConfigChange(dprint_core::plugins::ConfigChange);

/// What the plugin tells dprint of itself.
#[derive(Clone, Debug, PartialEq, Eq)]
pub struct PluginInfo {
    pub name: String,
    pub version: String,
    pub config_key: String,
    pub help_url: String,
    pub config_schema_url: String,
    pub update_url: Option<String>,
}

/// The files that the plugin claims.
#[derive(Clone, Debug, PartialEq, Eq)]
pub struct FileMatchingInfo {
    pub file_extensions: Vec<String>,
    pub file_names: Vec<String>,
}

/// A configuration with what was reported on the way to it and the files that
/// it is for.
#[derive(Clone, Debug, PartialEq, Eq)]
pub struct ResolvedConfiguration {
    pub config: Configuration,
    pub diagnostics: Vec<ConfigurationDiagnostic>,
    pub file_matching: FileMatchingInfo,
}

/// The bytes of what formatting a file returned.
pub open spec fn bytes_outcome(outcome: Result<Option<Vec<u8>>, FormattingError>) -> Result<
    Option<Seq<u8>>,
    Seq<char>,
> {
    match outcome {
        Ok(Some(bytes)) => Ok(Some(bytes@)),
        Ok(None) => Ok(None),
        Err(err) => Err(err@),
    }
}

/// What is handed back of a formatted text: its bytes where it differs from the
/// text of the file, else nothing.
pub open spec fn change_of(text: Seq<char>, formatted: Option<Seq<char>>) -> Option<Seq<u8>> {
    match formatted {
        Some(new_text) => if new_text == text {
            None
        } else {
            Some(encode_utf8(new_text))
        },
        None => None,
    }
}

/// What is handed back of what formatting a text came to.
pub open spec fn handed_back(
    text: Seq<char>,
    formatted: Result<Option<Seq<char>>, Seq<char>>,
) -> Result<Option<Seq<u8>>, Seq<char>> {
    match formatted {
        Ok(new_text) => Ok(change_of(text, new_text)),
        Err(message) => Err(message),
    }
}

/// The message on bytes that are not UTF-8.
pub open spec fn not_utf8_text(bytes: Seq<u8>) -> Seq<char> {
    "input is not valid UTF-8: "@ + utf8_error_text(bytes)
}

/// Whether formatting a whole text can come to `outcome`: what the engine makes
/// of it, by what its line ending can come to. Only `Native` leaves more than
/// one outcome. A text that does not parse is refused with the number of its
/// problems. A text that is to have CRLF has it throughout, unless it stays as
/// it was.
pub open spec fn is_whole_outcome(
    text: Seq<char>,
    style: FormatStyle,
    markdown: bool,
    outcome: Result<Seq<char>, Seq<char>>,
) -> bool {
    &&& comes_to(
        style.line_ending,
        text,
        outcome,
        engine_format(
            text,
            style.line_width as nat,
            style.indent_width as nat,
            false,
            markdown,
        ),
        engine_format(text, style.line_width as nat, style.indent_width as nat, true, markdown),
    )
    &&& parse_diagnostic_count(text, markdown) > 0 ==> is_refusal(
        outcome,
        parse_errors_text(parse_diagnostic_count(text, markdown)),
    )
    &&& !resolves_to(style.line_ending, text, false) ==> is_source_or_crlf(outcome, text)
}

/// Whether formatting a text, or the part of it that `range` asks for, can come
/// to `outcome`.
pub open spec fn is_text_outcome(
    text: Seq<char>,
    range: Option<Range<usize>>,
    style: FormatStyle,
    markdown: bool,
    outcome: Result<Option<Seq<char>>, Seq<char>>,
) -> bool {
    match range {
        None => match outcome {
            Ok(Some(formatted)) => is_whole_outcome(text, style, markdown, Ok(formatted)),
            Ok(None) => false,
            Err(message) => is_whole_outcome(text, style, markdown, Err(message)),
        },
        Some(part) => is_range_outcome(
            text,
            part.start as int,
            part.end as int,
            style,
            markdown,
            outcome,
        ),
    }
}

/// Whether formatting a file comes to `outcome` with the line breaks that
/// `use_crlf` asks for.
pub open spec fn is_settled_outcome(
    bytes: Seq<u8>,
    range: Option<Range<usize>>,
    config: ConfigurationView,
    use_crlf: bool,
    outcome: Result<Option<Seq<u8>>, Seq<char>>,
) -> bool {
    if valid_utf8(bytes) {
        let text = decode_utf8(bytes);
        exists|formatted: Result<Option<Seq<char>>, Seq<char>>|
            {
                &&& #[trigger] is_text_outcome(
                    text,
                    range,
                    settled(style_of(config), use_crlf),
                    config.roxygen_markdown,
                    formatted,
                )
                &&& outcome == handed_back(text, formatted)
            }
    } else {
        outcome == Err::<Option<Seq<u8>>, Seq<char>>(not_utf8_text(bytes))
    }
}

/// Whether formatting a file can come to `outcome`, by what its line ending can
/// come to. Only `Native` leaves more than one outcome.
pub open spec fn is_file_outcome(
    bytes: Seq<u8>,
    range: Option<Range<usize>>,
    config: ConfigurationView,
    outcome: Result<Option<Seq<u8>>, Seq<char>>,
) -> bool {
    exists|use_crlf: bool|
        {
            &&& #[trigger] resolves_to(
                style_of(config).line_ending,
                decode_utf8(bytes),
                use_crlf,
            )
            &&& is_settled_outcome(bytes, range, config, use_crlf, outcome)
        }
}

/// Whether a request gets as far as the engine: the file is text, and the
/// range, if there is one, lies in it.
pub open spec fn reaches_engine(bytes: Seq<u8>, range: Option<Range<usize>>) -> bool {
    &&& valid_utf8(bytes)
    &&& match range {
        None => true,
        Some(part) => range_problem(
            part.start as int,
            part.end as int,
            bytes.len() as int,
        ) is None,
    }
}

/// Extensions the plugin claims in dprint, which are those that the `arity`
/// command walks. Extensionless R files such as `.Rprofile` are left alone so
/// the plugin never formats something the command would skip.
pub fn file_matching() -> (matching: FileMatchingInfo)
    ensures
        matching.file_extensions@.map_values(|extension: String| extension@) == seq!["R"@, "r"@],
        matching.file_names@.len() == 0,
{
    let mut file_extensions: Vec<String> = Vec::new();
    file_extensions.push("R".to_owned());
    file_extensions.push("r".to_owned());
    let matching = FileMatchingInfo { file_extensions, file_names: Vec::new() };
    assert(matching.file_extensions@.map_values(|extension: String| extension@) =~= seq![
        "R"@,
        "r"@,
    ]);
    matching
}

/// Formats a whole text.
pub fn format_whole(text: &str, style: FormatStyle, parse_options: &ParseOptions) -> (outcome:
    Result<String, FormattingError>)
    requires
        fits_engine(text.spec_bytes().len() as int, style.indent_width as int),
    ensures
        is_whole_outcome(
            text@,
            style,
            parse_options.roxygen_markdown_default,
            match outcome {
                Ok(formatted) => Ok(formatted@),
                Err(err) => Err(err@),
            },
        ),
{
    match format_with_options(text, style, parse_options) {
        Ok(formatted) => Ok(formatted),
        Err(err) => Err(format_error(&err)),
    }
}

/// Formats a text, or the part of it that `range` asks for.
pub fn format_text(
    text: &str,
    range: Option<Range<usize>>,
    style: FormatStyle,
    parse_options: &ParseOptions,
) -> (outcome: Result<Option<String>, FormattingError>)
    requires
        reaches_engine(text.spec_bytes(), range) ==> fits_engine(
            text.spec_bytes().len() as int,
            style.indent_width as int,
        ),
    ensures
        is_text_outcome(
            text@,
            range,
            style,
            parse_options.roxygen_markdown_default,
            text_outcome(outcome),
        ),
{
    proof {
        encode_utf8_valid_utf8(text@);
    }
    match range {
        None => match format_whole(text, style, parse_options) {
            Ok(formatted) => Ok(Some(formatted)),
            Err(err) => Err(err),
        },
        Some(part) => format_text_range(text, part, style, parse_options),
    }
}

/// The bytes to hand back for a formatted text, if it changed anything.
pub fn changed_bytes(text: &str, formatted: Option<String>) -> (change: Option<Vec<u8>>)
    ensures
        match change {
            Some(bytes) => Some(bytes@),
            None => None,
        } == change_of(
            text@,
            match formatted {
                Some(new_text) => Some(new_text@),
                None => None,
            },
        ),
{
    match formatted {
        Some(new_text) => if same_text(new_text.as_str(), text) {
            None
        } else {
            Some(new_text.as_str().as_bytes_vec())
        },
        None => None,
    }
}

/// The error for a panic of the engine, by the panic's message where it has
/// one.
pub fn panic_error(message: Option<String>) -> (err: FormattingError)
    ensures
        err@ == "arity panicked: "@ + (match message {
            Some(text) => text@,
            None => "arity panicked while formatting"@,
        }),
{
    let mut text = "arity panicked: ".to_owned();
    match message {
        Some(message) => text.append(message.as_str()),
        None => text.append("arity panicked while formatting"),
    }
    FormattingError { message: text }
}

/// The plugin.
#[derive(Default)]
pub struct ArityHandler;

impl ArityHandler {
    /// The plugin, which holds no state.
    #[must_use]
    pub fn new() -> (handler: Self)
        ensures
            handler == ArityHandler,
    {
        ArityHandler
    }

    /// Resolves the configuration, taking each of the plugin's keys out of the
    /// map and reporting what is left.
    pub fn resolve_config(
        &mut self,
        config: ConfigKeyMap,
        global_config: &GlobalConfiguration,
    ) -> (resolved: ResolvedConfiguration)
        ensures
            resolved.config@ == resolved_configuration(config_entries(config), *global_config),
            diagnostics_view(resolved.diagnostics@) == resolution_problems(
                config_entries(config),
                *global_config,
            ),
            resolved.file_matching.file_extensions@.map_values(|extension: String| extension@)
                == seq!["R"@, "r"@],
            resolved.file_matching.file_names@.len() == 0,
            *final(self) == *old(self),
    {
        proof {
            lemma_reading_in_turn(config_entries(config));
            lemma_taking_known_keys(config_entries(config));
        }
        let mut config = config;
        let mut diagnostics: Vec<ConfigurationDiagnostic> = Vec::new();
        let line_width_default: u32 = match global_config.line_width {
            Some(width) => width,
            None => default_line_width(),
        };
        let line_width: u32 = get_u32(
            &mut config,
            "lineWidth",
            line_width_default,
            &mut diagnostics,
        );
        let indent_width_default: u32 = match global_config.indent_width {
            Some(width) => width as u32,
            None => default_indent_width(),
        };
        let indent_width: u32 = get_u32(
            &mut config,
            "indentWidth",
            indent_width_default,
            &mut diagnostics,
        );
        let line_ending = get_string(
            &mut config,
            "lineEnding",
            default_line_ending(global_config),
            &mut diagnostics,
        );
        let roxygen_markdown = get_bool(&mut config, "roxygenMarkdown", false, &mut diagnostics);
        // Parsed for the diagnostic on a bad value alone.
        parse_line_ending(line_ending.as_str(), &mut diagnostics);
        let mut unknown = unknown_property_diagnostics(config);
        let ghost known_problems = diagnostics@;
        let ghost unknown_problems = unknown@;
        diagnostics.append(&mut unknown);
        assert(diagnostics_view(diagnostics@) =~= diagnostics_view(known_problems)
            + diagnostics_view(unknown_problems));
        ResolvedConfiguration {
            config: Configuration { line_width, indent_width, line_ending, roxygen_markdown },
            diagnostics,
            file_matching: file_matching(),
        }
    }

    /// What the plugin tells dprint of itself, given the name and the version
    /// that it was built as.
    pub fn plugin_info(&mut self, name: &str, version: &str) -> (info: PluginInfo)
        ensures
            info.name@ == name@,
            info.version@ == version@,
            info.config_key@ == "arity"@,
            info.help_url@ == "https://arity.cc"@,
            info.config_schema_url@
                == "https://github.com/jolars/dprint-plugin-arity/releases/download/v"@ + version@
                + "/schema.json"@,
            info.update_url matches Some(url) && url@
                == "https://plugins.dprint.dev/jolars/arity/latest.json"@,
            *final(self) == *old(self),
    {
        let mut config_schema_url =
            "https://github.com/jolars/dprint-plugin-arity/releases/download/v".to_owned();
        config_schema_url.append(version);
        config_schema_url.append("/schema.json");
        PluginInfo {
            name: name.to_owned(),
            version: version.to_owned(),
            config_key: "arity".to_owned(),
            help_url: "https://arity.cc".to_owned(),
            config_schema_url,
            update_url: Some("https://plugins.dprint.dev/jolars/arity/latest.json".to_owned()),
        }
    }

    /// The updates that a configuration needs, of which there are none.
    pub fn check_config_updates(&self, _message: CheckConfigUpdatesMessage) -> (changes: Result<
        Vec<ConfigChange>,
        FormattingError,
    >)
        ensures
            changes matches Ok(list) && list@.len() == 0,
    {
        Ok(Vec::new())
    }

    /// Formats a file, or the part of it that `range` asks for, and returns its
    /// new bytes if anything changed.
    pub fn format(
        &mut self,
        file_bytes: Vec<u8>,
        range: Option<Range<usize>>,
        config: &Configuration,
    ) -> (outcome: Result<Option<Vec<u8>>, FormattingError>)
        requires
            reaches_engine(file_bytes@, range) ==> fits_engine(
                file_bytes@.len() as int,
                config.indent_width as int,
            ),
        ensures
            is_file_outcome(file_bytes@, range, config@, bytes_outcome(outcome)),
            *final(self) == *old(self),
    {
        let text = match String::from_utf8(file_bytes) {
            Ok(text) => text,
            Err(err) => {
                let mut message = "input is not valid UTF-8: ".to_owned();
                message.append(utf8_error_message(&err).as_str());
                proof {
                    lemma_resolves(style_of(config@).line_ending, decode_utf8(file_bytes@));
                }
                return Err(FormattingError { message });
            },
        };
        proof {
            decode_utf8_encode_utf8(file_bytes@);
        }
        let style = build_style(config);
        let parse_options = build_parse_options(config);
        let use_crlf = uses_crlf(style.line_ending, text.as_str());
        let outcome = format_text(
            text.as_str(),
            range,
            settle(style, use_crlf),
            &parse_options,
        );
        let ghost formatted = text_outcome(outcome);
        let result = match outcome {
            Ok(new_text) => Ok(changed_bytes(text.as_str(), new_text)),
            Err(err) => Err(err),
        };
        assert(bytes_outcome(result) == handed_back(text@, formatted));
        assert(is_text_outcome(
            decode_utf8(file_bytes@),
            range,
            settled(style_of(config@), use_crlf),
            config@.roxygen_markdown,
            formatted,
        ));
        result
    }
}

} // verus!
