use dprint_plugin_arity::{
    ArityHandler, Configuration, FormattingError, LineEnding, RangeFormatted, build_parse_options,
    build_style, can_lay_out, changed_bytes, format_error, format_text, format_text_range,
    format_whole, panic_error, parse_error, settle, splice, uses_crlf,
};

fn config() -> Configuration {
    Configuration {
        line_width: 80,
        indent_width: 2,
        line_ending: "auto".to_string(),
        roxygen_markdown: false,
    }
}

fn format_all(cfg: &Configuration, text: &str) -> String {
    format_whole(text, build_style(cfg), &build_parse_options(cfg)).expect("format should succeed")
}

fn format_part(
    cfg: &Configuration,
    text: &str,
    range: std::ops::Range<usize>,
) -> Result<Option<String>, FormattingError> {
    format_text_range(text, range, build_style(cfg), &build_parse_options(cfg))
}

/// Two statements, so the braced body survives rather than collapsing to
/// the single-expression one-liner arity prefers.
const BLOCK_SOURCE: &str = "f<-function(x){y<-x+1\ny*2}\n";

#[test]
fn formats_whole_file() {
    let cfg = config();
    assert_eq!(
        format_all(&cfg, BLOCK_SOURCE),
        "f <- function(x) {\n  y <- x + 1\n  y * 2\n}\n"
    );
}

#[test]
fn honors_indent_width() {
    let mut cfg = config();
    cfg.indent_width = 4;
    assert_eq!(
        format_all(&cfg, BLOCK_SOURCE),
        "f <- function(x) {\n    y <- x + 1\n    y * 2\n}\n"
    );
}

#[test]
fn honors_line_width() {
    let mut cfg = config();
    cfg.line_width = 20;
    let narrow = format_all(&cfg, "result <- some_function(alpha, beta, gamma, delta)\n");
    assert!(
        narrow.lines().count() > 1,
        "a 20-column budget should force a break: {narrow:?}"
    );
}

#[test]
fn crlf_input_round_trips_under_auto() {
    let cfg = config();
    let out = format_all(&cfg, "f<-function(x){x+1}\r\n");
    assert!(out.contains("\r\n"), "auto should preserve CRLF: {out:?}");
    assert!(
        !out.contains("\r\r"),
        "line endings must not double: {out:?}"
    );
}

#[test]
fn explicit_line_ending_overrides_source() {
    let mut cfg = config();
    cfg.line_ending = "crlf".to_string();
    let out = format_all(&cfg, "f<-function(x){x+1}\n");
    assert!(out.contains("\r\n"), "crlf should be applied: {out:?}");
}

#[test]
fn parse_failure_is_reported() {
    let cfg = config();
    let err = format_whole(
        "f <- function(x) {",
        build_style(&cfg),
        &build_parse_options(&cfg),
    )
    .expect_err("unbalanced brace should not format");
    let engine_err = arity_formatter::format("f <- function(x) {")
        .expect_err("unbalanced brace should not format");
    assert!(matches!(
        engine_err,
        arity_formatter::FormatError::ParseErrors { .. }
    ));
    assert_eq!(err, format_error(&engine_err));
}

#[test]
fn roxygen_markdown_default_is_threaded_through() {
    let source = "#' Title\n#'\n#' Some `code` and _emphasis_.\nf <- function() NULL\n";
    let mut on_cfg = config();
    on_cfg.roxygen_markdown = true;

    let off = format_all(&config(), source);
    let on = format_all(&on_cfg, source);

    // Each mode must be a fixed point of itself; that is what proves the
    // flag actually reaches the parser rather than being dropped.
    assert_eq!(format_all(&config(), &off), off);
    assert_eq!(format_all(&on_cfg, &on), on);
}

#[test]
fn range_format_only_touches_its_range() {
    let cfg = config();
    let text = "a<-1\nb<-2\n";
    let start = text
        .find("b<-2")
        .expect("fixture should contain the statement");
    let out = format_text_range(
        text,
        start..start + 4,
        build_style(&cfg),
        &build_parse_options(&cfg),
    )
    .expect("range format should succeed")
    .expect("range should cover a statement");
    assert_eq!(out, "a<-1\nb <- 2\n");
}

#[test]
fn range_format_applies_line_endings_to_the_splice() {
    let mut cfg = config();
    cfg.line_ending = "crlf".to_string();
    let text = "a<-1\r\nif(x){y}\r\n";
    let start = text
        .find("if(x){y}")
        .expect("fixture should contain the if");
    let out = format_text_range(
        text,
        start..start + "if(x){y}".len(),
        build_style(&cfg),
        &build_parse_options(&cfg),
    )
    .expect("range format should succeed")
    .expect("range should cover a statement");
    assert!(
        !out.replace("\r\n", "").contains('\n'),
        "spliced text left a bare LF behind: {out:?}"
    );
}

#[test]
fn range_outside_the_file_is_an_error() {
    let cfg = config();
    assert!(
        format_text_range(
            "a<-1\n",
            0..999,
            build_style(&cfg),
            &build_parse_options(&cfg)
        )
        .is_err()
    );
}

#[test]
fn each_bad_range_has_its_message() {
    let cfg = config();
    let message = |range: std::ops::Range<usize>| {
        format_part(&cfg, "a<-1\n", range).expect_err("a bad range").message
    };
    let wide = u32::MAX as usize + 1;
    assert_eq!(
        message(wide..wide),
        "format range start does not fit in the file"
    );
    assert_eq!(
        message(0..wide),
        "format range end does not fit in the file"
    );
    assert_eq!(message(3..2), "format range start is after its end");
    assert_eq!(message(0..6), "format range extends past the end of file");
    assert!(format_part(&cfg, "a<-1\n", 0..5).is_ok());
}

#[test]
fn a_bad_range_is_reported_before_a_parse_failure() {
    let err = format_part(&config(), "f <- function(x) {", 0..99).expect_err("both are wrong");
    assert_eq!(err.message, "format range extends past the end of file");
}

#[test]
fn a_range_over_no_statement_formats_nothing() {
    assert_eq!(format_part(&config(), "\n\n\n", 1..2), Ok(None));
}

#[test]
fn the_range_path_and_the_whole_file_path_fail_alike() {
    let cfg = config();
    let text = "f <- function(x) {";
    let whole = format_whole(text, build_style(&cfg), &build_parse_options(&cfg));
    let part = format_part(&cfg, text, 0..4);
    assert_eq!(
        whole.expect_err("does not parse"),
        part.expect_err("does not parse")
    );
}

#[test]
fn a_parse_error_states_its_count() {
    assert_eq!(
        parse_error(0).message,
        "input contains 0 parser diagnostic(s); formatter only supports parseable input"
    );
    assert_eq!(
        parse_error(1203).message,
        "input contains 1203 parser diagnostic(s); formatter only supports parseable input"
    );
}

#[test]
fn a_splice_replaces_whole_characters() {
    let formatted = RangeFormatted {
        start: 2,
        end: 5,
        text: "x\ny".to_string(),
    };
    assert_eq!(splice("é€z\n", &formatted, "\n"), "éx\nyz\n");
    assert_eq!(splice("é€z\n", &formatted, "\r\n"), "éx\r\nyz\n");
}

#[test]
fn the_target_ending_is_applied_once_to_a_splice() {
    let formatted = RangeFormatted {
        start: 1,
        end: 1,
        text: "x\n\ny\r\n\rz".to_string(),
    };
    assert_eq!(splice("ab", &formatted, "\n"), "ax\n\ny\r\n\rzb");
    assert_eq!(splice("ab", &formatted, "\r\n"), "ax\r\n\r\ny\r\n\rzb");
}

#[test]
fn a_splice_keeps_the_line_break_behind_it() {
    for text in ["c", "c\r"] {
        let formatted = RangeFormatted {
            start: 0,
            end: 2,
            text: text.to_string(),
        };
        assert_eq!(splice("a\r\nb\r\n", &formatted, "\r\n"), "c\r\nb\r\n");
    }
    let formatted = RangeFormatted {
        start: 0,
        end: 1,
        text: "c".to_string(),
    };
    assert_eq!(splice("a\r\nb\r\n", &formatted, "\r\n"), "c\r\nb\r\n");
    assert_eq!(splice("\rb", &formatted, "\r\n"), "cb");
}

#[test]
fn a_splice_at_either_end_of_the_text() {
    let all = RangeFormatted {
        start: 0,
        end: 3,
        text: "\n".to_string(),
    };
    assert_eq!(splice("abc", &all, "\r\n"), "\r\n");
    let none = RangeFormatted {
        start: 3,
        end: 3,
        text: "d".to_string(),
    };
    assert_eq!(splice("abc", &none, "\n"), "abcd");
}

#[test]
fn only_a_change_is_handed_back() {
    assert_eq!(changed_bytes("a", None), None);
    assert_eq!(changed_bytes("a", Some("a".to_string())), None);
    assert_eq!(
        changed_bytes("a", Some("é".to_string())),
        Some(vec![0xC3, 0xA9])
    );
}

#[test]
fn the_handler_formats_a_file_once() {
    let mut handler = ArityHandler::new();
    let once = handler
        .format(b"a<-1\n".to_vec(), None, &config())
        .expect("format should succeed")
        .expect("the file should change");
    assert_eq!(once, b"a <- 1\n".to_vec());
    assert_eq!(handler.format(once, None, &config()), Ok(None));
}

#[test]
fn the_handler_formats_a_range() {
    let mut handler = ArityHandler::new();
    let out = handler
        .format(b"a<-1\nb<-2\n".to_vec(), Some(5..9), &config())
        .expect("format should succeed")
        .expect("the file should change");
    assert_eq!(out, b"a<-1\nb <- 2\n".to_vec());
}

#[test]
fn the_handler_takes_an_empty_file() {
    assert_eq!(ArityHandler::new().format(Vec::new(), None, &config()), Ok(None));
}

#[test]
fn bytes_that_are_not_text_are_an_error() {
    let err = ArityHandler::new()
        .format(vec![b'a', 0xFF], None, &config())
        .expect_err("not UTF-8");
    let reason = String::from_utf8(vec![b'a', 0xFF]).expect_err("not UTF-8");
    assert_eq!(err.message, format!("input is not valid UTF-8: {reason}"));
}

#[test]
fn the_handler_reports_a_parse_failure() {
    let mut handler = ArityHandler::new();
    let err = handler
        .format(b"f <- function(x) {".to_vec(), None, &config())
        .expect_err("does not parse");
    assert!(err.message.starts_with("input contains "));
    let part = handler
        .format(b"f <- function(x) {".to_vec(), Some(0..1), &config())
        .expect_err("does not parse");
    assert_eq!(err, part);
}

#[test]
fn auto_follows_the_first_line_break() {
    let mut crlf = config();
    crlf.line_ending = "crlf".to_string();
    let mut lf = config();
    lf.line_ending = "lf".to_string();
    let windows_first = "a<-1\r\nb<-2\n";
    assert_eq!(
        format_all(&config(), windows_first),
        format_all(&crlf, windows_first)
    );
    assert_eq!(format_all(&config(), windows_first), "a <- 1\r\nb <- 2\r\n");
    let unix_first = "a<-1\nb<-2\r\n";
    assert_eq!(
        format_all(&config(), unix_first),
        format_all(&lf, unix_first)
    );
    assert_eq!(format_all(&config(), unix_first), "a <- 1\nb <- 2\n");
}

#[test]
fn native_is_one_of_the_two() {
    let mut native = config();
    native.line_ending = "native".to_string();
    let out = format_all(&native, "a<-1\n");
    assert!(out == "a <- 1\n" || out == "a <- 1\r\n");
}

#[test]
fn a_range_in_a_windows_file_keeps_its_line_breaks() {
    let out = format_part(&config(), "a<-1\r\nb<-2\r\n", 6..10)
        .expect("range format should succeed")
        .expect("range should cover a statement");
    assert_eq!(out, "a<-1\r\nb <- 2\r\n");
}

#[test]
fn a_trailing_comment_keeps_its_line_break() {
    let out = format_part(&config(), "a<-1 # c\r\nb<-2\r\n", 0..3)
        .expect("range format should succeed")
        .expect("range should cover a statement");
    assert_eq!(out, "a <- 1 # c\r\nb<-2\r\n");
}

#[test]
fn the_same_request_has_the_same_outcome() {
    for range in [None, Some(0..3), Some(4..99)] {
        let once = ArityHandler::new().format(BLOCK_SOURCE.into(), range.clone(), &config());
        let again = ArityHandler::new().format(BLOCK_SOURCE.into(), range, &config());
        assert_eq!(once, again);
    }
}

#[test]
fn a_part_of_several_lines_takes_the_target_ending() {
    let mut cfg = config();
    cfg.line_ending = "lf".to_string();
    let out = format_part(&cfg, "f<-function(x){y<-x+1\r\ny*2}\r\nb<-2\r\n", 0..5)
        .expect("range format should succeed")
        .expect("range should cover a statement");
    assert_eq!(
        out,
        "f <- function(x) {\n  y <- x + 1\n  y * 2\n}\r\nb<-2\r\n"
    );
}

#[test]
fn a_part_of_several_lines_in_a_crlf_file_stays_crlf() {
    for ending in ["crlf", "auto"] {
        let mut cfg = config();
        cfg.line_ending = ending.to_string();
        let out = format_part(&cfg, "f<-function(x){y<-x+1\r\ny*2}\r\nb<-2\r\n", 0..5)
            .expect("range format should succeed")
            .expect("range should cover a statement");
        assert_eq!(
            out,
            "f <- function(x) {\r\n  y <- x + 1\r\n  y * 2\r\n}\r\nb<-2\r\n"
        );
    }
}

#[test]
fn a_comment_that_moves_leaves_the_line_break_to_the_target() {
    let part = |ending: &str| {
        let mut cfg = config();
        cfg.line_ending = ending.to_string();
        format_part(&cfg, "while (x) # c\r\n", 0..5)
            .expect("range format should succeed")
            .expect("range should cover a statement")
    };
    assert_eq!(part("lf"), "while (x) {\n  # c\n}\n");
    assert_eq!(part("crlf"), "while (x) {\r\n  # c\r\n}\r\n");
    assert_eq!(part("auto"), "while (x) {\r\n  # c\r\n}\r\n");
}

#[test]
fn a_part_for_lf_goes_in_as_it_came() {
    let formatted = RangeFormatted {
        start: 0,
        end: 2,
        text: "c\r\nd".to_string(),
    };
    assert_eq!(splice("a\r\nb", &formatted, "\n"), "c\r\nd\nb");
}

#[test]
fn a_whole_file_takes_crlf_throughout() {
    let mut cfg = config();
    cfg.line_ending = "crlf".to_string();
    assert_eq!(
        ArityHandler::new().format(BLOCK_SOURCE.into(), None, &cfg),
        Ok(Some(
            b"f <- function(x) {\r\n  y <- x + 1\r\n  y * 2\r\n}\r\n".to_vec()
        ))
    );
    let skipped = "# arity-format skip-file\na<-1\n";
    assert_eq!(format_all(&cfg, skipped), skipped);
}

#[test]
fn a_second_run_changes_nothing() {
    for ending in ["auto", "lf", "crlf"] {
        let mut cfg = config();
        cfg.line_ending = ending.to_string();
        let first = ArityHandler::new()
            .format(BLOCK_SOURCE.into(), None, &cfg)
            .expect("format should succeed")
            .expect("the source is not formatted");
        assert_eq!(ArityHandler::new().format(first, None, &cfg), Ok(None));
    }
}

#[test]
fn comments_in_a_crlf_part_keep_one_return() {
    let source = "if(x) # c\r\ny # d\r\nb<-2\r\n";
    let out = format_part(&config(), source, 0..1)
        .expect("range format should succeed")
        .expect("range should cover a statement");
    assert_eq!(
        out,
        "if (x) {\r\n  # c\r\n  y\r\n} # d\r\nb<-2\r\n"
    );
}

#[test]
fn native_comes_out_as_lf_or_as_crlf() {
    for range in [None, Some(0..5)] {
        let outcome = |ending: &str| {
            let mut cfg = config();
            cfg.line_ending = ending.to_string();
            ArityHandler::new().format(BLOCK_SOURCE.into(), range.clone(), &cfg)
        };
        let native = outcome("native");
        assert!(native == outcome("lf") || native == outcome("crlf"));
        assert_eq!(native, outcome("native"));
    }
}

#[test]
fn a_line_ending_is_settled_by_its_source() {
    assert!(uses_crlf(LineEnding::Crlf, "a\n"));
    assert!(!uses_crlf(LineEnding::Lf, "a\r\n"));
    assert!(uses_crlf(LineEnding::Auto, "a\r\nb\n"));
    assert!(!uses_crlf(LineEnding::Auto, "a\nb\r\n"));
    assert!(!uses_crlf(LineEnding::Auto, "a\r"));
    let style = build_style(&config());
    assert_eq!(settle(style, true).line_ending, LineEnding::Crlf);
    assert_eq!(settle(style, false).line_ending, LineEnding::Lf);
    assert_eq!(settle(style, true).indent_width, 2);
    assert_eq!(settle(style, true).line_width, 80);
}

#[test]
fn the_columns_of_a_text_have_to_fit() {
    assert!(can_lay_out(0, 2));
    assert!(can_lay_out(100, usize::MAX / 102 - 16));
    assert!(!can_lay_out(100, usize::MAX / 102 - 15));
    assert!(!can_lay_out("a + b * c\n".len(), usize::MAX));
    assert!(!can_lay_out(usize::MAX, 0));
}

#[test]
fn a_text_is_formatted_whole_or_in_part() {
    let cfg = config();
    let run = |range| {
        format_text(
            "a<-1\nb<-2\n",
            range,
            build_style(&cfg),
            &build_parse_options(&cfg),
        )
    };
    assert_eq!(run(None), Ok(Some("a <- 1\nb <- 2\n".to_string())));
    assert_eq!(run(Some(5..9)), Ok(Some("a<-1\nb <- 2\n".to_string())));
    assert!(run(Some(0..99)).is_err());
}

#[test]
fn the_markdown_default_reaches_the_engine() {
    let source = "#' Title\n#'\n#' - one\n#' - two\nf <- function() NULL\n";
    let mut on = config();
    on.roxygen_markdown = true;
    let options = arity_formatter::parser::ParseOptions::default();
    let style = arity_formatter::FormatStyle::default();
    for (cfg, markdown) in [(config(), false), (on, true)] {
        let options = options.with_roxygen_markdown_default(markdown);
        let direct = arity_formatter::format_with_options(source, style, &options)
            .expect("format should succeed");
        assert_eq!(format_all(&cfg, source), direct);
    }
}

#[test]
fn a_panic_becomes_an_error() {
    assert_eq!(
        panic_error(Some("out of cheese".to_string())).message,
        "arity panicked: out of cheese"
    );
    assert_eq!(
        panic_error(None).message,
        "arity panicked: arity panicked while formatting"
    );
}
