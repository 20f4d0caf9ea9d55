use text_transform::command::Command;
use text_transform::command::CommandParseError;
use text_transform::transform::TransformError;
use text_transform::transform::to_lowercase;
use text_transform::transform::to_uppercase;
use text_transform::transform::remove_spaces;
use text_transform::transform::to_slugify;
use text_transform::transform::transform;
use text_transform::csvfmt::CsvError;
use text_transform::csvfmt::print_csv;
use text_transform::validate_input;

#[test]
fn recognizes_every_command_token() {
    assert!(matches!(Command::from_str("lowercase"), Ok(Command::Lowercase)));
    assert!(matches!(Command::from_str("uppercase"), Ok(Command::Uppercase)));
    assert!(matches!(Command::from_str("no-spaces"), Ok(Command::NoSpaces)));
    assert!(matches!(Command::from_str("slugify"), Ok(Command::Slugify)));
    assert!(matches!(Command::from_str("csv"), Ok(Command::Csv)));
    assert!(matches!(Command::from_str("exit"), Ok(Command::Exit)));
}

#[test]
fn rejects_case_variants_and_padding() {
    assert!(Command::from_str("Lowercase").is_err());
    assert!(Command::from_str(" lowercase").is_err());
    assert!(Command::from_str("lowercase ").is_err());
    assert!(Command::from_str("").is_err());
}

#[test]
fn unrecognized_token_is_named_in_the_error() {
    let err: CommandParseError = Command::from_str("frobnicate").unwrap_err();
    assert_eq!(err.invalid_command, "frobnicate");
    assert_eq!(err.message(), "invalid command: frobnicate");
}

#[test]
fn validate_input_sees_through_whitespace() {
    assert!(validate_input("hello"));
    assert!(validate_input("  x  "));
    assert!(!validate_input(""));
    assert!(!validate_input("   "));
    assert!(!validate_input(" \t\r\n"));
}

#[test]
fn validate_input_matches_trimming_on_all_unicode_whitespace() {
    for s in ["\u{b}", "\u{a0}", "\u{1680}", "\u{2003}\u{2028} \u{3000}", "\u{85}\u{202f}\u{205f}"] {
        assert!(s.trim().is_empty());
        assert!(!validate_input(s));
    }
    assert!(validate_input("\u{a0}x\u{a0}"));
}

#[test]
fn uppercase_folds_the_whole_string() {
    assert_eq!(to_uppercase("hello world").unwrap(), "HELLO WORLD");
    assert_eq!(transform(Command::Uppercase, "hello world").unwrap(), "HELLO WORLD");
}

#[test]
fn lowercase_folds_the_whole_string() {
    assert_eq!(to_lowercase("HeLLo 123!").unwrap(), "hello 123!");
    assert_eq!(transform(Command::Lowercase, "HeLLo 123!").unwrap(), "hello 123!");
}

#[test]
fn case_folds_are_idempotent_on_their_fixed_points() {
    let s = "Hello World 123";
    let upper_then_lower = to_lowercase(&to_uppercase(s).unwrap()).unwrap();
    assert_eq!(upper_then_lower, to_lowercase(s).unwrap());
    let once = to_lowercase(s).unwrap();
    assert_eq!(to_lowercase(&once).unwrap(), once);
    let once_up = to_uppercase(s).unwrap();
    assert_eq!(to_uppercase(&once_up).unwrap(), once_up);
}

#[test]
fn no_spaces_removes_exactly_ascii_spaces() {
    let out = remove_spaces("a b\tc  d ").unwrap();
    assert_eq!(out, "ab\tcd");
    assert!(!out.contains(' '));
}

#[test]
fn no_spaces_is_idempotent() {
    let once = remove_spaces(" a lot  of space ").unwrap();
    assert_eq!(remove_spaces(&once).unwrap(), once);
}

#[test]
fn slugify_makes_a_url_safe_slug() {
    assert_eq!(to_slugify("Hello World!").unwrap(), "hello-world");
    assert_eq!(transform(Command::Slugify, "Hello World!").unwrap(), "hello-world");
}

#[test]
fn slugs_hold_only_lowercase_alphanumerics_and_single_hyphens() {
    for input in ["Hello World!", "  --test_-_cool", "A  B  C", "My Test String!!!1!1"] {
        let slug = to_slugify(input).unwrap();
        assert!(slug.chars().all(|c| c.is_ascii_lowercase() || c.is_ascii_digit() || c == '-'));
        assert!(!slug.starts_with('-'));
        assert!(!slug.ends_with('-'));
        assert!(!slug.contains("--"));
    }
}

#[test]
fn blank_input_fails_the_same_way_for_every_command() {
    let commands = [
        Command::Lowercase,
        Command::Uppercase,
        Command::NoSpaces,
        Command::Slugify,
        Command::Csv,
    ];
    for c in commands {
        assert_eq!(transform(c, "").unwrap_err(), TransformError::EmptyInput);
        assert_eq!(transform(c, " \t\r\n").unwrap_err(), TransformError::EmptyInput);
        assert_eq!(transform(c, "\u{b}\u{a0}\u{2028}").unwrap_err(), TransformError::EmptyInput);
    }
    assert_eq!(
        TransformError::EmptyInput.message(),
        "Input was an empty string."
    );
}

#[test]
fn csv_reemits_comma_records_tab_separated() {
    assert_eq!(print_csv("a,b,c\n1,2,3").unwrap(), "a\tb\tc\n1\t2\t3");
    assert_eq!(transform(Command::Csv, "a,b,c\n1,2,3").unwrap(), "a\tb\tc\n1\t2\t3");
}

#[test]
fn csv_tolerates_a_final_line_terminator() {
    assert_eq!(print_csv("a,b\n1,2\n").unwrap(), "a\tb\n1\t2");
    assert_eq!(print_csv("a,b\r\n1,2\r\n").unwrap(), "a\tb\n1\t2");
}

#[test]
fn csv_keeps_empty_fields_and_single_columns() {
    assert_eq!(print_csv("a,,c\n,,\n").unwrap(), "a\t\tc\n\t\t");
    assert_eq!(print_csv("x\ny\nz").unwrap(), "x\ny\nz");
}

#[test]
fn csv_skips_fully_empty_lines() {
    assert_eq!(print_csv("a,b\n\n1,2\n\n").unwrap(), "a\tb\n1\t2");
    assert_eq!(print_csv("a,b\r\n\r\n1,2").unwrap(), "a\tb\n1\t2");
}

#[test]
fn csv_takes_a_bare_carriage_return_as_a_terminator() {
    assert_eq!(print_csv("a,b\r1,2").unwrap(), "a\tb\n1\t2");
}

#[test]
fn csv_reads_quoted_fields_as_one_field() {
    assert_eq!(print_csv("\"a,b\",c\n1,2").unwrap(), "a,b\tc\n1\t2");
    assert_eq!(print_csv("\"x\"\"y\",z\n1,2").unwrap(), "x\"y\tz\n1\t2");
    assert_eq!(print_csv("\"\"").unwrap(), "");
}

#[test]
fn csv_keeps_line_breaks_inside_quoted_fields() {
    assert_eq!(print_csv("\"a\nb\",c\nx,y").unwrap(), "a\nb\tc\nx\ty");
}

#[test]
fn csv_takes_a_stray_quote_as_ordinary_text() {
    assert_eq!(print_csv("a\"b,c\n1,2").unwrap(), "a\"b\tc\n1\t2");
    assert_eq!(print_csv("\"a\"b,c\n1,2").unwrap(), "ab\tc\n1\t2");
}

#[test]
fn csv_reports_the_first_ragged_record() {
    let err = print_csv("a,b\n1,2,3").unwrap_err();
    assert_eq!(
        err,
        TransformError::CsvParse(CsvError { row: 1, expected: 2, found: 3 })
    );
    assert_eq!(
        err.message(),
        "malformed CSV: record 1 has 3 fields, expected 2"
    );
}

#[test]
fn csv_output_splits_back_into_the_same_records_and_fields() {
    let input = "one,two,three\nuno,dos,tres\neins,zwei,drei";
    let output = print_csv(input).unwrap();
    let in_records: Vec<Vec<&str>> =
        input.split('\n').map(|r| r.split(',').collect()).collect();
    let out_records: Vec<Vec<&str>> =
        output.split('\n').map(|r| r.split('\t').collect()).collect();
    assert_eq!(in_records, out_records);
}

#[test]
fn csv_error_counts_render_in_full_decimal() {
    let wide = "a,b\nc0,c1,c2,c3,c4,c5,c6,c7,c8,c9,c10,c11";
    let err = print_csv(wide).unwrap_err();
    assert_eq!(
        err,
        TransformError::CsvParse(CsvError { row: 1, expected: 2, found: 12 })
    );
    assert_eq!(
        err.message(),
        "malformed CSV: record 1 has 12 fields, expected 2"
    );
}
