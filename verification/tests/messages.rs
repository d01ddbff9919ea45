use str_bundler::errors::BundleError;
use str_bundler::runner::{exit_code_for, runner_code};
use unindent::Unindent;

#[test]
fn resolution_message_carries_specifier_file_line_and_column() {
    let err = BundleError::Resolution {
        specifier: "./missing".to_string(),
        importer: "src/index.test.ts".to_string(),
        line: 3,
        col: 38,
    };
    assert_eq!(
        err.message(),
        "cannot find module \"./missing\" (imported from src/index.test.ts) [src/index.test.ts:3:38]",
    );
}

#[test]
fn resolution_message_renders_multi_digit_positions() {
    let err = BundleError::Resolution {
        specifier: "./x".to_string(),
        importer: "f.ts".to_string(),
        line: 120,
        col: 10,
    };
    assert_eq!(err.message(), "cannot find module \"./x\" (imported from f.ts) [f.ts:120:10]");
}

#[test]
fn io_and_parse_messages_name_the_file() {
    let io = BundleError::Io { path: "a.ts".to_string(), message: "denied".to_string() };
    assert_eq!(io.message(), "cannot load a.ts: denied");
    let parse = BundleError::Parse { path: "a.ts".to_string(), message: "Syntax Error".to_string() };
    assert_eq!(parse.message(), "cannot compile a.ts: Syntax Error");
    let invalid = BundleError::InvalidPath { path: "".to_string() };
    assert_eq!(invalid.message(), "source code file has no parent");
}

#[test]
fn runner_code_matches_the_unindented_template() {
    let file = "tests/index.test.ts";
    let template = format!(
        "
            import {{ _strTestRunner }} from \"str\";
            async function main() {{
                _strTestRunner.setTestFile(\"{}\");
                await import(\"../{}\");
                _strTestRunner.finalize();
            }}
            main();
        ",
        file, file
    )
    .unindent();
    assert_eq!(runner_code(file), template);
}

#[test]
fn runner_code_names_the_test_file_twice() {
    let code = runner_code("a.test.ts");
    assert_eq!(code.matches("a.test.ts").count(), 2);
    assert!(code.contains("setTestFile(\"a.test.ts\")"));
    assert!(code.contains("import(\"../a.test.ts\")"));
}

#[test]
fn exit_codes_follow_the_engine() {
    assert_eq!(exit_code_for(true, Some(0)), 0);
    assert_eq!(exit_code_for(true, None), 0);
    assert_eq!(exit_code_for(false, Some(3)), 3);
    assert_eq!(exit_code_for(false, None), 1);
}

#[test]
fn line_col_counts_lines_and_byte_columns() {
    let text = b"ab\ncd\n\nx".to_vec();
    assert_eq!(str_bundler::text::line_col(&text, 0), (1, 1));
    assert_eq!(str_bundler::text::line_col(&text, 1), (1, 2));
    assert_eq!(str_bundler::text::line_col(&text, 3), (2, 1));
    assert_eq!(str_bundler::text::line_col(&text, 6), (3, 1));
    assert_eq!(str_bundler::text::line_col(&text, 7), (4, 1));
    assert_eq!(str_bundler::text::line_col(&text, 8), (4, 2));
}

#[test]
fn decimal_rendering_appends_all_digits() {
    let mut s = "n=".to_string();
    str_bundler::text::append_decimal(&mut s, 0);
    assert_eq!(s, "n=0");
    let mut s = String::new();
    str_bundler::text::append_decimal(&mut s, 10);
    assert_eq!(s, "10");
    let mut s = String::new();
    str_bundler::text::append_decimal(&mut s, 120);
    assert_eq!(s, "120");
    let mut s = String::new();
    str_bundler::text::append_decimal(&mut s, u64::MAX);
    assert_eq!(s, "18446744073709551615");
}
