use moon_core::editorconfig::{EditorConfig, EndOfLine, IndentStyle};
use moon_core::format::{bin_basename, build_path_env, formatter_invocation, parse_command, WarnOnce};
use moon_core::next_edit::{build_prompt, line_window, normalize_model_replacement};
use moon_core::pre_save::{apply_pipeline, ensure_final_newline, ensure_line_endings, trim_trailing_whitespace};

fn ec() -> EditorConfig {
    EditorConfig {
        indent_style: IndentStyle::Tab,
        indent_size: 2,
        tab_width: 2,
        end_of_line: Some(EndOfLine::Lf),
        insert_final_newline: true,
        trim_trailing_whitespace: true,
        charset: "utf-8".to_owned(),
        max_line_length: None,
    }
}

#[test]
fn pipeline_default_is_idempotent() {
    let ec = ec();
    let input = "let x = 1\n";
    let once = apply_pipeline(input, &ec);
    let twice = apply_pipeline(&once, &ec);
    assert_eq!(once, twice);
}

#[test]
fn pipeline_is_idempotent_on_messy_input() {
    let mut ec = ec();
    ec.end_of_line = Some(EndOfLine::Crlf);
    let input = "a \t\r\nb\rc  \n\n\n";
    let once = apply_pipeline(input, &ec);
    assert_eq!(once, "a\r\nb\r\nc\r\n");
    assert_eq!(apply_pipeline(&once, &ec), once);
}

#[test]
fn pipeline_trims_and_adds_final_newline() {
    let ec = ec();
    let input = "let x = 1   \nlet y = 2\t\t";
    assert_eq!(apply_pipeline(input, &ec), "let x = 1\nlet y = 2\n");
}

#[test]
fn ensure_line_endings_lf_to_crlf() {
    let mut ec = ec();
    ec.end_of_line = Some(EndOfLine::Crlf);
    assert_eq!(ensure_line_endings("a\nb\n", &ec), "a\r\nb\r\n");
}

#[test]
fn ensure_line_endings_mixed_to_lf() {
    let ec = ec();
    assert_eq!(ensure_line_endings("a\r\nb\rc\n", &ec), "a\nb\nc\n");
}

#[test]
fn ensure_line_endings_to_cr() {
    let mut ec = ec();
    ec.end_of_line = Some(EndOfLine::Cr);
    assert_eq!(ensure_line_endings("a\r\nb\nc", &ec), "a\rb\rc");
}

#[test]
fn ensure_line_endings_unset_preserves() {
    let mut ec = ec();
    ec.end_of_line = None;
    assert_eq!(ensure_line_endings("a\r\nb\n", &ec), "a\r\nb\n");
}

#[test]
fn trim_keeps_blank_lines() {
    assert_eq!(trim_trailing_whitespace("a\n\n\nb"), "a\n\n\nb");
}

#[test]
fn trim_strips_per_line_trailing_ws() {
    assert_eq!(trim_trailing_whitespace("a   \nb\t\n"), "a\nb\n");
}

#[test]
fn trim_handles_crlf() {
    assert_eq!(trim_trailing_whitespace("a   \r\nb\t\r\n"), "a\r\nb\r\n");
}

#[test]
fn trim_is_idempotent() {
    let once = trim_trailing_whitespace("x \t\ny  \r\n  \nz ");
    assert_eq!(once, "x\ny\r\n\nz");
    assert_eq!(trim_trailing_whitespace(&once), once);
}

#[test]
fn final_newline_added_when_missing() {
    let ec = ec();
    assert_eq!(ensure_final_newline("a", &ec), "a\n");
}

#[test]
fn final_newline_collapses_multiple() {
    let ec = ec();
    assert_eq!(ensure_final_newline("a\n\n\n", &ec), "a\n");
}

#[test]
fn final_newline_strips_when_disabled() {
    let mut ec = ec();
    ec.insert_final_newline = false;
    assert_eq!(ensure_final_newline("a\n\n", &ec), "a");
}

#[test]
fn final_newline_uses_configured_separator() {
    let mut ec = ec();
    ec.end_of_line = Some(EndOfLine::Crlf);
    assert_eq!(ensure_final_newline("a\r\n\r\n", &ec), "a\r\n");
    assert_eq!(ensure_final_newline("", &ec), "\r\n");
}

#[test]
fn pipeline_skips_trim_when_disabled() {
    let mut ec = ec();
    ec.trim_trailing_whitespace = false;
    assert_eq!(apply_pipeline("a   \n", &ec), "a   \n");
}

#[test]
fn trim_preserves_utf8_multibyte() {
    assert_eq!(trim_trailing_whitespace("café   \nrésumé\t\n"), "café\nrésumé\n");
    assert_eq!(trim_trailing_whitespace("日本語  \n"), "日本語\n");
    assert_eq!(trim_trailing_whitespace("emoji 🚀  \nnext"), "emoji 🚀\nnext");
    assert_eq!(trim_trailing_whitespace("café   "), "café");
}

#[test]
fn prompt_has_three_sections() {
    let p = build_prompt("src/a.ts", "orig\nlines", "cur\nlines");
    assert!(p.contains("<|file_sep|>original/src/a.ts"));
    assert!(p.contains("<|file_sep|>current/src/a.ts"));
    assert!(p.contains("<|file_sep|>updated/src/a.ts"));
    assert!(p.ends_with('\n'));
}

#[test]
fn line_window_bounds() {
    let lines: Vec<String> = (0..25).map(|i| format!("L{i}")).collect();
    let (s, e) = line_window(&lines, 12).unwrap();
    assert_eq!(s, 2);
    assert_eq!(e, 22);
    assert_eq!(e - s + 1, 21);
}

#[test]
fn line_window_clamps_at_the_edges() {
    let lines: Vec<String> = (0..30).map(|i| format!("L{i}")).collect();
    assert_eq!(line_window(&lines, 3), Some((0, 13)));
    assert_eq!(line_window(&lines, 99), Some((19, 29)));
    let lines: Vec<String> = (0..5).map(|i| format!("L{i}")).collect();
    assert_eq!(line_window(&lines, 0), Some((0, 4)));
    assert_eq!(line_window(&lines, 99), Some((0, 4)));
    assert_eq!(line_window(&[], 0), None);
}

#[test]
fn normalize_replacement_adds_trailing_sep_before_following_line() {
    let out = normalize_model_replacement("a\nb".to_string(), 10, true);
    assert!(out.ends_with('\n'), "expected {:?} to end with newline", out);
}

#[test]
fn normalize_replacement_skips_trailing_sep_at_eof_window() {
    let out = normalize_model_replacement("a\nb".to_string(), 10, false);
    assert!(!out.ends_with('\n'));
}

#[test]
fn parse_command_splits_on_whitespace() {
    assert_eq!(parse_command("oxfmt"), vec!["oxfmt".to_owned()]);
    assert_eq!(parse_command("prettier --write"), vec!["prettier".to_owned(), "--write".to_owned()]);
    assert_eq!(
        parse_command("rustfmt --edition 2021"),
        vec!["rustfmt".to_owned(), "--edition".to_owned(), "2021".to_owned()]
    );
    assert!(parse_command("").is_empty());
}

#[test]
fn bin_basename_strips_paths() {
    assert_eq!(bin_basename("oxfmt"), "oxfmt");
    assert_eq!(bin_basename("./oxfmt"), "oxfmt");
    assert_eq!(bin_basename("./node_modules/.bin/prettier"), "prettier");
    assert_eq!(bin_basename("/usr/bin/rustfmt"), "rustfmt");
}

#[test]
fn build_path_env_walks_from_start_to_root() {
    let path = build_path_env("/w/a/b", "/w", Some("/usr/bin:/bin"), ':');
    let parts: Vec<&str> = path.split(':').collect();
    assert_eq!(parts[0], "/w/a/b/node_modules/.bin");
    assert_eq!(parts[1], "/w/a/node_modules/.bin");
    assert_eq!(parts[2], "/w/node_modules/.bin");
    assert_eq!(&parts[3..], &["/usr/bin", "/bin"]);
}

#[test]
fn build_path_env_without_inherited_path() {
    assert_eq!(build_path_env("/w", "/w", None, ':'), "/w/node_modules/.bin");
}

#[test]
fn formatter_invocation_appends_the_file() {
    let inv = formatter_invocation("./node_modules/.bin/prettier --write", "/w/a.ts").unwrap();
    assert_eq!(inv.program, "./node_modules/.bin/prettier");
    assert_eq!(inv.bin_name, "prettier");
    assert_eq!(inv.args, vec!["--write".to_owned(), "/w/a.ts".to_owned()]);
    assert!(formatter_invocation("   ", "/w/a.ts").is_none());
}

#[test]
fn warn_once_is_due_only_the_first_time() {
    let mut w = WarnOnce::new();
    assert!(w.first_time("missing", "oxfmt"));
    assert!(!w.first_time("missing", "oxfmt"));
    assert!(w.first_time("missing", "prettier"));
    assert!(w.first_time("failed", "oxfmt"));
}
