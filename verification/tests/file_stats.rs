use sekou_taisei::file_stats::FileStats;

#[test]
fn test_rust_stats() {
    let content = r#"
// This is a comment
fn main() {
    /* Block comment */
    println!("Hello");
}

"#;
    let stats = FileStats::calculate(content, "rs");
    assert!(stats.total_lines > 0);
    assert!(stats.comment_lines >= 2);
    assert!(stats.code_lines >= 3);
}

#[test]
fn test_empty_file() {
    let stats = FileStats::calculate("", "rs");
    assert_eq!(stats.total_lines, 0);
    assert_eq!(stats.code_lines, 0);
}

#[test]
fn exact_counts_for_rust_snippet() {
    let content = "\n// c\nfn main() {\n    /* b */\n    x();\n}\n\n";
    let stats = FileStats::calculate(content, "rs");
    assert_eq!(stats.total_lines, 7);
    assert_eq!(stats.blank_lines, 2);
    assert_eq!(stats.comment_lines, 2);
    assert_eq!(stats.code_lines, 3);
}

#[test]
fn python_docstring_opens_and_closes_on_one_line() {
    let content = "\"\"\"doc\"\"\"\nx = 1\n\"\"\"\nmore\n\"\"\"\ny = 2\n# hi\n";
    let stats = FileStats::calculate(content, "py");
    assert_eq!(stats.total_lines, 7);
    assert_eq!(stats.comment_lines, 4);
    assert_eq!(stats.code_lines, 3);
}

#[test]
fn crlf_and_unicode_whitespace_lines() {
    let content = "a\r\n\u{3000}\r\n// x\r\n";
    let stats = FileStats::calculate(content, "go");
    assert_eq!(stats.total_lines, 3);
    assert_eq!(stats.blank_lines, 1);
    assert_eq!(stats.comment_lines, 1);
    assert_eq!(stats.code_lines, 1);
}

#[test]
fn shell_has_no_block_comments() {
    let content = "/* not a comment */\n# comment\necho hi\n";
    let stats = FileStats::calculate(content, "sh");
    assert_eq!(stats.comment_lines, 1);
    assert_eq!(stats.code_lines, 2);
}

#[test]
fn html_block_comments_span_lines() {
    let content = "<!-- start\ninside\nend -->\n<p>x</p>\n";
    let stats = FileStats::calculate(content, "html");
    assert_eq!(stats.comment_lines, 3);
    assert_eq!(stats.code_lines, 1);
}
