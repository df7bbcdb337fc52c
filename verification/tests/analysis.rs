use sekou_taisei::analysis::{score_emoji, CodebaseAnalyzer, SourceFile};

fn source(path: &str, ext: &str, content: &str) -> SourceFile {
    SourceFile { path: path.to_string(), extension: ext.to_string(), content: content.to_string() }
}

#[test]
fn analyzer_settings() {
    let a = CodebaseAnalyzer::new("/proj", &["rs", "py"], true);
    assert_eq!(a.root_path(), "/proj");
    assert!(a.include_hidden());
    assert!(a.accepts_extension("rs"));
    assert!(a.accepts_extension("py"));
    assert!(!a.accepts_extension("go"));
}

#[test]
fn sources_are_summed_per_language_and_in_total() {
    let files = vec![
        source("src/a.rs", "rs", "fn a() {\n    if x && y {\n        z();\n    }\n}\n"),
        source("tests/b_test.py", "py", "# c\nx = 1\n"),
        source("src/c.rs", "rs", "\n"),
    ];
    let r = CodebaseAnalyzer::analyze_sources(&files);
    assert_eq!(r.total_stats.total_files, 3);
    assert_eq!(r.total_stats.total_lines, 8);
    assert_eq!(r.total_stats.code_lines, 6);
    assert_eq!(r.total_stats.comment_lines, 1);
    assert_eq!(r.total_stats.blank_lines, 1);
    assert_eq!(r.total_stats.test_files, 1);
    assert_eq!(r.total_stats.doc_files, 0);

    assert_eq!(r.file_stats.len(), 2);
    assert_eq!(r.file_stats[0].0, "rs");
    assert_eq!(r.file_stats[0].1.file_count, 2);
    assert_eq!(r.file_stats[0].1.total_lines, 6);
    assert_eq!(r.file_stats[0].1.code_lines, 5);
    assert_eq!(r.file_stats[0].1.blank_lines, 1);
    assert_eq!(r.file_stats[1].0, "py");
    assert_eq!(r.file_stats[1].1.file_count, 1);
    assert_eq!(r.file_stats[1].1.comment_lines, 1);

    assert!(r.issues.is_empty());
    assert_eq!(r.complexity.files_analyzed, 3);
    assert_eq!(r.complexity.total_functions, 1);
    assert_eq!(r.complexity.max_complexity, 3);
    assert_eq!(r.complexity.max_complexity_function, Some("src/a.rs:1 (a)".to_string()));
}

#[test]
fn markdown_and_doc_files_are_counted() {
    let files = vec![source("README.md", "md", "# Title\n"), source("docs/x.rs", "rs", "fn x() {}\n")];
    let r = CodebaseAnalyzer::analyze_sources(&files);
    assert_eq!(r.total_stats.doc_files, 2);
}

#[test]
fn score_symbols() {
    assert_eq!(score_emoji(100), "🌟");
    assert_eq!(score_emoji(90), "🌟");
    assert_eq!(score_emoji(89), "✅");
    assert_eq!(score_emoji(70), "✅");
    assert_eq!(score_emoji(69), "⚠️");
    assert_eq!(score_emoji(50), "⚠️");
    assert_eq!(score_emoji(49), "🟠");
    assert_eq!(score_emoji(30), "🟠");
    assert_eq!(score_emoji(29), "🔴");
    assert_eq!(score_emoji(0), "🔴");
    assert_eq!(score_emoji(101), "🔴");
}

#[test]
fn each_file_is_counted_once_in_total_and_by_language() {
    let files = vec![
        source("src/a.rs", "rs", "fn a() {}\n"),
        source("test/b.py", "py", "x = 1\n"),
        source("src/c.rs", "rs", ""),
        source("docs/d.md", "md", "# D\n"),
    ];
    let r = CodebaseAnalyzer::analyze_sources(&files);
    let by_language: usize = r.file_stats.iter().map(|e| e.1.file_count).sum();
    assert_eq!(r.total_stats.total_files, 4);
    assert_eq!(by_language, 4);
    assert!(r.total_stats.test_files <= r.total_stats.total_files);
    assert!(r.total_stats.doc_files <= r.total_stats.total_files);
}
