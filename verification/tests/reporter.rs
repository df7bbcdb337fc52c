use sekou_taisei::analysis::{CodebaseAnalysis, LanguageStats, TotalStats};
use sekou_taisei::complexity::ComplexityReport;
use sekou_taisei::issues::{Issue, IssueCategory, Severity};
use sekou_taisei::reporter::{sort_by_code_lines, HtmlReporter, MarkdownReporter};

fn lang(files: usize, total: usize, code: usize, comments: usize) -> LanguageStats {
    LanguageStats {
        file_count: files,
        total_lines: total,
        code_lines: code,
        comment_lines: comments,
        blank_lines: total - code - comments,
    }
}

fn issue(sev: Severity, cat: IssueCategory, title: &str) -> Issue {
    Issue {
        file: "src/a.rs".to_string(),
        line: Some(4),
        severity: sev,
        category: cat,
        title: title.to_string(),
        description: "desc".to_string(),
        suggestion: "fix it".to_string(),
    }
}

fn sample() -> CodebaseAnalysis {
    CodebaseAnalysis {
        root_path: "/proj".to_string(),
        analyzed_at: "2024-01-02 03:04:05 UTC".to_string(),
        file_stats: vec![
            ("py".to_string(), lang(1, 10, 5, 2)),
            ("rs".to_string(), lang(2, 40, 30, 5)),
            ("ts".to_string(), lang(1, 6, 5, 0)),
        ],
        total_stats: TotalStats {
            total_files: 4,
            total_lines: 56,
            code_lines: 40,
            comment_lines: 7,
            blank_lines: 9,
            test_files: 1,
            doc_files: 0,
        },
        issues: vec![
            issue(Severity::Critical, IssueCategory::Security, "Hardcoded password"),
            issue(Severity::Low, IssueCategory::Maintainability, "TODO comment found"),
        ],
        complexity: ComplexityReport {
            files_analyzed: 4,
            total_functions: 3,
            complexity_sum: 9,
            max_complexity: 5,
            max_complexity_function: Some("src/a.rs:1 (a)".to_string()),
            long_functions: vec![],
            deeply_nested: vec![],
        },
        health_score: 75,
    }
}

#[test]
fn languages_sorted_by_code_lines_stably() {
    let table = sample().file_stats;
    let sorted = sort_by_code_lines(&table);
    let names: Vec<&str> = sorted.iter().map(|e| e.0.as_str()).collect();
    assert_eq!(names, vec!["rs", "py", "ts"]);
}

#[test]
fn markdown_report_sections() {
    let md = MarkdownReporter::generate(&sample(), "3.00");
    assert!(md.starts_with("# Codebase Health Report\n\n**Project:** `/proj`\n\n**Analyzed:** 2024-01-02 03:04:05 UTC\n\n"));
    assert!(md.contains("![Health Score](https://img.shields.io/badge/Health%20Score-75%25-green)\n\n"));
    assert!(md.contains("| Total Files | 4 |\n| Total Lines | 56 |\n"));
    assert!(md.contains("| Health Score | 75/100 |\n"));
    assert!(md.contains("| rs | 2 | 40 | 30 | 5 |\n| py | 1 | 10 | 5 | 2 |\n| ts | 1 | 6 | 5 | 0 |\n"));
    assert!(md.contains("- **Average Complexity:** 3.00\n"));
    assert!(md.contains("  - Location: `src/a.rs:1 (a)`\n"));
    assert!(md.ends_with("*Generated by codebase-health*\n"));
}

#[test]
fn summary_lines() {
    let s = sample().summary("71.4", "12.5");
    let expected_head = "📊 Codebase Health Summary\n========================\n\n📁 Project: /proj\n📅 Analyzed: 2024-01-02 03:04:05 UTC\n\n📈 Health Score: 75/100 ✅\n\n📂 Files: 4 (56 lines)\n   Code: 40 lines (71.4%)\n   Comments: 7 lines (12.5%)\n   Blank: 9 lines\n\n📊 Languages:\n   rs: 2 files, 30 lines\n   py: 1 files, 5 lines\n   ts: 1 files, 5 lines\n\n⚠️  Issues: 2 total\n   🔴 Critical: 1\n   🟢 Low: 1\n";
    assert_eq!(s, expected_head);
}

#[test]
fn summary_shows_five_languages_at_most() {
    let mut a = sample();
    a.file_stats = (0..7).map(|k| (format!("l{}", k), lang(1, 10 + k, 10 + k, 0))).collect();
    a.issues = vec![];
    let s = a.summary("0.0", "0.0");
    assert!(s.contains("   l6: 1 files, 16 lines\n"));
    assert!(s.contains("   l2: 1 files, 12 lines\n"));
    assert!(!s.contains("   l1: "));
    assert!(s.ends_with("⚠️  Issues: 0 total\n"));
}

#[test]
fn html_embeds_the_json() {
    let html = HtmlReporter::generate("{\"a\":1}");
    assert!(html.contains("{\"a\":1}"));
    assert!(html.starts_with("<!DOCTYPE html>"));
}
