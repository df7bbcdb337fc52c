use sekou_taisei::issues::{IssueCategory, IssueDetector, Severity};

#[test]
fn severity_priorities() {
    assert_eq!(Severity::Critical.priority(), 5);
    assert_eq!(Severity::High.priority(), 4);
    assert_eq!(Severity::Medium.priority(), 3);
    assert_eq!(Severity::Low.priority(), 2);
    assert_eq!(Severity::Info.priority(), 1);
}

#[test]
fn rust_file_issues_in_order() {
    let content = "let x = foo().unwrap();\n// TODO: fix this\nlet password = \"hunter2\";\n";
    let issues = IssueDetector::detect("src/main.rs", content, "rs");
    assert_eq!(issues.len(), 3);

    assert_eq!(issues[0].title, "TODO comment found");
    assert_eq!(issues[0].line, Some(2));
    assert_eq!(issues[0].severity, Severity::Low);
    assert_eq!(issues[0].category, IssueCategory::Maintainability);
    assert_eq!(issues[0].description, "fix this");
    assert_eq!(issues[0].file, "src/main.rs");

    assert_eq!(issues[1].title, "Hardcoded password");
    assert_eq!(issues[1].line, Some(3));
    assert_eq!(issues[1].severity, Severity::Critical);
    assert_eq!(issues[1].category, IssueCategory::Security);

    assert_eq!(issues[2].title, "Usage of unwrap()");
    assert_eq!(issues[2].line, Some(1));
    assert_eq!(issues[2].severity, Severity::Medium);
    assert_eq!(issues[2].category, IssueCategory::CodeQuality);
}

#[test]
fn fixme_is_high_and_hack_is_medium() {
    let content = "# FIXME broken\n-- hack later\n";
    let issues = IssueDetector::detect("tool.sql", content, "sql");
    assert_eq!(issues.len(), 2);
    assert_eq!(issues[0].title, "FIXME comment found");
    assert_eq!(issues[0].severity, Severity::High);
    assert_eq!(issues[0].description, "broken");
    assert_eq!(issues[1].title, "hack comment found");
    assert_eq!(issues[1].severity, Severity::Medium);
}

#[test]
fn only_three_long_lines_are_reported() {
    let content = format!(
        "{}\n{}\n{}\n{}\n",
        "a".repeat(121),
        "b".repeat(121),
        "c".repeat(121),
        "d".repeat(121)
    );
    let issues = IssueDetector::detect("a.txt", &content, "txt");
    assert_eq!(issues.len(), 3);
    for (k, i) in issues.iter().enumerate() {
        assert_eq!(i.title, "Line too long");
        assert_eq!(i.line, Some(k + 1));
        assert_eq!(i.description, "Line has 121 characters");
        assert_eq!(i.severity, Severity::Info);
    }
}

#[test]
fn long_line_length_counts_bytes() {
    let long = "あ".repeat(41);
    let issues = IssueDetector::detect("a.txt", &long, "txt");
    assert_eq!(issues.len(), 1);
    assert_eq!(issues[0].description, "Line has 123 characters");
}

#[test]
fn duplicated_lines_are_reported_once_per_run() {
    let line = "let value = compute_something(42);";
    let content = format!("{l}\n{l}\n{l}\nend\n", l = line);
    let issues = IssueDetector::detect("dup.txt", &content, "txt");
    assert_eq!(issues.len(), 1);
    assert_eq!(issues[0].title, "Potential code duplication");
    assert_eq!(issues[0].line, Some(1));
    assert_eq!(issues[0].severity, Severity::Low);
}

#[test]
fn clone_in_loop_and_dead_code() {
    let content = "#[allow(dead_code)]\nfor x in v {\n    let y = x.clone();\n}\nlet z = w.clone();\n";
    let issues = IssueDetector::detect("lib.rs", content, "rs");
    let titles: Vec<&str> = issues.iter().map(|i| i.title.as_str()).collect();
    assert_eq!(titles, vec!["clone() in loop", "Dead code allowed"]);
    assert_eq!(issues[0].line, Some(3));
    assert_eq!(issues[1].line, Some(1));
}

#[test]
fn unwrap_on_test_lines_is_ignored() {
    let issues = IssueDetector::detect("lib.rs", "let t = test_value().unwrap();\n", "rs");
    assert!(issues.is_empty());
}

#[test]
fn typescript_any_console_and_callbacks() {
    let content = "let a: any = 1;\nconsole.log(a);\nf(() => { g(() => { h(() => { }) }) });\n";
    let issues = IssueDetector::detect("web/app.ts", content, "ts");
    let titles: Vec<&str> = issues.iter().map(|i| i.title.as_str()).collect();
    assert_eq!(
        titles,
        vec!["Console statement found", "Usage of 'any' type", "Potential callback nesting"]
    );
}

#[test]
fn console_in_test_path_is_ignored() {
    let issues = IssueDetector::detect("web/app.test.js", "console.log(1);\n", "js");
    assert!(issues.is_empty());
}

#[test]
fn python_bare_except_and_print() {
    let content = "try:\n    pass\nexcept:\n    print(\"x\")\n";
    let issues = IssueDetector::detect("m.py", content, "py");
    let titles: Vec<&str> = issues.iter().map(|i| i.title.as_str()).collect();
    assert_eq!(titles, vec!["Bare except clause", "Print statement found"]);
    assert_eq!(issues[0].line, Some(3));
    assert_eq!(issues[1].line, Some(4));
}

#[test]
fn go_ignored_error_and_fmt_print() {
    let content = "v, _ = parse(err)\nfmt.Println(x)\n";
    let issues = IssueDetector::detect("main.go", content, "go");
    let titles: Vec<&str> = issues.iter().map(|i| i.title.as_str()).collect();
    assert_eq!(titles, vec!["Error ignored", "fmt.Print usage"]);
    assert_eq!(issues[0].severity, Severity::High);
}

#[test]
fn every_issue_names_its_file_and_a_line_of_it() {
    let content = "x.clone()\nfor a in b {\n    let y = z.clone();\n}\n#[allow(dead_code)]\n// FIXME later\nlet s = w.unwrap();\n";
    let issues = IssueDetector::detect("src/lib.rs", content, "rs");
    let n = content.lines().count();
    assert!(!issues.is_empty());
    for i in &issues {
        assert_eq!(i.file, "src/lib.rs");
        let l = i.line.unwrap();
        assert!(1 <= l && l <= n);
    }
}
