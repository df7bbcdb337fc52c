use sekou_taisei::complexity::{ComplexityAnalyzer, ComplexityReport, FileComplexity, FunctionComplexity};

#[test]
fn single_rust_function_metrics() {
    let content = "fn a() {\n    if x && y {\n        z();\n    }\n}\n";
    let fc = ComplexityAnalyzer::analyze("src/a.rs", content, "rs");
    assert_eq!(fc.path, "src/a.rs");
    assert_eq!(fc.functions.len(), 1);
    let f = &fc.functions[0];
    assert_eq!(f.name, "a");
    assert_eq!(f.line_start, 1);
    assert_eq!(f.line_count, 5);
    assert_eq!(f.cyclomatic_complexity, 3);
    assert_eq!(f.nesting_depth, 3);
    assert_eq!(fc.total_complexity, 3);
    assert_eq!(fc.max_nesting, 3);
    assert_eq!(fc.long_functions, 0);
}

#[test]
fn second_function_starts_on_its_line() {
    let content = "pub fn one() {\n}\n\npub async fn two() {\n    while a || b {}\n}\n";
    let fc = ComplexityAnalyzer::analyze("x.rs", content, "rs");
    assert_eq!(fc.functions.len(), 2);
    assert_eq!(fc.functions[0].name, "one");
    assert_eq!(fc.functions[0].line_start, 1);
    assert_eq!(fc.functions[0].cyclomatic_complexity, 1);
    assert_eq!(fc.functions[1].name, "two");
    // The pattern's leading `\s*` also takes the blank line before `two`.
    assert_eq!(fc.functions[1].line_start, 3);
    assert_eq!(fc.functions[1].cyclomatic_complexity, 3);
}

#[test]
fn python_function_ends_at_dedent() {
    let content = "def f(x):\n    if x and y:\n        return 1\n\nz = 2\n";
    let fc = ComplexityAnalyzer::analyze("m.py", content, "py");
    assert_eq!(fc.functions.len(), 1);
    assert_eq!(fc.functions[0].name, "f");
    assert_eq!(fc.functions[0].line_count, 3);
    assert_eq!(fc.functions[0].cyclomatic_complexity, 3);
}

#[test]
fn unknown_extension_has_no_functions() {
    let fc = ComplexityAnalyzer::analyze("notes.txt", "fn a() {}\n", "txt");
    assert!(fc.functions.is_empty());
    assert_eq!(fc.total_complexity, 0);
}

fn func(name: &str, line: usize, count: usize, cc: usize, nest: usize) -> FunctionComplexity {
    FunctionComplexity {
        name: name.to_string(),
        line_start: line,
        line_count: count,
        cyclomatic_complexity: cc,
        nesting_depth: nest,
    }
}

#[test]
fn aggregate_reports_maximum_and_thresholds() {
    let files = vec![
        FileComplexity {
            path: "a.rs".to_string(),
            functions: vec![func("small", 1, 10, 2, 1), func("big", 3, 60, 12, 5)],
            total_complexity: 14,
            max_nesting: 5,
            long_functions: 1,
        },
        FileComplexity {
            path: "b.rs".to_string(),
            functions: vec![func("same", 7, 51, 12, 4)],
            total_complexity: 12,
            max_nesting: 4,
            long_functions: 1,
        },
    ];
    let r = ComplexityReport::aggregate(&files);
    assert_eq!(r.files_analyzed, 2);
    assert_eq!(r.total_functions, 3);
    assert_eq!(r.complexity_sum, 26);
    assert_eq!(r.max_complexity, 12);
    assert_eq!(r.max_complexity_function, Some("a.rs:3 (big)".to_string()));
    assert_eq!(
        r.long_functions,
        vec!["a.rs:3 (big) - 60 lines".to_string(), "b.rs:7 (same) - 51 lines".to_string()]
    );
    assert_eq!(r.deeply_nested, vec!["a.rs:3 (big) - 5 levels".to_string()]);
    assert!(r.average_exceeds(5));
    assert!(!r.average_exceeds(9));
}

#[test]
fn aggregate_of_nothing() {
    let r = ComplexityReport::aggregate(&Vec::new());
    assert_eq!(r.files_analyzed, 0);
    assert_eq!(r.total_functions, 0);
    assert_eq!(r.max_complexity, 0);
    assert_eq!(r.max_complexity_function, None);
    assert!(!r.average_exceeds(0));
}
