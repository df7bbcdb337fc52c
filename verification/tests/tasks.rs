use sekou_taisei::analysis::{CodebaseAnalysis, TotalStats};
use sekou_taisei::complexity::ComplexityReport;
use sekou_taisei::issues::{Issue, IssueCategory, Severity};
use sekou_taisei::tasks::{ClaudeTaskGenerator, TaskPriority};

fn issue(file: &str, line: Option<usize>, sev: Severity, cat: IssueCategory, title: &str, desc: &str, sugg: &str) -> Issue {
    Issue {
        file: file.to_string(),
        line,
        severity: sev,
        category: cat,
        title: title.to_string(),
        description: desc.to_string(),
        suggestion: sugg.to_string(),
    }
}

fn analysis() -> CodebaseAnalysis {
    CodebaseAnalysis {
        root_path: "/p".to_string(),
        analyzed_at: "2024-01-01 00:00:00 UTC".to_string(),
        file_stats: vec![],
        total_stats: TotalStats::default(),
        issues: vec![
            issue("src/a.rs", Some(3), Severity::Medium, IssueCategory::CodeQuality, "Usage of unwrap()", "d1", "s1"),
            issue("src/a.rs", Some(7), Severity::Critical, IssueCategory::Security, "Hardcoded password", "d2", "s2"),
            issue("src/b.rs", None, Severity::Low, IssueCategory::CodeQuality, "t3", "", "s1"),
        ],
        complexity: ComplexityReport {
            files_analyzed: 3,
            total_functions: 1,
            complexity_sum: 12,
            max_complexity: 12,
            max_complexity_function: None,
            long_functions: vec!["src/c.rs:10 (big) - 60 lines".to_string()],
            deeply_nested: vec![],
        },
        health_score: 80,
    }
}

#[test]
fn priority_from_severity() {
    assert_eq!(TaskPriority::from(Severity::Critical), TaskPriority::P1);
    assert_eq!(TaskPriority::from(Severity::High), TaskPriority::P2);
    assert_eq!(TaskPriority::from(Severity::Medium), TaskPriority::P3);
    assert_eq!(TaskPriority::from(Severity::Low), TaskPriority::P4);
    assert_eq!(TaskPriority::from(Severity::Info), TaskPriority::P5);
    assert_eq!(TaskPriority::P4.value(), 4);
}

#[test]
fn names_and_paths() {
    assert_eq!(ClaudeTaskGenerator::category_name(&IssueCategory::BestPractice), "Best Practice");
    assert_eq!(ClaudeTaskGenerator::priority_name(TaskPriority::P2), "High");
    assert_eq!(ClaudeTaskGenerator::short_path("src/analyzer/mod.rs"), "mod.rs");
    assert_eq!(ClaudeTaskGenerator::short_path("main.rs"), "main.rs");
    assert_eq!(ClaudeTaskGenerator::short_path("dir/"), "");
}

#[test]
fn tasks_are_created_per_file_and_category_then_for_long_functions() {
    let g = ClaudeTaskGenerator::new(5, 3);
    let tasks = g.create_tasks(&analysis());
    let ids: Vec<&str> = tasks.iter().map(|t| t.id.as_str()).collect();
    assert_eq!(ids, vec!["task-0001", "task-0002", "task-0003", "task-0004"]);

    assert_eq!(tasks[0].title, "Code Quality improvements in a.rs");
    assert_eq!(tasks[0].priority, TaskPriority::P3);
    assert_eq!(tasks[0].estimated_complexity, "Low");
    assert_eq!(tasks[0].files, vec!["src/a.rs".to_string()]);
    assert_eq!(
        tasks[0].description,
        "The following issues need to be addressed:\n\n- **Usage of unwrap()** (line 3)\n  - d1\n"
    );
    assert_eq!(
        tasks[0].context,
        "File: `src/a.rs`\n\nIssues found in this file relate to Code Quality.\n\nReview the suggestions for each issue and apply appropriate fixes."
    );
    assert_eq!(
        tasks[0].acceptance_criteria,
        vec!["All identified issues are resolved", "s1", "Code compiles without errors", "Existing tests pass"]
    );
    assert_eq!(
        tasks[0].hints,
        vec!["Focus on improving readability", "Consider adding error handling", "s1"]
    );

    assert_eq!(tasks[1].title, "Security improvements in a.rs");
    assert_eq!(tasks[1].priority, TaskPriority::P1);

    assert_eq!(tasks[2].title, "Code Quality improvements in b.rs");
    assert_eq!(tasks[2].priority, TaskPriority::P4);
    assert_eq!(tasks[2].description, "The following issues need to be addressed:\n\n- **t3**\n");

    assert_eq!(tasks[3].title, "Refactor long function: c.rs:10 (big) - 60 lines");
    assert_eq!(tasks[3].category, "Refactoring");
    assert_eq!(tasks[3].files, vec!["src/c.rs".to_string()]);
    assert_eq!(tasks[3].priority, TaskPriority::P3);
}

#[test]
fn issues_beyond_the_limit_are_left_out() {
    let mut a = analysis();
    a.issues = (1..=4)
        .map(|k| issue("x.rs", Some(k), Severity::Low, IssueCategory::Testing, "t", "", "same"))
        .collect();
    a.complexity.long_functions = vec![];
    let tasks = ClaudeTaskGenerator::new(2, 5).create_tasks(&a);
    assert_eq!(tasks.len(), 1);
    assert_eq!(tasks[0].estimated_complexity, "Medium");
    assert_eq!(tasks[0].acceptance_criteria.len(), 1 + 2 + 2);
    assert_eq!(
        tasks[0].hints,
        vec!["Add unit tests for new code", "Consider edge cases", "same"]
    );
    assert!(ClaudeTaskGenerator::new(0, 5).create_tasks(&a).is_empty());
}

#[test]
fn plan_filters_and_orders_by_priority() {
    let g = ClaudeTaskGenerator::new(5, 3);
    let plan = g.plan(&analysis());
    let ids: Vec<&str> = plan.iter().map(|t| t.id.as_str()).collect();
    assert_eq!(ids, vec!["task-0002", "task-0001", "task-0004"]);
}

#[test]
fn index_task_and_batch_files() {
    let g = ClaudeTaskGenerator::new(5, 3);
    let plan = g.plan(&analysis());

    let index = ClaudeTaskGenerator::index_content(&plan, "Bot");
    assert!(index.starts_with("# Bot Task Index\n\n"));
    assert!(index.contains("1. Assign individual tasks to Bot instances\n"));
    assert!(index.contains("| P1 (Critical) | 1 |\n| P2 (High) | 0 |\n| P3 (Medium) | 2 |\n| P4 (Low) | 0 |\n| P5 (Info) | 0 |\n| **Total** | **3** |\n\n"));
    assert!(index.contains("| [task-0002](./task-0002.md) | P1 | Security | Security improvements in a.rs | a.rs |\n"));

    let file = ClaudeTaskGenerator::task_file_content(&plan[0], "Bot");
    assert!(file.starts_with("# Task: task-0002\n\n**Title:** Security improvements in a.rs\n\n**Priority:** P1 (Critical)\n\n"));
    assert!(file.contains("## Files to Modify\n\n- `src/a.rs`\n\n"));
    assert!(file.contains("## Bot Instructions\n\n"));
    assert!(file.ends_with("```\ngit commit -m \"fix(task-0002): Security improvements in a.rs\"\n```\n"));

    let batch = ClaudeTaskGenerator::batch_content(&plan, "Bot");
    assert!(batch.contains("## Priority 1 Tasks\n\n"));
    assert!(batch.contains("**Group 1:**\n- [ ] [task-0001](./task-0001.md) - Code Quality improvements in a.rs\n- [ ] [task-0004](./task-0004.md) - Refactor long function: c.rs:10 (big) - 60 lines\n\n"));
    assert!(!batch.contains("## Priority 2 Tasks"));
    assert!(batch.contains("bot-code \"Complete task task-0001 following the instructions in .bot/tasks/task-0001.md\""));
}

#[test]
fn tasks_sharing_a_file_go_to_different_groups() {
    let mut a = analysis();
    a.issues = vec![
        issue("f.rs", Some(1), Severity::Critical, IssueCategory::Security, "a", "", "x"),
        issue("f.rs", Some(2), Severity::Critical, IssueCategory::Performance, "b", "", "y"),
        issue("g.rs", Some(3), Severity::Critical, IssueCategory::Security, "c", "", "z"),
    ];
    a.complexity.long_functions = vec![];
    let plan = ClaudeTaskGenerator::new(5, 5).plan(&a);
    let batch = ClaudeTaskGenerator::batch_content(&plan, "Bot");
    assert!(batch.contains("**Group 1:**\n- [ ] [task-0001](./task-0001.md) - Security improvements in f.rs\n- [ ] [task-0003](./task-0003.md) - Security improvements in g.rs\n\n**Group 2:**\n- [ ] [task-0002](./task-0002.md) - Performance improvements in f.rs\n\n"));
}

#[test]
fn a_group_never_holds_two_tasks_on_one_file() {
    let mut a = analysis();
    a.issues = vec![
        issue("f1.rs", Some(1), Severity::Critical, IssueCategory::Security, "a", "", "x"),
        issue("f2.rs", Some(2), Severity::Critical, IssueCategory::Security, "b", "", "y"),
        issue("f2.rs", Some(3), Severity::Critical, IssueCategory::Performance, "c", "", "z"),
    ];
    a.complexity.long_functions = vec![];
    let plan = ClaudeTaskGenerator::new(5, 5).plan(&a);
    let groups = ClaudeTaskGenerator::batch_groups(&plan);
    let ids: Vec<Vec<&str>> = groups.iter().map(|g| g.iter().map(|t| t.id.as_str()).collect()).collect();
    assert_eq!(ids, vec![vec!["task-0001", "task-0002"], vec!["task-0003"]]);
    let batch = ClaudeTaskGenerator::batch_content(&plan, "Bot");
    assert!(batch.contains("**Group 1:**\n- [ ] [task-0001](./task-0001.md) - Security improvements in f1.rs\n- [ ] [task-0002](./task-0002.md) - Security improvements in f2.rs\n\n**Group 2:**\n- [ ] [task-0003](./task-0003.md) - Performance improvements in f2.rs\n\n"));
}

#[test]
fn batch_lists_each_task_once_under_its_priority() {
    let mut a = analysis();
    a.issues = vec![
        issue("f1.rs", Some(1), Severity::Critical, IssueCategory::Security, "a", "", "x"),
        issue("f1.rs", Some(2), Severity::High, IssueCategory::Performance, "b", "", "y"),
        issue("f2.rs", Some(3), Severity::Critical, IssueCategory::Security, "c", "", "z"),
    ];
    let plan = ClaudeTaskGenerator::new(5, 5).plan(&a);
    let batch = ClaudeTaskGenerator::batch_content(&plan, "Bot");
    for t in &plan {
        let line = format!("- [ ] [{}](./{}.md)", t.id, t.id);
        assert_eq!(batch.matches(&line).count(), 1);
        let section = format!("## Priority {} Tasks", t.priority.value());
        let at_line = batch.find(&line).unwrap();
        let at_section = batch.find(&section).unwrap();
        assert!(at_section < at_line);
        let next = batch[at_section + 1..].find("## Priority ").map(|k| k + at_section + 1).unwrap_or(batch.len());
        assert!(at_line < next);
    }
}
