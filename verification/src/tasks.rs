//! Task instructions for AI coding agents, generated from an analysis: one
//! task per file and issue category, plus refactoring tasks for long and
//! deeply nested functions.

use vstd::prelude::*;
use crate::analysis::CodebaseAnalysis;
use crate::complexity::string_views;
use crate::issues::{line_views, views, Issue, IssueCategory, IssueView, Severity};
use crate::text::{
    decimal, extend_chars, extend_str, from_chars, lowercase, push_decimal, push_padded, to_chars,
    to_lowercase, zero_pad, chars_eq,
};

verus! {

/// Task priority level, P1 (critical) to P5 (info).
#[derive(Debug, Clone, Copy, PartialEq, Eq, Hash, PartialOrd, Ord, Structural)]
pub enum TaskPriority {
    P1,
    P2,
    P3,
    P4,
    P5,
}

impl TaskPriority {
    /// The number of a priority: 1 for P1 up to 5 for P5.
    pub open spec fn number(self) -> u8 {
        match self {
            TaskPriority::P1 => 1,
            TaskPriority::P2 => 2,
            TaskPriority::P3 => 3,
            TaskPriority::P4 => 4,
            TaskPriority::P5 => 5,
        }
    }

    /// The number of this priority.
    pub fn value(&self) -> (n: u8)
        ensures
            n == self.number(),
    {
        match self {
            TaskPriority::P1 => 1,
            TaskPriority::P2 => 2,
            TaskPriority::P3 => 3,
            TaskPriority::P4 => 4,
            TaskPriority::P5 => 5,
        }
    }

    /// The priority of issues of a severity.
    pub open spec fn of_severity(s: Severity) -> TaskPriority {
        match s {
            Severity::Critical => TaskPriority::P1,
            Severity::High => TaskPriority::P2,
            Severity::Medium => TaskPriority::P3,
            Severity::Low => TaskPriority::P4,
            Severity::Info => TaskPriority::P5,
        }
    }
}

impl From<Severity> for TaskPriority {
    fn from(severity: Severity) -> (r: Self) {
        match severity {
            Severity::Critical => TaskPriority::P1,
            Severity::High => TaskPriority::P2,
            Severity::Medium => TaskPriority::P3,
            Severity::Low => TaskPriority::P4,
            Severity::Info => TaskPriority::P5,
        }
    }
}

impl vstd::std_specs::convert::FromSpecImpl<Severity> for TaskPriority {
    open spec fn obeys_from_spec() -> bool {
        true
    }

    open spec fn from_spec(v: Severity) -> TaskPriority {
        TaskPriority::of_severity(v)
    }
}

/// A task's priority number and its severity's priority add up to six: the
/// most severe issues get the most urgent tasks.
pub proof fn lemma_priority_reverses_severity(s: Severity)
    ensures
        TaskPriority::of_severity(s).number() + s.priority_of() == 6,
{
}

/// A task for an AI coding agent.
#[derive(Debug)]
pub struct ClaudeTask {
    pub id: String,
    pub title: String,
    pub priority: TaskPriority,
    pub category: String,
    pub estimated_complexity: String,
    pub files: Vec<String>,
    pub description: String,
    pub context: String,
    pub acceptance_criteria: Vec<String>,
    pub hints: Vec<String>,
}

/// The mathematical content of a [`ClaudeTask`].
#[verifier::ext_equal]
pub struct TaskView {
    pub id: Seq<char>,
    pub title: Seq<char>,
    pub priority: TaskPriority,
    pub category: Seq<char>,
    pub estimated_complexity: Seq<char>,
    pub files: Seq<Seq<char>>,
    pub description: Seq<char>,
    pub context: Seq<char>,
    pub acceptance_criteria: Seq<Seq<char>>,
    pub hints: Seq<Seq<char>>,
}

impl View for ClaudeTask {
    type V = TaskView;

    open spec fn view(&self) -> TaskView {
        TaskView {
            id: self.id@,
            title: self.title@,
            priority: self.priority,
            category: self.category@,
            estimated_complexity: self.estimated_complexity@,
            files: string_views(self.files@),
            description: self.description@,
            context: self.context@,
            acceptance_criteria: string_views(self.acceptance_criteria@),
            hints: string_views(self.hints@),
        }
    }
}

/// The views of a sequence of tasks.
pub open spec fn task_views(v: Seq<ClaudeTask>) -> Seq<TaskView> {
    v.map_values(|t: ClaudeTask| t@)
}

/// Generator of task files for an AI coding agent.
pub struct ClaudeTaskGenerator {
    max_tasks_per_file: usize,
    priority_threshold: u8,
}

// ---------------------------------------------------------------------------
// Texts
// ---------------------------------------------------------------------------

/// The display name of an issue category.
pub open spec fn category_name_of(c: IssueCategory) -> Seq<char> {
    match c {
        IssueCategory::Security => "Security"@,
        IssueCategory::CodeQuality => "Code Quality"@,
        IssueCategory::Performance => "Performance"@,
        IssueCategory::Maintainability => "Maintainability"@,
        IssueCategory::Documentation => "Documentation"@,
        IssueCategory::Testing => "Testing"@,
        IssueCategory::BestPractice => "Best Practice"@,
    }
}

/// The display name of a priority.
pub open spec fn priority_name_of(p: TaskPriority) -> Seq<char> {
    match p {
        TaskPriority::P1 => "Critical"@,
        TaskPriority::P2 => "High"@,
        TaskPriority::P3 => "Medium"@,
        TaskPriority::P4 => "Low"@,
        TaskPriority::P5 => "Info"@,
    }
}

/// The index just past the last `'/'` of `p` at or before index `n`, or 0.
pub open spec fn after_last_slash(p: Seq<char>, n: int) -> int
    decreases n,
{
    if n <= 0 {
        0
    } else if p[n - 1] == '/' {
        n
    } else {
        after_last_slash(p, n - 1)
    }
}

/// The part of a path after its last `'/'` (the whole path when there is
/// none).
pub open spec fn short_path_of(p: Seq<char>) -> Seq<char> {
    p.skip(after_last_slash(p, p.len() as int))
}

/// Whether index `i` holds the first `':'` of `s`.
pub open spec fn first_colon_at(s: Seq<char>, i: int) -> bool {
    0 <= i < s.len() && s[i] == ':' && forall|j: int| 0 <= j < i ==> s[j] != ':'
}

/// The part of a text before its first `':'` (the whole text when there is
/// none).
pub open spec fn before_colon(s: Seq<char>) -> Seq<char> {
    if exists|i: int| first_colon_at(s, i) {
        s.take(choose|i: int| first_colon_at(s, i))
    } else {
        s
    }
}

/// The task id with number `n`: `task-` and the number padded to 4 digits.
pub open spec fn task_id(n: nat) -> Seq<char> {
    "task-"@ + zero_pad(decimal(n), 4)
}

/// The bullet of one issue in a task's description: its title, its line
/// when known, and its description when not empty.
pub open spec fn description_line(i: IssueView) -> Seq<char> {
    "- **"@ + i.title + "**"@ + match i.line {
        Some(l) => " (line "@ + decimal(l as nat) + ")"@,
        None => Seq::empty(),
    } + "\n"@ + if i.description.len() > 0 {
        "  - "@ + i.description + "\n"@
    } else {
        Seq::empty()
    }
}

/// The bullets of the issues `v`.
pub open spec fn description_lines(v: Seq<IssueView>) -> Seq<char>
    decreases v.len(),
{
    if v.len() == 0 {
        Seq::empty()
    } else {
        description_lines(v.drop_last()) + description_line(v.last())
    }
}

pub open spec fn description_of(v: Seq<IssueView>) -> Seq<char> {
    "The following issues need to be addressed:\n\n"@ + description_lines(v)
}

/// The context of a task for file `f` whose issues are all in category `c`.
pub open spec fn context_of(f: Seq<char>, c: IssueCategory) -> Seq<char> {
    "File: `"@ + f + "`\n\n"@ + "Issues found in this file relate to "@ + category_name_of(c)
        + ".\n\n"@ + "Review the suggestions for each issue and apply appropriate fixes."@
}

/// The suggestions of the issues, in order.
pub open spec fn suggestions(v: Seq<IssueView>) -> Seq<Seq<char>> {
    v.map_values(|i: IssueView| i.suggestion)
}

pub open spec fn acceptance_of(v: Seq<IssueView>) -> Seq<Seq<char>> {
    seq!["All identified issues are resolved"@] + suggestions(v) + seq![
        "Code compiles without errors"@,
        "Existing tests pass"@,
    ]
}

/// The two general hints of a category.
pub open spec fn category_hints(c: IssueCategory) -> Seq<Seq<char>> {
    match c {
        IssueCategory::Security => seq![
            "Check for sensitive data exposure"@,
            "Consider using environment variables for secrets"@,
        ],
        IssueCategory::CodeQuality => seq![
            "Focus on improving readability"@,
            "Consider adding error handling"@,
        ],
        IssueCategory::Performance => seq![
            "Profile the code if needed"@,
            "Consider caching or memoization"@,
        ],
        IssueCategory::Maintainability => seq![
            "Keep changes minimal and focused"@,
            "Add comments for complex logic"@,
        ],
        IssueCategory::Documentation => seq![
            "Add doc comments for public APIs"@,
            "Include examples where helpful"@,
        ],
        IssueCategory::Testing => seq!["Add unit tests for new code"@, "Consider edge cases"@],
        IssueCategory::BestPractice => seq![
            "Follow the project's coding conventions"@,
            "Check the project's CONTRIBUTING guide if available"@,
        ],
    }
}

/// `h` with `s` added unless it is empty or already there.
pub open spec fn add_hint(h: Seq<Seq<char>>, s: Seq<char>) -> Seq<Seq<char>> {
    if s.len() > 0 && !h.contains(s) {
        h.push(s)
    } else {
        h
    }
}

/// The hints of a task: the category's hints, then the suggestions of the
/// first two issues that are not empty and not yet listed.
pub open spec fn hints_of(c: IssueCategory, v: Seq<IssueView>) -> Seq<Seq<char>> {
    let h0 = category_hints(c);
    let h1 = if v.len() > 0 {
        add_hint(h0, v[0].suggestion)
    } else {
        h0
    };
    if v.len() > 1 {
        add_hint(h1, v[1].suggestion)
    } else {
        h1
    }
}

/// The most urgent priority among issues (P5 for none).
pub open spec fn top_priority(v: Seq<IssueView>) -> TaskPriority
    decreases v.len(),
{
    if v.len() == 0 {
        TaskPriority::P5
    } else {
        let p = top_priority(v.drop_last());
        let q = TaskPriority::of_severity(v.last().severity);
        if q.number() < p.number() {
            q
        } else {
            p
        }
    }
}

proof fn lemma_top_priority(v: Seq<IssueView>)
    ensures
        forall|i: int|
            0 <= i < v.len() ==> top_priority(v).number() <= TaskPriority::of_severity(
                (#[trigger] v[i]).severity,
            ).number(),
        v.len() > 0 ==> exists|i: int|
            0 <= i < v.len() && top_priority(v) == TaskPriority::of_severity(
                (#[trigger] v[i]).severity,
            ),
    decreases v.len(),
{
    if v.len() > 0 {
        let w = v.drop_last();
        lemma_top_priority(w);
        assert forall|i: int| 0 <= i < v.len() implies top_priority(v).number()
            <= TaskPriority::of_severity((#[trigger] v[i]).severity).number() by {
            if i < w.len() {
                assert(v[i] == w[i]);
            }
        }
        let q = TaskPriority::of_severity(v.last().severity);
        if q.number() < top_priority(w).number() || w.len() == 0 {
            assert(v[v.len() - 1] == v.last());
        } else {
            let i = choose|i: int|
                0 <= i < w.len() && top_priority(w) == TaskPriority::of_severity(
                    (#[trigger] w[i]).severity,
                );
            assert(v[i] == w[i]);
        }
    }
}

/// A task made of issues `g` has the most urgent priority among them: no
/// issue of the task is more urgent than the task, and (when it has
/// issues) one of them is exactly as urgent.
pub proof fn lemma_issue_task_priority(
    n: nat,
    f: Seq<char>,
    c: IssueCategory,
    g: Seq<IssueView>,
)
    ensures
        forall|i: int|
            0 <= i < g.len() ==> issue_task(n, f, c, g).priority.number()
                <= TaskPriority::of_severity((#[trigger] g[i]).severity).number(),
        g.len() > 0 ==> exists|i: int|
            0 <= i < g.len() && issue_task(n, f, c, g).priority == TaskPriority::of_severity(
                (#[trigger] g[i]).severity,
            ),
{
    lemma_top_priority(g);
}

/// The estimated complexity of a task with `n` issues.
pub open spec fn complexity_label(n: nat) -> Seq<char> {
    if n == 1 {
        "Low"@
    } else if 2 <= n <= 3 {
        "Medium"@
    } else {
        "High"@
    }
}

// ---------------------------------------------------------------------------
// Grouping of issues into tasks
// ---------------------------------------------------------------------------

/// The distinct files of the issues, in order of first occurrence.
pub open spec fn file_order(v: Seq<IssueView>) -> Seq<Seq<char>>
    decreases v.len(),
{
    if v.len() == 0 {
        Seq::empty()
    } else {
        let p = file_order(v.drop_last());
        if p.contains(v.last().file) {
            p
        } else {
            p.push(v.last().file)
        }
    }
}

/// The distinct categories of the issues of file `f`, in order of first
/// occurrence.
pub open spec fn category_order(v: Seq<IssueView>, f: Seq<char>) -> Seq<IssueCategory>
    decreases v.len(),
{
    if v.len() == 0 {
        Seq::empty()
    } else {
        let p = category_order(v.drop_last(), f);
        if v.last().file == f && !p.contains(v.last().category) {
            p.push(v.last().category)
        } else {
            p
        }
    }
}

/// The issues of file `f` in category `c`, in order.
pub open spec fn group(v: Seq<IssueView>, f: Seq<char>, c: IssueCategory) -> Seq<IssueView>
    decreases v.len(),
{
    if v.len() == 0 {
        Seq::empty()
    } else {
        group(v.drop_last(), f, c) + if v.last().file == f && v.last().category == c {
            seq![v.last()]
        } else {
            Seq::empty()
        }
    }
}

/// The (file, category) pairs of the files `fs`, file by file.
pub open spec fn pairs_of(v: Seq<IssueView>, fs: Seq<Seq<char>>) -> Seq<(Seq<char>, IssueCategory)>
    decreases fs.len(),
{
    if fs.len() == 0 {
        Seq::empty()
    } else {
        pairs_of(v, fs.drop_last()) + category_order(v, fs.last()).map_values(
            |c: IssueCategory| (fs.last(), c),
        )
    }
}

/// The task with number `n` for the issues `g` of file `f` in category `c`.
pub open spec fn issue_task(n: nat, f: Seq<char>, c: IssueCategory, g: Seq<IssueView>) -> TaskView {
    TaskView {
        id: task_id(n),
        title: category_name_of(c) + " improvements in "@ + short_path_of(f),
        priority: top_priority(g),
        category: category_name_of(c),
        estimated_complexity: complexity_label(g.len()),
        files: seq![f],
        description: description_of(g),
        context: context_of(f, c),
        acceptance_criteria: acceptance_of(g),
        hints: hints_of(c, g),
    }
}

/// The tasks for the (file, category) pairs `ps`, numbered from `first`,
/// each covering at most `max` of its issues.
pub open spec fn pair_tasks(
    v: Seq<IssueView>,
    ps: Seq<(Seq<char>, IssueCategory)>,
    max: nat,
    first: nat,
) -> Seq<TaskView> {
    Seq::new(
        ps.len(),
        |k: int|
            issue_task(
                (first + k) as nat,
                ps[k].0,
                ps[k].1,
                crate::reporter::at_most(group(v, ps[k].0, ps[k].1), max as int),
            ),
    )
}

/// The tasks for the issues, numbered from 1: one per (file, category)
/// pair, covering at most `max` of its issues; none when `max` is 0.
pub open spec fn issue_tasks(v: Seq<IssueView>, max: nat) -> Seq<TaskView> {
    if max == 0 {
        Seq::empty()
    } else {
        pair_tasks(v, pairs_of(v, file_order(v)), max, 1)
    }
}

/// The refactoring task with number `n` for a long function at `loc`.
pub open spec fn long_task(n: nat, loc: Seq<char>) -> TaskView {
    TaskView {
        id: task_id(n),
        title: "Refactor long function: "@ + short_path_of(loc),
        priority: TaskPriority::P3,
        category: "Refactoring"@,
        estimated_complexity: "Medium"@,
        files: seq![before_colon(loc)],
        description: LONG_DESCRIPTION@ + loc + "`"@,
        context: LONG_CONTEXT@,
        acceptance_criteria: seq![
            "Function is split into logical smaller functions"@,
            "Each new function has a single responsibility"@,
            "Existing functionality is preserved"@,
            "New functions have appropriate names"@,
        ],
        hints: seq![
            "Identify logical blocks within the function"@,
            "Look for repeated code that can be extracted"@,
            "Consider if helper functions would improve readability"@,
        ],
    }
}

/// The refactoring task with number `n` for a deeply nested function at
/// `loc`.
pub open spec fn nesting_task(n: nat, loc: Seq<char>) -> TaskView {
    TaskView {
        id: task_id(n),
        title: "Reduce nesting in: "@ + short_path_of(loc),
        priority: TaskPriority::P3,
        category: "Refactoring"@,
        estimated_complexity: "Medium"@,
        files: seq![before_colon(loc)],
        description: NESTING_DESCRIPTION@ + loc + "`"@,
        context: NESTING_CONTEXT@,
        acceptance_criteria: seq![
            "Nesting depth is reduced to 4 levels or less"@,
            "Early returns are used where appropriate"@,
            "Logic is clear and easy to follow"@,
        ],
        hints: seq![
            "Use early returns to handle edge cases first"@,
            "Consider guard clauses"@,
            "Extract nested blocks into separate functions"@,
        ],
    }
}

pub const LONG_DESCRIPTION: &'static str = "This function is too long and should be broken down into smaller, focused functions.\n\nLocation: `";

pub const LONG_CONTEXT: &'static str = "Long functions are harder to maintain, test, and understand. Breaking them into smaller functions improves code quality.";

pub const NESTING_DESCRIPTION: &'static str = "This function has deep nesting that should be flattened.\n\nLocation: `";

pub const NESTING_CONTEXT: &'static str = "Deeply nested code is hard to follow and prone to bugs. Reducing nesting improves readability.";

/// All tasks of an analysis, before filtering and sorting: the issue tasks,
/// then one per long function, then one per deeply nested function,
/// numbered consecutively from 1.
pub open spec fn all_tasks(a: CodebaseAnalysis, max: nat) -> Seq<TaskView> {
    let it = issue_tasks(views(a.issues@), max);
    let longs = string_views(a.complexity.long_functions@);
    let nested = string_views(a.complexity.deeply_nested@);
    it + Seq::new(longs.len(), |k: int| long_task((it.len() + k + 1) as nat, longs[k])) + Seq::new(
        nested.len(),
        |k: int| nesting_task((it.len() + longs.len() + k + 1) as nat, nested[k]),
    )
}

proof fn lemma_file_order(v: Seq<IssueView>)
    ensures
        file_order(v).no_duplicates(),
        forall|i: int| 0 <= i < v.len() ==> file_order(v).contains(#[trigger] v[i].file),
        forall|f: Seq<char>|
            #[trigger] file_order(v).contains(f) ==> exists|i: int| 0 <= i < v.len() && v[i].file == f,
    decreases v.len(),
{
    if v.len() > 0 {
        let w = v.drop_last();
        lemma_file_order(w);
        let p = file_order(w);
        assert forall|i: int| 0 <= i < v.len() implies file_order(v).contains(#[trigger] v[i].file) by {
            if i < w.len() {
                assert(w[i] == v[i]);
                assert(p.contains(w[i].file));
                if !p.contains(v.last().file) {
                    let j = choose|j: int| 0 <= j < p.len() && p[j] == w[i].file;
                    assert(p.push(v.last().file)[j] == p[j]);
                }
            } else if !p.contains(v.last().file) {
                assert(p.push(v.last().file)[p.len() as int] == v.last().file);
            }
        }
        assert forall|f: Seq<char>| #[trigger] file_order(v).contains(f) implies exists|i: int|
            0 <= i < v.len() && v[i].file == f by {
            let q = file_order(v);
            let j = choose|j: int| 0 <= j < q.len() && q[j] == f;
            if j < p.len() {
                assert(q[j] == p[j]);
                assert(p.contains(f));
                let i = choose|i: int| 0 <= i < w.len() && w[i].file == f;
                assert(v[i] == w[i]);
            } else {
                assert(v[v.len() - 1].file == f);
            }
        }
    }
}

proof fn lemma_category_order(v: Seq<IssueView>, f: Seq<char>)
    ensures
        category_order(v, f).no_duplicates(),
        forall|i: int|
            0 <= i < v.len() && v[i].file == f ==> category_order(v, f).contains(#[trigger] v[i].category),
        forall|c: IssueCategory|
            #[trigger] category_order(v, f).contains(c) ==> exists|i: int|
                0 <= i < v.len() && v[i].file == f && v[i].category == c,
    decreases v.len(),
{
    if v.len() > 0 {
        let w = v.drop_last();
        lemma_category_order(w, f);
        let p = category_order(w, f);
        let q = category_order(v, f);
        assert forall|i: int| 0 <= i < v.len() && v[i].file == f implies q.contains(
            #[trigger] v[i].category,
        ) by {
            if i < w.len() {
                assert(w[i] == v[i]);
                assert(p.contains(w[i].category));
                let j = choose|j: int| 0 <= j < p.len() && p[j] == w[i].category;
                assert(q[j] == p[j]);
            } else if !p.contains(v.last().category) {
                assert(q[p.len() as int] == v.last().category);
            }
        }
        assert forall|c: IssueCategory| #[trigger] q.contains(c) implies exists|i: int|
            0 <= i < v.len() && v[i].file == f && v[i].category == c by {
            let j = choose|j: int| 0 <= j < q.len() && q[j] == c;
            if j < p.len() {
                assert(q[j] == p[j]);
                assert(p.contains(c));
                let i = choose|i: int| 0 <= i < w.len() && w[i].file == f && w[i].category == c;
                assert(v[i] == w[i]);
            } else {
                assert(v[v.len() - 1].category == c);
            }
        }
    }
}

proof fn lemma_pairs_of(v: Seq<IssueView>, fs: Seq<Seq<char>>)
    requires
        fs.no_duplicates(),
    ensures
        pairs_of(v, fs).no_duplicates(),
        forall|x: (Seq<char>, IssueCategory)|
            #[trigger] pairs_of(v, fs).contains(x) <==> fs.contains(x.0) && category_order(
                v,
                x.0,
            ).contains(x.1),
    decreases fs.len(),
{
    if fs.len() > 0 {
        let g = fs.drop_last();
        let f = fs.last();
        assert(g.no_duplicates()) by {
            assert forall|a: int, b: int| 0 <= a < b < g.len() implies g[a] != g[b] by {
                assert(g[a] == fs[a] && g[b] == fs[b]);
            }
        }
        lemma_pairs_of(v, g);
        lemma_category_order(v, f);
        let co = category_order(v, f);
        let head = pairs_of(v, g);
        let tail = co.map_values(|c: IssueCategory| (f, c));
        let all = pairs_of(v, fs);
        assert(all == head + tail);
        assert(!g.contains(f)) by {
            if g.contains(f) {
                let j = choose|j: int| 0 <= j < g.len() && g[j] == f;
                assert(fs[j] == fs[fs.len() - 1]);
            }
        }
        assert forall|a: int, b: int| 0 <= a < b < all.len() implies all[a] != all[b] by {
            if b < head.len() {
                assert(all[a] == head[a] && all[b] == head[b]);
            } else if a < head.len() {
                assert(all[a] == head[a]);
                assert(head.contains(head[a]));
                assert(all[b] == tail[b - head.len()]);
                assert(tail[b - head.len()].0 == f);
            } else {
                assert(all[a] == tail[a - head.len()] && all[b] == tail[b - head.len()]);
                assert(co[a - head.len()] != co[b - head.len()]);
            }
        }
        assert forall|x: (Seq<char>, IssueCategory)| #[trigger] all.contains(x) <==> fs.contains(x.0)
            && category_order(v, x.0).contains(x.1) by {
            if all.contains(x) {
                let j = choose|j: int| 0 <= j < all.len() && all[j] == x;
                if j < head.len() {
                    assert(all[j] == head[j]);
                    assert(head.contains(x));
                    let m = choose|m: int| 0 <= m < g.len() && g[m] == x.0;
                    assert(fs[m] == g[m]);
                } else {
                    assert(all[j] == tail[j - head.len()]);
                    assert(co[j - head.len()] == x.1);
                    assert(fs[fs.len() - 1] == f);
                }
            }
            if fs.contains(x.0) && category_order(v, x.0).contains(x.1) {
                let m = choose|m: int| 0 <= m < fs.len() && fs[m] == x.0;
                if m < g.len() {
                    assert(g[m] == fs[m]);
                    assert(head.contains(x));
                    let j = choose|j: int| 0 <= j < head.len() && head[j] == x;
                    assert(all[j] == head[j]);
                } else {
                    assert(x.0 == f);
                    let j = choose|j: int| 0 <= j < co.len() && co[j] == x.1;
                    assert(tail[j] == x);
                    assert(all[head.len() + j] == tail[j]);
                }
            }
        }
    }
}

/// The issue tasks are one per distinct (file, category) pair of the
/// issues: no pair twice, and every issue's pair (and no other) among them;
/// all tasks are these (none when no issues are taken per task) followed
/// by one per long function and one per deeply nested function.
pub proof fn lemma_task_count(a: CodebaseAnalysis, max: nat)
    ensures
        ({
            let v = views(a.issues@);
            let ps = pairs_of(v, file_order(v));
            &&& ps.no_duplicates()
            &&& forall|i: int| 0 <= i < v.len() ==> ps.contains((#[trigger] v[i].file, v[i].category))
            &&& forall|x: (Seq<char>, IssueCategory)|
                #[trigger] ps.contains(x) ==> exists|i: int|
                    0 <= i < v.len() && v[i].file == x.0 && v[i].category == x.1
            &&& all_tasks(a, max).len() == (if max == 0 {
                0
            } else {
                ps.len()
            }) + a.complexity.long_functions@.len() + a.complexity.deeply_nested@.len()
        }),
{
    let v = views(a.issues@);
    let fo = file_order(v);
    lemma_file_order(v);
    lemma_pairs_of(v, fo);
    let ps = pairs_of(v, fo);
    assert forall|i: int| 0 <= i < v.len() implies ps.contains((#[trigger] v[i].file, v[i].category)) by {
        lemma_category_order(v, v[i].file);
    }
    assert forall|x: (Seq<char>, IssueCategory)| #[trigger] ps.contains(x) implies exists|i: int|
        0 <= i < v.len() && v[i].file == x.0 && v[i].category == x.1 by {
        lemma_category_order(v, x.0);
    }
}

/// The generated tasks are numbered consecutively from 1, in the order in
/// which they are generated: the task at position `k` has the id numbered
/// `k + 1` (`task-0001` first).
pub proof fn lemma_task_ids_consecutive(a: CodebaseAnalysis, max: nat)
    ensures
        forall|k: int|
            0 <= k < all_tasks(a, max).len() ==> (#[trigger] all_tasks(a, max)[k]).id == task_id(
                (k + 1) as nat,
            ),
{
    let it = issue_tasks(views(a.issues@), max);
    let longs = string_views(a.complexity.long_functions@);
    let t = all_tasks(a, max);
    assert forall|k: int| 0 <= k < t.len() implies (#[trigger] t[k]).id == task_id(
        (k + 1) as nat,
    ) by {
        if k < it.len() {
            assert(t[k] == it[k]);
        } else if k < it.len() + longs.len() {
            assert(t[k] == long_task((k + 1) as nat, longs[k - it.len()]));
        } else {
            let nested = string_views(a.complexity.deeply_nested@);
            assert(t[k] == nesting_task((k + 1) as nat, nested[k - it.len() - longs.len()]));
        }
    }
}


// ---------------------------------------------------------------------------
// Selection and order of the tasks that are written
// ---------------------------------------------------------------------------

/// The tasks of `t` with priority `p`, in order.
pub open spec fn with_priority(t: Seq<TaskView>, p: TaskPriority) -> Seq<TaskView>
    decreases t.len(),
{
    if t.len() == 0 {
        Seq::empty()
    } else {
        with_priority(t.drop_last(), p) + if t.last().priority == p {
            seq![t.last()]
        } else {
            Seq::empty()
        }
    }
}

/// The tasks of `t` with priority `p` when its number is at most `threshold`.
pub open spec fn kept(t: Seq<TaskView>, p: TaskPriority, threshold: u8) -> Seq<TaskView> {
    if p.number() <= threshold {
        with_priority(t, p)
    } else {
        Seq::empty()
    }
}

/// The tasks of `t` whose priority number is at most `threshold`, ordered by
/// priority, tasks of equal priority in their order in `t` (a stable sort).
pub open spec fn prioritized(t: Seq<TaskView>, threshold: u8) -> Seq<TaskView> {
    kept(t, TaskPriority::P1, threshold) + kept(t, TaskPriority::P2, threshold) + kept(
        t,
        TaskPriority::P3,
        threshold,
    ) + kept(t, TaskPriority::P4, threshold) + kept(t, TaskPriority::P5, threshold)
}

proof fn lemma_with_priority(t: Seq<TaskView>, p: TaskPriority)
    ensures
        forall|i: int| 0 <= i < with_priority(t, p).len() ==> (#[trigger] with_priority(t, p)[i]).priority == p,
        forall|i: int| 0 <= i < with_priority(t, p).len() ==> t.contains(#[trigger] with_priority(t, p)[i]),
    decreases t.len(),
{
    if t.len() > 0 {
        lemma_with_priority(t.drop_last(), p);
        let w = with_priority(t.drop_last(), p);
        assert forall|i: int| 0 <= i < with_priority(t, p).len() implies t.contains(
            #[trigger] with_priority(t, p)[i],
        ) by {
            if i < w.len() {
                assert(t.drop_last().contains(w[i]));
                let j = choose|j: int| 0 <= j < t.drop_last().len() && t.drop_last()[j] == w[i];
                assert(t[j] == w[i]);
            } else {
                assert(t[t.len() - 1] == t.last());
            }
        }
    }
}

proof fn lemma_with_priority_has(t: Seq<TaskView>, k: int)
    requires
        0 <= k < t.len(),
    ensures
        with_priority(t, t[k].priority).contains(t[k]),
    decreases t.len(),
{
    let p = t[k].priority;
    if k < t.len() - 1 {
        lemma_with_priority_has(t.drop_last(), k);
        assert(t.drop_last()[k] == t[k]);
        let w = with_priority(t.drop_last(), p);
        let j = choose|j: int| 0 <= j < w.len() && w[j] == t[k];
        assert(with_priority(t, p)[j] == w[j]);
    } else {
        let w = with_priority(t.drop_last(), p);
        assert(with_priority(t, p)[w.len() as int] == t.last());
    }
}

proof fn lemma_flat_ids_member(gs: Seq<Seq<TaskView>>, x: Seq<char>)
    requires
        flat_ids(gs).contains(x),
    ensures
        exists|gi: int, m: int| 0 <= gi < gs.len() && 0 <= m < gs[gi].len() && gs[gi][m].id == x,
    decreases gs.len(),
{
    let f = flat_ids(gs);
    let j = choose|j: int| 0 <= j < f.len() && f[j] == x;
    let h = ids_of(gs[0]);
    if j < h.len() {
        assert(f[j] == h[j]);
        assert(gs[0][j].id == x);
    } else {
        let r = flat_ids(gs.drop_first());
        assert(f[j] == r[j - h.len()]);
        lemma_flat_ids_member(gs.drop_first(), x);
        let (gi, m) = choose|gi: int, m: int|
            0 <= gi < gs.drop_first().len() && 0 <= m < gs.drop_first()[gi].len()
                && gs.drop_first()[gi][m].id == x;
        assert(gs[gi + 1] == gs.drop_first()[gi]);
    }
}

/// With distinct task ids, the batch file lists each task once, in the
/// section of its own priority and in no other: the groups of priority `p`
/// list the id of a task exactly when the task has priority `p`, and never
/// list an id twice.
pub proof fn lemma_batch_lists_each_task_once(t: Seq<TaskView>)
    requires
        forall|a: int, b: int| 0 <= a < b < t.len() ==> (#[trigger] t[a]).id != (#[trigger] t[b]).id,
    ensures
        forall|k: int, p: TaskPriority|
            0 <= k < t.len() ==> (#[trigger] flat_ids(batch_groups_of(with_priority(t, p))).contains(
                t[k].id,
            ) <==> p == t[k].priority),
        forall|p: TaskPriority| #[trigger] flat_ids(batch_groups_of(with_priority(t, p))).no_duplicates(),
{
    assert forall|p: TaskPriority| #[trigger] flat_ids(batch_groups_of(with_priority(t, p))).no_duplicates() by {
        lemma_batch_groups_cover(with_priority(t, p));
    }
    assert forall|k: int, p: TaskPriority| 0 <= k < t.len() implies (
    #[trigger] flat_ids(batch_groups_of(with_priority(t, p))).contains(t[k].id) <==> p
        == t[k].priority) by {
        let l = with_priority(t, p);
        let gs = batch_groups_of(l);
        lemma_batch_groups_cover(l);
        lemma_with_priority(t, p);
        if p == t[k].priority {
            lemma_with_priority_has(t, k);
            let j = choose|j: int| 0 <= j < l.len() && l[j] == t[k];
            assert(flat_ids(gs).contains(l[j].id));
        }
        if flat_ids(gs).contains(t[k].id) {
            lemma_flat_ids_member(gs, t[k].id);
            let (gi, m) = choose|gi: int, m: int|
                0 <= gi < gs.len() && 0 <= m < gs[gi].len() && gs[gi][m].id == t[k].id;
            let x = gs[gi][m];
            assert(l.contains(x));
            let j = choose|j: int| 0 <= j < l.len() && l[j] == x;
            assert(l[j].priority == p);
            assert(t.contains(l[j]));
            let i = choose|i: int| 0 <= i < t.len() && t[i] == l[j];
            if i < k {
                assert(t[i].id != t[k].id);
            } else if k < i {
                assert(t[k].id != t[i].id);
            }
        }
    }
}

/// The tasks that are written out are exactly those of priority number at
/// most the threshold, each taken from the generated ones, ordered from the
/// most urgent priority to the least.
pub proof fn lemma_prioritized_order(t: Seq<TaskView>, threshold: u8)
    ensures
        forall|i: int|
            0 <= i < prioritized(t, threshold).len() ==> (#[trigger] prioritized(
                t,
                threshold,
            )[i]).priority.number() <= threshold && t.contains(prioritized(t, threshold)[i]),
        forall|i: int, j: int|
            0 <= i < j < prioritized(t, threshold).len() ==> (#[trigger] prioritized(
                t,
                threshold,
            )[i]).priority.number() <= (#[trigger] prioritized(t, threshold)[j]).priority.number(),
{
    lemma_with_priority(t, TaskPriority::P1);
    lemma_with_priority(t, TaskPriority::P2);
    lemma_with_priority(t, TaskPriority::P3);
    lemma_with_priority(t, TaskPriority::P4);
    lemma_with_priority(t, TaskPriority::P5);
    let k1 = kept(t, TaskPriority::P1, threshold);
    let k2 = kept(t, TaskPriority::P2, threshold);
    let k3 = kept(t, TaskPriority::P3, threshold);
    let k4 = kept(t, TaskPriority::P4, threshold);
    let k5 = kept(t, TaskPriority::P5, threshold);
    let r = prioritized(t, threshold);
    let b1 = k1.len();
    let b2 = b1 + k2.len();
    let b3 = b2 + k3.len();
    let b4 = b3 + k4.len();
    assert forall|i: int| 0 <= i < r.len() implies (r[i].priority.number() <= threshold
        && t.contains(r[i])) && (i < b1 ==> r[i].priority.number() == 1) && (b1 <= i < b2
        ==> r[i].priority.number() == 2) && (b2 <= i < b3 ==> r[i].priority.number() == 3) && (b3
        <= i < b4 ==> r[i].priority.number() == 4) && (b4 <= i ==> r[i].priority.number() == 5) by {
        if i < b1 {
            assert(r[i] == k1[i]);
            assert(k1[i] == with_priority(t, TaskPriority::P1)[i]);
        } else if i < b2 {
            assert(r[i] == k2[i - b1]);
            assert(k2[i - b1] == with_priority(t, TaskPriority::P2)[i - b1]);
        } else if i < b3 {
            assert(r[i] == k3[i - b2]);
            assert(k3[i - b2] == with_priority(t, TaskPriority::P3)[i - b2]);
        } else if i < b4 {
            assert(r[i] == k4[i - b3]);
            assert(k4[i - b3] == with_priority(t, TaskPriority::P4)[i - b3]);
        } else {
            assert(r[i] == k5[i - b4]);
            assert(k5[i - b4] == with_priority(t, TaskPriority::P5)[i - b4]);
        }
    }
}

// ---------------------------------------------------------------------------
// Texts of the task files
// ---------------------------------------------------------------------------

/// The short paths of `files`, joined by `", "`.
pub open spec fn joined_short_paths(files: Seq<Seq<char>>) -> Seq<char>
    decreases files.len(),
{
    if files.len() == 0 {
        Seq::empty()
    } else if files.len() == 1 {
        short_path_of(files[0])
    } else {
        joined_short_paths(files.drop_last()) + ", "@ + short_path_of(files.last())
    }
}

/// The row of a task in the index.
pub open spec fn index_row(t: TaskView) -> Seq<char> {
    "| ["@ + t.id + "](./"@ + t.id + ".md) | "@ + "P"@ + decimal(t.priority.number() as nat)
        + " | "@ + t.category + " | "@ + t.title + " | "@ + joined_short_paths(t.files) + " |\n"@
}

/// The rows of the tasks in the index.
pub open spec fn index_rows(t: Seq<TaskView>) -> Seq<char>
    decreases t.len(),
{
    if t.len() == 0 {
        Seq::empty()
    } else {
        index_rows(t.drop_last()) + index_row(t.last())
    }
}

pub const INDEX_INTRO: &'static str = " Task Index\n\nThis directory contains tasks generated by codebase-health analysis.\n\n## How to Use\n\n1. Assign individual tasks to ";

pub const INDEX_USAGE: &'static str = " instances\n2. Or use `batch.md` to assign multiple tasks in parallel\n3. Each task file contains context, acceptance criteria, and hints\n\n## Task Summary\n\n| Priority | Count |\n|----------|-------|\n";

/// The head of the index file, for the agent named `agent`.
pub open spec fn index_head(agent: Seq<char>) -> Seq<char> {
    "# "@ + agent + INDEX_INTRO@ + agent + INDEX_USAGE@
}

/// The index file of the tasks `t`, for the agent named `agent`.
pub open spec fn index_text(t: Seq<TaskView>, agent: Seq<char>) -> Seq<char> {
    index_head(agent) + "| P1 (Critical) | "@ + decimal(with_priority(t, TaskPriority::P1).len())
        + " |\n"@ + "| P2 (High) | "@ + decimal(with_priority(t, TaskPriority::P2).len()) + " |\n"@
        + "| P3 (Medium) | "@ + decimal(with_priority(t, TaskPriority::P3).len()) + " |\n"@
        + "| P4 (Low) | "@ + decimal(with_priority(t, TaskPriority::P4).len()) + " |\n"@
        + "| P5 (Info) | "@ + decimal(with_priority(t, TaskPriority::P5).len()) + " |\n"@
        + "| **Total** | **"@ + decimal(t.len()) + "** |\n\n"@ + "## Task List\n\n"@
        + "| ID | Priority | Category | Title | Files |\n"@
        + "|----|----------|----------|-------|-------|\n"@ + index_rows(t)
}

/// `prefix`, `s` and a line break for each `s` of `v`.
pub open spec fn bullet_lines(prefix: Seq<char>, v: Seq<Seq<char>>, suffix: Seq<char>) -> Seq<char>
    decreases v.len(),
{
    if v.len() == 0 {
        Seq::empty()
    } else {
        bullet_lines(prefix, v.drop_last(), suffix) + prefix + v.last() + suffix
    }
}

pub const TASK_STEPS: &'static str = " Instructions\n\nWhen working on the task:\n\n1. Read the affected files first to understand the current implementation\n2. Make minimal, focused changes that address the specific issues\n3. Ensure all acceptance criteria are met\n4. Run any relevant tests to verify the changes\n5. Commit with a clear message referencing the task ID\n\n```\n";

/// The file of one task, for the agent named `agent`.
pub open spec fn task_text(t: TaskView, agent: Seq<char>) -> Seq<char> {
    "# Task: "@ + t.id + "\n\n"@ + "**Title:** "@ + t.title + "\n\n"@ + "**Priority:** P"@ + decimal(
        t.priority.number() as nat,
    ) + " ("@ + priority_name_of(t.priority) + ")\n\n"@ + "**Category:** "@ + t.category
        + "\n\n"@ + "**Estimated Complexity:** "@ + t.estimated_complexity + "\n\n"@
        + "## Files to Modify\n\n"@ + bullet_lines("- `"@, t.files, "`\n"@) + "\n"@
        + "## Description\n\n"@ + t.description + "\n\n"@ + "## Context\n\n"@ + t.context
        + "\n\n"@ + "## Acceptance Criteria\n\n"@ + bullet_lines(
        "- [ ] "@,
        t.acceptance_criteria,
        "\n"@,
    ) + "\n"@ + "## Hints\n\n"@ + bullet_lines("- "@, t.hints, "\n"@) + "\n"@
        + "---\n\n## "@ + agent + TASK_STEPS@ + "git commit -m \"fix("@ + t.id + "): "@ + t.title + "\"\n"@
        + "```\n"@
}

/// Whether task `other` names a file that task `lead` names too.
pub open spec fn shares_file(other: TaskView, lead: TaskView) -> bool {
    exists|k: int| 0 <= k < other.files.len() && lead.files.contains(#[trigger] other.files[k])
}

/// The line of a task in a group of the batch file.
pub open spec fn batch_line(t: TaskView) -> Seq<char> {
    "- [ ] ["@ + t.id + "](./"@ + t.id + ".md) - "@ + t.title + "\n"@
}

/// Task `t` shares a file with some task of the group `g`.
pub open spec fn conflicts_with(t: TaskView, g: Seq<TaskView>) -> bool {
    exists|m: int| 0 <= m < g.len() && shares_file(t, #[trigger] g[m])
}

/// The group `g` grown by scanning `l` from index `j`, with the ids in
/// `assigned` taken: each task not yet taken that shares no file with any
/// member so far joins. Gives the group and the ids taken after it.
pub open spec fn grow_group(
    l: Seq<TaskView>,
    g: Seq<TaskView>,
    j: int,
    assigned: Seq<Seq<char>>,
) -> (Seq<TaskView>, Seq<Seq<char>>)
    decreases l.len() - j,
{
    if j < 0 || j >= l.len() {
        (g, assigned)
    } else if assigned.contains(l[j].id) || conflicts_with(l[j], g) {
        grow_group(l, g, j + 1, assigned)
    } else {
        grow_group(l, g.push(l[j]), j + 1, assigned.push(l[j].id))
    }
}

/// The groups of the tasks `l` (all of one priority) from index `i`, with
/// the ids in `assigned` taken: each task not yet taken starts a new group,
/// which is then grown over all of `l`.
pub open spec fn groups_of(l: Seq<TaskView>, i: int, assigned: Seq<Seq<char>>) -> Seq<
    Seq<TaskView>,
>
    decreases l.len() - i,
{
    if i < 0 || i >= l.len() {
        Seq::empty()
    } else if assigned.contains(l[i].id) {
        groups_of(l, i + 1, assigned)
    } else {
        let g = grow_group(l, seq![l[i]], 0, assigned.push(l[i].id));
        seq![g.0] + groups_of(l, i + 1, g.1)
    }
}

/// The parallel groups of the tasks `l`.
pub open spec fn batch_groups_of(l: Seq<TaskView>) -> Seq<Seq<TaskView>> {
    groups_of(l, 0, Seq::empty())
}

/// The lines of the tasks of a group.
pub open spec fn group_lines(g: Seq<TaskView>) -> Seq<char>
    decreases g.len(),
{
    if g.len() == 0 {
        Seq::empty()
    } else {
        group_lines(g.drop_last()) + batch_line(g.last())
    }
}

/// The text of the groups `gs`, numbered from `n`.
pub open spec fn groups_text(gs: Seq<Seq<TaskView>>, n: nat) -> Seq<char>
    decreases gs.len(),
{
    if gs.len() == 0 {
        Seq::empty()
    } else {
        "**Group "@ + decimal(n) + ":**\n"@ + group_lines(gs[0]) + "\n"@ + groups_text(
            gs.drop_first(),
            n + 1,
        )
    }
}

/// No file is named by two tasks `a` and `b`.
pub open spec fn files_disjoint(a: TaskView, b: TaskView) -> bool {
    forall|f: Seq<char>| !(#[trigger] a.files.contains(f) && b.files.contains(f))
}

/// The tasks of a group name pairwise disjoint sets of files, so they can
/// be worked on at the same time.
pub open spec fn independent(g: Seq<TaskView>) -> bool {
    forall|a: int, b: int| 0 <= a < b < g.len() ==> files_disjoint(#[trigger] g[a], #[trigger] g[b])
}

proof fn lemma_no_shared_file(t: TaskView, m: TaskView)
    requires
        !shares_file(t, m),
    ensures
        files_disjoint(t, m),
        files_disjoint(m, t),
{
    assert forall|f: Seq<char>| !(#[trigger] t.files.contains(f) && m.files.contains(f)) by {
        if t.files.contains(f) && m.files.contains(f) {
            let k = choose|k: int| 0 <= k < t.files.len() && t.files[k] == f;
            assert(m.files.contains(t.files[k]));
        }
    }
}

proof fn lemma_grow_group_independent(
    l: Seq<TaskView>,
    g: Seq<TaskView>,
    j: int,
    assigned: Seq<Seq<char>>,
)
    requires
        independent(g),
    ensures
        independent(grow_group(l, g, j, assigned).0),
    decreases l.len() - j,
{
    if 0 <= j < l.len() {
        if assigned.contains(l[j].id) || conflicts_with(l[j], g) {
            lemma_grow_group_independent(l, g, j + 1, assigned);
        } else {
            let g2 = g.push(l[j]);
            assert forall|a: int, b: int| 0 <= a < b < g2.len() implies files_disjoint(
                #[trigger] g2[a],
                #[trigger] g2[b],
            ) by {
                if b == g.len() {
                    assert(g2[a] == g[a]);
                    if shares_file(l[j], g[a]) {
                        assert(conflicts_with(l[j], g));
                    }
                    lemma_no_shared_file(l[j], g[a]);
                } else {
                    assert(g2[a] == g[a] && g2[b] == g[b]);
                }
            }
            lemma_grow_group_independent(l, g2, j + 1, assigned.push(l[j].id));
        }
    }
}

proof fn lemma_groups_independent(l: Seq<TaskView>, i: int, assigned: Seq<Seq<char>>)
    ensures
        forall|k: int|
            0 <= k < groups_of(l, i, assigned).len() ==> independent(
                #[trigger] groups_of(l, i, assigned)[k],
            ),
    decreases l.len() - i,
{
    if 0 <= i < l.len() {
        if assigned.contains(l[i].id) {
            lemma_groups_independent(l, i + 1, assigned);
            assert(groups_of(l, i, assigned) == groups_of(l, i + 1, assigned));
        } else {
            let g = grow_group(l, seq![l[i]], 0, assigned.push(l[i].id));
            assert(independent(seq![l[i]]));
            lemma_grow_group_independent(l, seq![l[i]], 0, assigned.push(l[i].id));
            lemma_groups_independent(l, i + 1, g.1);
            let gs = groups_of(l, i, assigned);
            assert forall|k: int| 0 <= k < gs.len() implies independent(#[trigger] gs[k]) by {
                assert(gs == seq![g.0] + groups_of(l, i + 1, g.1));
                if k > 0 {
                    assert(gs[k] == groups_of(l, i + 1, g.1)[k - 1]);
                } else {
                    assert(gs[0] == g.0);
                }
            }
        }
    }
}

/// The ids of the tasks of a group.
pub open spec fn ids_of(g: Seq<TaskView>) -> Seq<Seq<char>> {
    g.map_values(|t: TaskView| t.id)
}

/// The ids of the tasks of all groups, group after group.
pub open spec fn flat_ids(gs: Seq<Seq<TaskView>>) -> Seq<Seq<char>>
    decreases gs.len(),
{
    if gs.len() == 0 {
        Seq::empty()
    } else {
        ids_of(gs[0]) + flat_ids(gs.drop_first())
    }
}

/// The ids taken once the groups of `l` from index `i` are formed.
pub open spec fn taken_after(l: Seq<TaskView>, i: int, assigned: Seq<Seq<char>>) -> Seq<Seq<char>>
    decreases l.len() - i,
{
    if i < 0 || i >= l.len() {
        assigned
    } else if assigned.contains(l[i].id) {
        taken_after(l, i + 1, assigned)
    } else {
        taken_after(l, i + 1, grow_group(l, seq![l[i]], 0, assigned.push(l[i].id)).1)
    }
}

proof fn lemma_grow_group_takes(l: Seq<TaskView>, g: Seq<TaskView>, j: int, assigned: Seq<Seq<char>>)
    ensures
        ({
            let r = grow_group(l, g, j, assigned);
            &&& g.len() <= r.0.len()
            &&& r.0.take(g.len() as int) == g
            &&& r.1 == assigned + ids_of(r.0.skip(g.len() as int))
            &&& assigned.no_duplicates() ==> r.1.no_duplicates()
            &&& forall|m: int| g.len() <= m < r.0.len() ==> l.contains(#[trigger] r.0[m])
        }),
    decreases l.len() - j,
{
    if j < 0 || j >= l.len() {
        assert(g.take(g.len() as int) =~= g);
        assert(ids_of(g.skip(g.len() as int)) =~= Seq::<Seq<char>>::empty());
        assert(assigned + Seq::<Seq<char>>::empty() =~= assigned);
    } else if assigned.contains(l[j].id) || conflicts_with(l[j], g) {
        lemma_grow_group_takes(l, g, j + 1, assigned);
    } else {
        let g2 = g.push(l[j]);
        let a2 = assigned.push(l[j].id);
        lemma_grow_group_takes(l, g2, j + 1, a2);
        let r = grow_group(l, g2, j + 1, a2);
        assert(r.0.take(g.len() as int) =~= r.0.take(g2.len() as int).take(g.len() as int));
        assert(r.0.take(g.len() as int) =~= g);
        assert(r.0[g.len() as int] == r.0.take(g2.len() as int)[g.len() as int]);
        assert(r.0[g.len() as int] == l[j]);
        assert(r.0.skip(g.len() as int) =~= seq![l[j]] + r.0.skip(g2.len() as int));
        assert(ids_of(r.0.skip(g.len() as int)) =~= seq![l[j].id] + ids_of(
            r.0.skip(g2.len() as int),
        ));
        assert(r.1 =~= assigned + ids_of(r.0.skip(g.len() as int)));
        if assigned.no_duplicates() {
            assert(a2.no_duplicates()) by {
                assert forall|x: int, y: int| 0 <= x < y < a2.len() implies a2[x] != a2[y] by {
                    if y == assigned.len() {
                        assert(a2[x] == assigned[x]);
                    } else {
                        assert(a2[x] == assigned[x] && a2[y] == assigned[y]);
                    }
                }
            }
        }
        assert(l.contains(l[j]));
        assert forall|m: int| g.len() <= m < r.0.len() implies l.contains(#[trigger] r.0[m]) by {
            if m == g.len() {
                assert(r.0[m] == l[j]);
            }
        }
    }
}

proof fn lemma_groups_take(l: Seq<TaskView>, i: int, assigned: Seq<Seq<char>>)
    ensures
        taken_after(l, i, assigned) == assigned + flat_ids(groups_of(l, i, assigned)),
        assigned.no_duplicates() ==> taken_after(l, i, assigned).no_duplicates(),
        forall|k: int| 0 <= i <= k < l.len() ==> taken_after(l, i, assigned).contains(#[trigger] l[k].id),
        forall|gi: int, m: int|
            0 <= gi < groups_of(l, i, assigned).len() && 0 <= m < groups_of(l, i, assigned)[gi].len()
                ==> l.contains(#[trigger] groups_of(l, i, assigned)[gi][m]),
    decreases l.len() - i,
{
    if i < 0 || i >= l.len() {
        assert(flat_ids(groups_of(l, i, assigned)) =~= Seq::<Seq<char>>::empty());
        assert(assigned + Seq::<Seq<char>>::empty() =~= assigned);
    } else if assigned.contains(l[i].id) {
        lemma_groups_take(l, i + 1, assigned);
        let t = taken_after(l, i, assigned);
        assert forall|k: int| 0 <= i <= k < l.len() implies t.contains(#[trigger] l[k].id) by {
            if k == i {
                let w = choose|w: int| 0 <= w < assigned.len() && assigned[w] == l[i].id;
                assert(t[w] == assigned[w]);
            }
        }
    } else {
        let a1 = assigned.push(l[i].id);
        let g = grow_group(l, seq![l[i]], 0, a1);
        lemma_grow_group_takes(l, seq![l[i]], 0, a1);
        lemma_groups_take(l, i + 1, g.1);
        let rest = groups_of(l, i + 1, g.1);
        let gs = groups_of(l, i, assigned);
        assert(gs == seq![g.0] + rest);
        assert(gs.drop_first() =~= rest);
        assert(gs[0] == g.0);
        assert(g.0 =~= seq![l[i]] + g.0.skip(1)) by {
            assert(g.0.take(1) =~= seq![l[i]]);
        }
        assert(ids_of(g.0) =~= seq![l[i].id] + ids_of(g.0.skip(1)));
        assert(flat_ids(gs) == ids_of(g.0) + flat_ids(rest));
        assert(taken_after(l, i, assigned) =~= assigned + flat_ids(gs));
        if assigned.no_duplicates() {
            assert(a1.no_duplicates()) by {
                assert forall|x: int, y: int| 0 <= x < y < a1.len() implies a1[x] != a1[y] by {
                    if y == assigned.len() {
                        assert(a1[x] == assigned[x]);
                    } else {
                        assert(a1[x] == assigned[x] && a1[y] == assigned[y]);
                    }
                }
            }
        }
        let t = taken_after(l, i, assigned);
        assert forall|k: int| 0 <= i <= k < l.len() implies t.contains(#[trigger] l[k].id) by {
            if k == i {
                assert(t[assigned.len() as int] == l[i].id);
            }
        }
        assert forall|gi: int, m: int| 0 <= gi < gs.len() && 0 <= m < gs[gi].len() implies l.contains(
            #[trigger] gs[gi][m],
        ) by {
            if gi == 0 {
                if m == 0 {
                    assert(gs[0][0] == l[i]);
                    assert(l.contains(l[i]));
                }
            } else {
                assert(gs[gi] == rest[gi - 1]);
            }
        }
    }
}

/// Every task of `l` is in a batch group, by its id; no id is listed
/// twice; and every task listed is a task of `l`. When the ids of `l` are
/// distinct, each task is thus listed exactly once.
pub proof fn lemma_batch_groups_cover(l: Seq<TaskView>)
    ensures
        flat_ids(batch_groups_of(l)).no_duplicates(),
        forall|k: int| 0 <= k < l.len() ==> flat_ids(batch_groups_of(l)).contains(#[trigger] l[k].id),
        forall|gi: int, m: int|
            0 <= gi < batch_groups_of(l).len() && 0 <= m < batch_groups_of(l)[gi].len() ==> l.contains(
                #[trigger] batch_groups_of(l)[gi][m],
            ),
{
    lemma_groups_take(l, 0, Seq::empty());
    assert(Seq::<Seq<char>>::empty() + flat_ids(batch_groups_of(l)) =~= flat_ids(batch_groups_of(l)));
}

/// Every parallel group of the batch file is a set of independent tasks:
/// no two tasks of one group name the same file.
pub proof fn lemma_batch_groups_independent(l: Seq<TaskView>)
    ensures
        forall|k: int|
            0 <= k < batch_groups_of(l).len() ==> independent(#[trigger] batch_groups_of(l)[k]),
{
    lemma_groups_independent(l, 0, Seq::empty());
}

/// The section of the batch file for the tasks of `t` with priority `p`
/// (nothing when there are none).
pub open spec fn batch_section(t: Seq<TaskView>, p: TaskPriority, agent: Seq<char>) -> Seq<char> {
    let l = with_priority(t, p);
    if l.len() == 0 {
        Seq::empty()
    } else {
        "## Priority "@ + decimal(p.number() as nat) + " Tasks\n\n"@ + GROUPS_INTRO@ + agent
            + GROUPS_NOTE@
            + groups_text(batch_groups_of(l), 1)
    }
}

pub const BATCH_INTRO: &'static str = "# Batch Task Assignment\n\nThis file is designed for parallel ";

pub const BATCH_STRATEGY: &'static str = " instance assignment.\n\n## Assignment Strategy\n\nTasks are organized by priority and independence. Tasks that affect different files can be worked on in parallel.\n\n";

pub const GROUPS_INTRO: &'static str = "### Parallel Assignment Groups\n\nTasks in different groups can be assigned to different ";

pub const GROUPS_NOTE: &'static str = " instances simultaneously:\n\n";

/// The usage example that ends the batch file: how to hand the first two
/// tasks to two instances of the agent's command-line tool (named after the
/// agent in lower case, with `-code`), whose task files lie in the hidden
/// directory named after it.
pub open spec fn batch_tail(agent: Seq<char>) -> Seq<char> {
    let low = lowercase(agent);
    "---\n\n## Usage Example\n\n```bash\n# Assign to "@ + agent + " Code (Terminal 1)\n"@ + low
        + "-code \"Complete task task-0001 following the instructions in ."@ + low
        + "/tasks/task-0001.md\"\n\n# Assign to "@ + agent
        + " Code (Terminal 2) - runs in parallel\n"@ + low
        + "-code \"Complete task task-0002 following the instructions in ."@ + low
        + "/tasks/task-0002.md\"\n```\n"@
}

/// The sections of the batch file for the priorities `ps`, in order.
pub open spec fn batch_sections(t: Seq<TaskView>, ps: Seq<TaskPriority>, agent: Seq<char>) -> Seq<
    char,
>
    decreases ps.len(),
{
    if ps.len() == 0 {
        Seq::empty()
    } else {
        batch_sections(t, ps.drop_last(), agent) + batch_section(t, ps.last(), agent)
    }
}

/// The batch file of the tasks `t`, for the agent named `agent`: a section
/// per priority, most urgent first.
pub open spec fn batch_text(t: Seq<TaskView>, agent: Seq<char>) -> Seq<char> {
    BATCH_INTRO@ + agent + BATCH_STRATEGY@ + batch_sections(
        t,
        seq![
            TaskPriority::P1,
            TaskPriority::P2,
            TaskPriority::P3,
            TaskPriority::P4,
            TaskPriority::P5,
        ],
        agent,
    ) + batch_tail(agent)
}

// ---------------------------------------------------------------------------
// Building blocks
// ---------------------------------------------------------------------------

/// Whether `v` holds a text with the characters of `s`.
fn contains_text(v: &Vec<Vec<char>>, s: &Vec<char>) -> (b: bool)
    ensures
        b == line_views(v@).contains(s@),
{
    let mut i: usize = 0;
    while i < v.len()
        invariant
            i <= v.len(),
            forall|j: int| 0 <= j < i ==> v@[j]@ != s@,
        decreases v.len() - i,
    {
        if chars_eq(&v[i], s) {
            assert(line_views(v@)[i as int] == s@);
            return true;
        }
        i = i + 1;
    }
    assert(!line_views(v@).contains(s@)) by {
        if line_views(v@).contains(s@) {
            let j = choose|j: int| 0 <= j < line_views(v@).len() && line_views(v@)[j] == s@;
            assert(v@[j]@ == s@);
        }
    }
    false
}

/// Whether `v` holds a string equal to `s`.
fn contains_string(v: &Vec<String>, s: &String) -> (b: bool)
    ensures
        b == string_views(v@).contains(s@),
{
    let mut i: usize = 0;
    while i < v.len()
        invariant
            i <= v.len(),
            forall|j: int| 0 <= j < i ==> v@[j]@ != s@,
        decreases v.len() - i,
    {
        if v[i] == *s {
            assert(string_views(v@)[i as int] == s@);
            return true;
        }
        i = i + 1;
    }
    assert(!string_views(v@).contains(s@)) by {
        if string_views(v@).contains(s@) {
            let j = choose|j: int| 0 <= j < string_views(v@).len() && string_views(v@)[j] == s@;
            assert(v@[j]@ == s@);
        }
    }
    false
}

/// The distinct files of the issues, in order of first occurrence.
fn files_in_order(issues: &Vec<Issue>) -> (r: Vec<Vec<char>>)
    ensures
        line_views(r@) == file_order(views(issues@)),
{
    let ghost v = views(issues@);
    let mut r: Vec<Vec<char>> = Vec::new();
    let mut i: usize = 0;
    assert(v.take(0) =~= Seq::<IssueView>::empty());
    assert(line_views(r@) =~= Seq::<Seq<char>>::empty());
    while i < issues.len()
        invariant
            i <= issues@.len(),
            v == views(issues@),
            line_views(r@) == file_order(v.take(i as int)),
        decreases issues.len() - i,
    {
        proof {
            assert(v.take(i + 1).drop_last() =~= v.take(i as int));
            assert(v.take(i + 1).last() == issues@[i as int]@);
        }
        let f = to_chars(issues[i].file.as_str());
        if !contains_text(&r, &f) {
            let ghost before = r@;
            r.push(f);
            assert(line_views(r@) =~= line_views(before).push(f@));
        }
        i = i + 1;
    }
    assert(v.take(issues@.len() as int) =~= v);
    r
}

/// The distinct categories of the issues of file `f`, in order of first
/// occurrence.
fn categories_in_order(issues: &Vec<Issue>, f: &Vec<char>) -> (r: Vec<IssueCategory>)
    ensures
        r@ == category_order(views(issues@), f@),
{
    let ghost v = views(issues@);
    let mut r: Vec<IssueCategory> = Vec::new();
    let mut i: usize = 0;
    assert(v.take(0) =~= Seq::<IssueView>::empty());
    while i < issues.len()
        invariant
            i <= issues@.len(),
            v == views(issues@),
            r@ == category_order(v.take(i as int), f@),
        decreases issues.len() - i,
    {
        proof {
            assert(v.take(i + 1).drop_last() =~= v.take(i as int));
            assert(v.take(i + 1).last() == issues@[i as int]@);
        }
        let same_file = chars_eq(&to_chars(issues[i].file.as_str()), f);
        if same_file {
            let c = issues[i].category;
            let mut seen = false;
            let mut k: usize = 0;
            while k < r.len()
                invariant
                    k <= r.len(),
                    seen == r@.take(k as int).contains(c),
                decreases r.len() - k,
            {
                assert(r@.take(k + 1) =~= r@.take(k as int).push(r@[k as int]));
                proof {
                    if r@[k as int] != c && r@.take(k + 1).contains(c) {
                        let j = choose|j: int| 0 <= j < k + 1 && #[trigger] r@.take(k + 1)[j] == c;
                        assert(r@.take(k as int)[j] == c);
                    }
                    if r@[k as int] == c {
                        assert(r@.take(k + 1)[k as int] == c);
                    }
                }
                if r[k] == c {
                    seen = true;
                }
                k = k + 1;
            }
            assert(r@.take(r.len() as int) =~= r@);
            if !seen {
                r.push(c);
            }
        }
        i = i + 1;
    }
    assert(v.take(issues@.len() as int) =~= v);
    r
}

/// The first `max` issues of file `f` in category `c`, in order.
fn issues_of(issues: &Vec<Issue>, f: &Vec<char>, c: IssueCategory, max: usize) -> (r: Vec<Issue>)
    ensures
        views(r@) == crate::reporter::at_most(group(views(issues@), f@, c), max as int),
{
    let ghost v = views(issues@);
    let mut r: Vec<Issue> = Vec::new();
    let mut i: usize = 0;
    assert(v.take(0) =~= Seq::<IssueView>::empty());
    assert(views(r@) =~= Seq::<IssueView>::empty());
    while i < issues.len()
        invariant
            i <= issues@.len(),
            v == views(issues@),
            views(r@) == crate::reporter::at_most(group(v.take(i as int), f@, c), max as int),
            r@.len() <= max,
        decreases issues.len() - i,
    {
        let ghost w = group(v.take(i as int), f@, c);
        proof {
            assert(v.take(i + 1).drop_last() =~= v.take(i as int));
            assert(v.take(i + 1).last() == issues@[i as int]@);
        }
        if issues[i].category == c && chars_eq(&to_chars(issues[i].file.as_str()), f) {
            let ghost w2 = w + seq![issues@[i as int]@];
            assert(group(v.take(i + 1), f@, c) == w2);
            if r.len() < max {
                let ghost before = r@;
                r.push(issues[i].clone());
                proof {
                    assert(crate::reporter::at_most(w, max as int) == w);
                    assert(crate::reporter::at_most(w2, max as int) =~= w2);
                    assert(views(r@) =~= views(before).push(issues@[i as int]@));
                    assert(w2 =~= w.push(issues@[i as int]@));
                }
            } else {
                assert(crate::reporter::at_most(w2, max as int) =~= crate::reporter::at_most(
                    w,
                    max as int,
                ));
            }
        } else {
            assert(group(v.take(i + 1), f@, c) =~= w);
        }
        i = i + 1;
    }
    assert(v.take(issues@.len() as int) =~= v);
    r
}

/// Whether `s` holds at least one character.
fn nonempty(s: &String) -> (b: bool)
    ensures
        b == (s@.len() > 0),
{
    to_chars(s.as_str()).len() > 0
}

/// Appends the bullet of one issue of a task's description.
fn push_description_line(out: &mut Vec<char>, issue: &Issue)
    ensures
        final(out)@ == old(out)@ + description_line(issue@),
{
    let ghost before = out@;
    extend_str(out, "- **");
    extend_str(out, issue.title.as_str());
    extend_str(out, "**");
    let ghost mid = out@;
    match issue.line {
        Some(l) => {
            extend_str(out, " (line ");
            push_decimal(out, l as u128);
            extend_str(out, ")");
        },
        None => {},
    }
    let ghost line_part = match issue.line {
        Some(l) => " (line "@ + decimal(l as nat) + ")"@,
        None => Seq::<char>::empty(),
    };
    assert(out@ =~= mid + line_part);
    extend_str(out, "\n");
    let ghost mid2 = out@;
    if nonempty(&issue.description) {
        extend_str(out, "  - ");
        extend_str(out, issue.description.as_str());
        extend_str(out, "\n");
    }
    let ghost desc_part = if issue.description@.len() > 0 {
        "  - "@ + issue.description@ + "\n"@
    } else {
        Seq::<char>::empty()
    };
    assert(out@ =~= mid2 + desc_part);
    assert(out@ =~= before + description_line(issue@));
}

/// Copies of the strings of `v`.
fn clone_strings(v: &Vec<String>) -> (r: Vec<String>)
    ensures
        string_views(r@) == string_views(v@),
{
    let mut r: Vec<String> = Vec::new();
    let mut i: usize = 0;
    while i < v.len()
        invariant
            i <= v.len(),
            string_views(r@) == string_views(v@).take(i as int),
        decreases v.len() - i,
    {
        let ghost before = r@;
        r.push(v[i].clone());
        assert(string_views(r@) =~= string_views(before).push(v@[i as int]@));
        assert(string_views(v@).take(i + 1) =~= string_views(v@).take(i as int).push(
            v@[i as int]@,
        ));
        i = i + 1;
    }
    assert(string_views(v@).take(v.len() as int) =~= string_views(v@));
    r
}

impl Clone for ClaudeTask {
    fn clone(&self) -> (r: Self)
        ensures
            r@ == self@,
    {
        ClaudeTask {
            id: self.id.clone(),
            title: self.title.clone(),
            priority: self.priority,
            category: self.category.clone(),
            estimated_complexity: self.estimated_complexity.clone(),
            files: clone_strings(&self.files),
            description: self.description.clone(),
            context: self.context.clone(),
            acceptance_criteria: clone_strings(&self.acceptance_criteria),
            hints: clone_strings(&self.hints),
        }
    }
}

/// The text `task-` followed by `n` padded to 4 digits.
fn task_id_text(n: u128) -> (r: String)
    ensures
        r@ == task_id(n as nat),
{
    let mut v: Vec<char> = Vec::new();
    extend_str(&mut v, "task-");
    push_padded(&mut v, n, 4);
    from_chars(&v)
}

/// The part of `s` before its first `':'`.
fn before_colon_text(s: &String) -> (r: String)
    ensures
        r@ == before_colon(s@),
{
    let cs = to_chars(s.as_str());
    let mut i: usize = 0;
    while i < cs.len()
        invariant
            i <= cs.len(),
            cs@ == s@,
            forall|j: int| 0 <= j < i ==> cs@[j] != ':',
        decreases cs.len() - i,
    {
        if cs[i] == ':' {
            proof {
                assert(first_colon_at(s@, i as int));
                let k = choose|k: int| first_colon_at(s@, k);
                assert(k == i) by {
                    if k < i {
                        assert(cs@[k] != ':');
                    } else if k > i {
                        assert(s@[i as int] != ':');
                    }
                }
            }
            let mut out: Vec<char> = Vec::new();
            let mut j: usize = 0;
            while j < i
                invariant
                    j <= i < cs.len(),
                    out@ == cs@.take(j as int),
                decreases i - j,
            {
                out.push(cs[j]);
                j = j + 1;
                assert(out@ =~= cs@.take(j as int));
            }
            return from_chars(&out);
        }
        i = i + 1;
    }
    assert(!exists|k: int| first_colon_at(s@, k));
    s.clone()
}

impl ClaudeTaskGenerator {
    /// A generator that covers at most `max_tasks_per_file` issues per
    /// (file, category) task and keeps tasks of priority number up to
    /// `priority_threshold`.
    pub fn new(max_tasks_per_file: usize, priority_threshold: u8) -> (r: Self)
        ensures
            r.max_tasks() == max_tasks_per_file,
            r.threshold() == priority_threshold,
    {
        ClaudeTaskGenerator { max_tasks_per_file, priority_threshold }
    }

    /// The most issues one task covers.
    pub closed spec fn max_tasks(&self) -> usize {
        self.max_tasks_per_file
    }

    /// The highest priority number that is kept.
    pub closed spec fn threshold(&self) -> u8 {
        self.priority_threshold
    }

    /// The display name of an issue category.
    pub fn category_name(category: &IssueCategory) -> (r: &'static str)
        ensures
            r@ == category_name_of(*category),
    {
        match category {
            IssueCategory::Security => "Security",
            IssueCategory::CodeQuality => "Code Quality",
            IssueCategory::Performance => "Performance",
            IssueCategory::Maintainability => "Maintainability",
            IssueCategory::Documentation => "Documentation",
            IssueCategory::Testing => "Testing",
            IssueCategory::BestPractice => "Best Practice",
        }
    }

    /// The display name of a priority.
    pub fn priority_name(priority: TaskPriority) -> (r: &'static str)
        ensures
            r@ == priority_name_of(priority),
    {
        match priority {
            TaskPriority::P1 => "Critical",
            TaskPriority::P2 => "High",
            TaskPriority::P3 => "Medium",
            TaskPriority::P4 => "Low",
            TaskPriority::P5 => "Info",
        }
    }

    /// The part of a path after its last `'/'`.
    pub fn short_path(path: &str) -> (r: String)
        ensures
            r@ == short_path_of(path@),
    {
        let cs = to_chars(path);
        let mut k: usize = cs.len();
        while k > 0 && cs[k - 1] != '/'
            invariant
                k <= cs.len(),
                cs@ == path@,
                after_last_slash(path@, k as int) == after_last_slash(path@, path@.len() as int),
            decreases k,
        {
            k = k - 1;
        }
        let mut out: Vec<char> = Vec::new();
        let mut j: usize = k;
        while j < cs.len()
            invariant
                k <= j <= cs.len(),
                out@ == cs@.subrange(k as int, j as int),
            decreases cs.len() - j,
        {
            out.push(cs[j]);
            j = j + 1;
            assert(out@ =~= cs@.subrange(k as int, j as int));
        }
        assert(after_last_slash(path@, k as int) == k);
        assert(out@ =~= path@.skip(k as int));
        from_chars(&out)
    }

    /// The description of a task: a bullet per issue with its title, its
    /// line when known, and its description when not empty.
    pub fn build_description(issues: &Vec<Issue>) -> (r: String)
        ensures
            r@ == description_of(views(issues@)),
    {
        let ghost v = views(issues@);
        let mut out: Vec<char> = Vec::new();
        extend_str(&mut out, "The following issues need to be addressed:\n\n");
        let ghost start = out@;
        let mut i: usize = 0;
        assert(v.take(0) =~= Seq::<IssueView>::empty());
        assert(out@ =~= start + description_lines(v.take(0)));
        while i < issues.len()
            invariant
                i <= issues@.len(),
                v == views(issues@),
                start == "The following issues need to be addressed:\n\n"@,
                out@ == start + description_lines(v.take(i as int)),
            decreases issues.len() - i,
        {
            proof {
                assert(v.take(i + 1).drop_last() =~= v.take(i as int));
                assert(v.take(i + 1).last() == issues@[i as int]@);
            }
            push_description_line(&mut out, &issues[i]);
            i = i + 1;
        }
        assert(v.take(issues@.len() as int) =~= v);
        assert(out@ =~= description_of(v));
        from_chars(&out)
    }

    /// The context of a task for file `file` whose issues are in
    /// `category`.
    pub fn build_context(file: &str, category: IssueCategory) -> (r: String)
        ensures
            r@ == context_of(file@, category),
    {
        let mut out: Vec<char> = Vec::new();
        extend_str(&mut out, "File: `");
        extend_str(&mut out, file);
        extend_str(&mut out, "`\n\n");
        extend_str(&mut out, "Issues found in this file relate to ");
        extend_str(&mut out, Self::category_name(&category));
        extend_str(&mut out, ".\n\n");
        extend_str(&mut out, "Review the suggestions for each issue and apply appropriate fixes.");
        assert(out@ =~= context_of(file@, category));
        from_chars(&out)
    }

    /// The acceptance criteria of a task: all issues resolved, each issue's
    /// suggestion, and that the code compiles and its tests pass.
    pub fn build_acceptance_criteria(issues: &Vec<Issue>) -> (r: Vec<String>)
        ensures
            string_views(r@) == acceptance_of(views(issues@)),
    {
        let ghost v = views(issues@);
        let mut r: Vec<String> = Vec::new();
        r.push("All identified issues are resolved".to_owned());
        let mut i: usize = 0;
        while i < issues.len()
            invariant
                i <= issues@.len(),
                v == views(issues@),
                string_views(r@) == seq!["All identified issues are resolved"@] + suggestions(
                    v.take(i as int),
                ),
            decreases issues.len() - i,
        {
            let ghost before = r@;
            r.push(issues[i].suggestion.clone());
            assert(string_views(r@) =~= string_views(before).push(issues@[i as int].suggestion@));
            assert(suggestions(v.take(i + 1)) =~= suggestions(v.take(i as int)).push(
                issues@[i as int].suggestion@,
            ));
            i = i + 1;
        }
        assert(v.take(issues@.len() as int) =~= v);
        let ghost mid = r@;
        r.push("Code compiles without errors".to_owned());
        r.push("Existing tests pass".to_owned());
        assert(string_views(r@) =~= string_views(mid).push("Code compiles without errors"@).push(
            "Existing tests pass"@,
        ));
        assert(string_views(r@) =~= acceptance_of(v));
        r
    }

    /// The hints of a task: two general ones for its category, then the
    /// suggestions of its first two issues that are not empty and not yet
    /// listed.
    pub fn build_hints(category: &IssueCategory, issues: &Vec<Issue>) -> (r: Vec<String>)
        ensures
            string_views(r@) == hints_of(*category, views(issues@)),
    {
        let ghost v = views(issues@);
        let mut hints: Vec<String> = Vec::new();
        match category {
            IssueCategory::Security => {
                hints.push("Check for sensitive data exposure".to_owned());
                hints.push("Consider using environment variables for secrets".to_owned());
            },
            IssueCategory::CodeQuality => {
                hints.push("Focus on improving readability".to_owned());
                hints.push("Consider adding error handling".to_owned());
            },
            IssueCategory::Performance => {
                hints.push("Profile the code if needed".to_owned());
                hints.push("Consider caching or memoization".to_owned());
            },
            IssueCategory::Maintainability => {
                hints.push("Keep changes minimal and focused".to_owned());
                hints.push("Add comments for complex logic".to_owned());
            },
            IssueCategory::Documentation => {
                hints.push("Add doc comments for public APIs".to_owned());
                hints.push("Include examples where helpful".to_owned());
            },
            IssueCategory::Testing => {
                hints.push("Add unit tests for new code".to_owned());
                hints.push("Consider edge cases".to_owned());
            },
            IssueCategory::BestPractice => {
                hints.push("Follow the project's coding conventions".to_owned());
                hints.push("Check the project's CONTRIBUTING guide if available".to_owned());
            },
        }
        assert(string_views(hints@) =~= category_hints(*category));
        let ghost h0 = string_views(hints@);
        if issues.len() > 0 {
            let s = &issues[0].suggestion;
            if nonempty(s) && !contains_string(&hints, s) {
                let ghost before = hints@;
                hints.push(s.clone());
                assert(string_views(hints@) =~= string_views(before).push(s@));
            }
        }
        let ghost h1 = string_views(hints@);
        assert(h1 == if v.len() > 0 { add_hint(h0, v[0].suggestion) } else { h0 });
        if issues.len() > 1 {
            let s = &issues[1].suggestion;
            if nonempty(s) && !contains_string(&hints, s) {
                let ghost before = hints@;
                hints.push(s.clone());
                assert(string_views(hints@) =~= string_views(before).push(s@));
            }
        }
        hints
    }

    /// The task with number `n` for the issues `g` of file `file` in
    /// category `c`.
    fn issue_task(n: u128, file: &Vec<char>, c: IssueCategory, g: &Vec<Issue>) -> (r: ClaudeTask)
        ensures
            r@ == issue_task(n as nat, file@, c, views(g@)),
    {
        let ghost v = views(g@);
        let file_s = from_chars(file);
        let name = Self::category_name(&c);
        let mut title: Vec<char> = Vec::new();
        extend_str(&mut title, name);
        extend_str(&mut title, " improvements in ");
        let sp = Self::short_path(file_s.as_str());
        extend_str(&mut title, sp.as_str());
        let mut priority = TaskPriority::P5;
        let mut i: usize = 0;
        assert(v.take(0) =~= Seq::<IssueView>::empty());
        while i < g.len()
            invariant
                i <= g@.len(),
                v == views(g@),
                priority == top_priority(v.take(i as int)),
            decreases g.len() - i,
        {
            proof {
                assert(v.take(i + 1).drop_last() =~= v.take(i as int));
                assert(v.take(i + 1).last() == g@[i as int]@);
            }
            let q = TaskPriority::from(g[i].severity);
            if q.value() < priority.value() {
                priority = q;
            }
            i = i + 1;
        }
        assert(v.take(g@.len() as int) =~= v);
        let complexity = if g.len() == 1 {
            "Low"
        } else if 2 <= g.len() && g.len() <= 3 {
            "Medium"
        } else {
            "High"
        };
        let mut files: Vec<String> = Vec::new();
        files.push(file_s.clone());
        let r = ClaudeTask {
            id: task_id_text(n),
            title: from_chars(&title),
            priority,
            category: name.to_owned(),
            estimated_complexity: complexity.to_owned(),
            files,
            description: Self::build_description(g),
            context: Self::build_context(file_s.as_str(), c),
            acceptance_criteria: Self::build_acceptance_criteria(g),
            hints: Self::build_hints(&c, g),
        };
        assert(r@.files =~= seq![file@]);
        assert(r@.title =~= category_name_of(c) + " improvements in "@ + short_path_of(file@));
        r
    }

    /// The refactoring task with number `n` for the long function at `loc`.
    fn long_task(n: u128, loc: &String) -> (r: ClaudeTask)
        ensures
            r@ == long_task(n as nat, loc@),
    {
        let mut title: Vec<char> = Vec::new();
        extend_str(&mut title, "Refactor long function: ");
        let sp = Self::short_path(loc.as_str());
        extend_str(&mut title, sp.as_str());
        let mut description: Vec<char> = Vec::new();
        extend_str(&mut description, LONG_DESCRIPTION);
        extend_str(&mut description, loc.as_str());
        extend_str(&mut description, "`");
        let mut files: Vec<String> = Vec::new();
        files.push(before_colon_text(loc));
        let mut criteria: Vec<String> = Vec::new();
        criteria.push("Function is split into logical smaller functions".to_owned());
        criteria.push("Each new function has a single responsibility".to_owned());
        criteria.push("Existing functionality is preserved".to_owned());
        criteria.push("New functions have appropriate names".to_owned());
        let mut hints: Vec<String> = Vec::new();
        hints.push("Identify logical blocks within the function".to_owned());
        hints.push("Look for repeated code that can be extracted".to_owned());
        hints.push("Consider if helper functions would improve readability".to_owned());
        let r = ClaudeTask {
            id: task_id_text(n),
            title: from_chars(&title),
            priority: TaskPriority::P3,
            category: "Refactoring".to_owned(),
            estimated_complexity: "Medium".to_owned(),
            files,
            description: from_chars(&description),
            context: LONG_CONTEXT.to_owned(),
            acceptance_criteria: criteria,
            hints,
        };
        assert(r@ =~= long_task(n as nat, loc@));
        r
    }

    /// The refactoring task with number `n` for the deeply nested function
    /// at `loc`.
    fn nesting_task(n: u128, loc: &String) -> (r: ClaudeTask)
        ensures
            r@ == nesting_task(n as nat, loc@),
    {
        let mut title: Vec<char> = Vec::new();
        extend_str(&mut title, "Reduce nesting in: ");
        let sp = Self::short_path(loc.as_str());
        extend_str(&mut title, sp.as_str());
        let mut description: Vec<char> = Vec::new();
        extend_str(&mut description, NESTING_DESCRIPTION);
        extend_str(&mut description, loc.as_str());
        extend_str(&mut description, "`");
        let mut files: Vec<String> = Vec::new();
        files.push(before_colon_text(loc));
        let mut criteria: Vec<String> = Vec::new();
        criteria.push("Nesting depth is reduced to 4 levels or less".to_owned());
        criteria.push("Early returns are used where appropriate".to_owned());
        criteria.push("Logic is clear and easy to follow".to_owned());
        let mut hints: Vec<String> = Vec::new();
        hints.push("Use early returns to handle edge cases first".to_owned());
        hints.push("Consider guard clauses".to_owned());
        hints.push("Extract nested blocks into separate functions".to_owned());
        let r = ClaudeTask {
            id: task_id_text(n),
            title: from_chars(&title),
            priority: TaskPriority::P3,
            category: "Refactoring".to_owned(),
            estimated_complexity: "Medium".to_owned(),
            files,
            description: from_chars(&description),
            context: NESTING_CONTEXT.to_owned(),
            acceptance_criteria: criteria,
            hints,
        };
        assert(r@ =~= nesting_task(n as nat, loc@));
        r
    }

    /// All tasks of an analysis, before filtering and sorting: one per
    /// (file, category) pair of its issues, then one per long function,
    /// then one per deeply nested function, numbered from 1.
    pub fn create_tasks(&self, analysis: &CodebaseAnalysis) -> (r: Vec<ClaudeTask>)
        ensures
            task_views(r@) == all_tasks(*analysis, self.max_tasks() as nat),
    {
        let ghost v = views(analysis.issues@);
        let ghost max = self.max_tasks_per_file as nat;
        let mut tasks: Vec<ClaudeTask> = Vec::new();
        if self.max_tasks_per_file > 0 {
            let files = files_in_order(&analysis.issues);
            let ghost fs = line_views(files@);
            let mut fi: usize = 0;
            assert(fs.take(0) =~= Seq::<Seq<char>>::empty());
            assert(task_views(tasks@) =~= pair_tasks(v, pairs_of(v, fs.take(0)), max, 1));
            while fi < files.len()
                invariant
                    fi <= files@.len(),
                    v == views(analysis.issues@),
                    fs == line_views(files@),
                    fs == file_order(v),
                    max == self.max_tasks_per_file,
                    max > 0,
                    task_views(tasks@) == pair_tasks(v, pairs_of(v, fs.take(fi as int)), max, 1),
                    tasks@.len() == pairs_of(v, fs.take(fi as int)).len(),
                decreases files.len() - fi,
            {
                let f = &files[fi];
                let cats = categories_in_order(&analysis.issues, f);
                let ghost ps0 = pairs_of(v, fs.take(fi as int));
                let ghost pair = |c: IssueCategory| (fs[fi as int], c);
                let mut ci: usize = 0;
                assert(ps0 + cats@.take(0).map_values(pair) =~= ps0);
                while ci < cats.len()
                    invariant
                        fi < files@.len(),
                        ci <= cats@.len(),
                        v == views(analysis.issues@),
                        fs == line_views(files@),
                        max == self.max_tasks_per_file,
                        max > 0,
                        f@ == fs[fi as int],
                        cats@ == category_order(v, f@),
                        pair == (|c: IssueCategory| (fs[fi as int], c)),
                        task_views(tasks@) == pair_tasks(
                            v,
                            ps0 + cats@.take(ci as int).map_values(pair),
                            max,
                            1,
                        ),
                        tasks@.len() == ps0.len() + ci,
                    decreases cats.len() - ci,
                {
                    let c = cats[ci];
                    let g = issues_of(&analysis.issues, f, c, self.max_tasks_per_file);
                    let n = tasks.len() as u128 + 1;
                    let t = Self::issue_task(n, f, c, &g);
                    let ghost before = tasks@;
                    let ghost ps = ps0 + cats@.take(ci as int).map_values(pair);
                    let ghost ps2 = ps0 + cats@.take(ci + 1).map_values(pair);
                    tasks.push(t);
                    proof {
                        assert(ps2 =~= ps.push((f@, c)));
                        assert(task_views(tasks@) =~= task_views(before).push(t@));
                        assert(task_views(tasks@) =~= pair_tasks(v, ps2, max, 1));
                    }
                    ci = ci + 1;
                }
                proof {
                    assert(cats@.take(cats@.len() as int) =~= cats@);
                    assert(fs.take(fi + 1).drop_last() =~= fs.take(fi as int));
                    assert(fs.take(fi + 1).last() == fs[fi as int]);
                    assert(category_order(v, fs[fi as int]).map_values(
                        |c: IssueCategory| (fs.take(fi + 1).last(), c),
                    ) =~= cats@.map_values(pair));
                }
                fi = fi + 1;
            }
            assert(fs.take(files@.len() as int) =~= fs);
        }
        let ghost it = task_views(tasks@);
        assert(it == issue_tasks(v, max));
        let ghost longs = string_views(analysis.complexity.long_functions@);
        let mut k: usize = 0;
        while k < analysis.complexity.long_functions.len()
            invariant
                k <= longs.len(),
                longs == string_views(analysis.complexity.long_functions@),
                task_views(tasks@) == it + Seq::new(
                    k as nat,
                    |j: int| long_task((it.len() + j + 1) as nat, longs[j]),
                ),
            decreases longs.len() - k,
        {
            let n = tasks.len() as u128 + 1;
            let t = Self::long_task(n, &analysis.complexity.long_functions[k]);
            let ghost before = tasks@;
            tasks.push(t);
            assert(task_views(tasks@) =~= task_views(before).push(t@));
            k = k + 1;
            assert(task_views(tasks@) =~= it + Seq::new(
                k as nat,
                |j: int| long_task((it.len() + j + 1) as nat, longs[j]),
            ));
        }
        let ghost il = task_views(tasks@);
        let ghost nested = string_views(analysis.complexity.deeply_nested@);
        let mut k: usize = 0;
        while k < analysis.complexity.deeply_nested.len()
            invariant
                k <= nested.len(),
                nested == string_views(analysis.complexity.deeply_nested@),
                il.len() == it.len() + longs.len(),
                task_views(tasks@) == il + Seq::new(
                    k as nat,
                    |j: int| nesting_task((it.len() + longs.len() + j + 1) as nat, nested[j]),
                ),
            decreases nested.len() - k,
        {
            let n = tasks.len() as u128 + 1;
            let t = Self::nesting_task(n, &analysis.complexity.deeply_nested[k]);
            let ghost before = tasks@;
            tasks.push(t);
            assert(task_views(tasks@) =~= task_views(before).push(t@));
            k = k + 1;
            assert(task_views(tasks@) =~= il + Seq::new(
                k as nat,
                |j: int| nesting_task((it.len() + longs.len() + j + 1) as nat, nested[j]),
            ));
        }
        assert(task_views(tasks@) =~= all_tasks(*analysis, max));
        tasks
    }
}

/// Appends copies of the tasks of `tasks` with priority `p`, in order.
fn push_with_priority(out: &mut Vec<ClaudeTask>, tasks: &Vec<ClaudeTask>, p: TaskPriority)
    ensures
        task_views(final(out)@) == task_views(old(out)@) + with_priority(task_views(tasks@), p),
{
    let ghost v = task_views(tasks@);
    let ghost start = task_views(out@);
    let mut i: usize = 0;
    assert(v.take(0) =~= Seq::<TaskView>::empty());
    assert(task_views(out@) =~= start + with_priority(v.take(0), p));
    while i < tasks.len()
        invariant
            i <= tasks@.len(),
            v == task_views(tasks@),
            task_views(out@) == start + with_priority(v.take(i as int), p),
        decreases tasks.len() - i,
    {
        proof {
            assert(v.take(i + 1).drop_last() =~= v.take(i as int));
            assert(v.take(i + 1).last() == tasks@[i as int]@);
        }
        let ghost before = out@;
        if tasks[i].priority == p {
            out.push(tasks[i].clone());
            assert(task_views(out@) =~= task_views(before).push(tasks@[i as int]@));
        }
        i = i + 1;
        assert(task_views(out@) =~= start + with_priority(v.take(i as int), p));
    }
    assert(v.take(tasks@.len() as int) =~= v);
}

/// The number of tasks of `tasks` with priority `p`.
fn count_priority(tasks: &Vec<ClaudeTask>, p: TaskPriority) -> (n: usize)
    ensures
        n == with_priority(task_views(tasks@), p).len(),
{
    let ghost v = task_views(tasks@);
    let mut n: usize = 0;
    let mut i: usize = 0;
    assert(v.take(0) =~= Seq::<TaskView>::empty());
    while i < tasks.len()
        invariant
            i <= tasks@.len(),
            v == task_views(tasks@),
            n == with_priority(v.take(i as int), p).len(),
            n <= i,
        decreases tasks.len() - i,
    {
        proof {
            assert(v.take(i + 1).drop_last() =~= v.take(i as int));
            assert(v.take(i + 1).last() == tasks@[i as int]@);
        }
        if tasks[i].priority == p {
            n = n + 1;
        }
        i = i + 1;
    }
    assert(v.take(tasks@.len() as int) =~= v);
    n
}

/// Appends `prefix`, each string of `v` and `suffix`, one line per string.
fn push_bullets(out: &mut Vec<char>, prefix: &str, v: &Vec<String>, suffix: &str)
    ensures
        final(out)@ == old(out)@ + bullet_lines(prefix@, string_views(v@), suffix@),
{
    let ghost start = out@;
    let ghost w = string_views(v@);
    let mut i: usize = 0;
    assert(w.take(0) =~= Seq::<Seq<char>>::empty());
    assert(out@ =~= start + bullet_lines(prefix@, w.take(0), suffix@));
    while i < v.len()
        invariant
            i <= v@.len(),
            w == string_views(v@),
            out@ == start + bullet_lines(prefix@, w.take(i as int), suffix@),
        decreases v.len() - i,
    {
        proof {
            assert(w.take(i + 1).drop_last() =~= w.take(i as int));
            assert(w.take(i + 1).last() == v@[i as int]@);
        }
        extend_str(out, prefix);
        extend_str(out, v[i].as_str());
        extend_str(out, suffix);
        i = i + 1;
        assert(out@ =~= start + bullet_lines(prefix@, w.take(i as int), suffix@));
    }
    assert(w.take(v@.len() as int) =~= w);
}

/// Appends the short paths of `files`, joined by `", "`.
fn push_short_paths(out: &mut Vec<char>, files: &Vec<String>)
    ensures
        final(out)@ == old(out)@ + joined_short_paths(string_views(files@)),
{
    let ghost start = out@;
    let ghost w = string_views(files@);
    let mut i: usize = 0;
    assert(w.take(0) =~= Seq::<Seq<char>>::empty());
    assert(out@ =~= start + joined_short_paths(w.take(0)));
    while i < files.len()
        invariant
            i <= files@.len(),
            w == string_views(files@),
            out@ == start + joined_short_paths(w.take(i as int)),
        decreases files.len() - i,
    {
        proof {
            assert(w.take(i + 1).drop_last() =~= w.take(i as int));
            assert(w.take(i + 1).last() == files@[i as int]@);
        }
        if i > 0 {
            extend_str(out, ", ");
        }
        let sp = ClaudeTaskGenerator::short_path(files[i].as_str());
        extend_str(out, sp.as_str());
        i = i + 1;
        assert(out@ =~= start + joined_short_paths(w.take(i as int)));
    }
    assert(w.take(files@.len() as int) =~= w);
}

/// Appends `P` and the number of a priority.
fn push_priority(out: &mut Vec<char>, p: TaskPriority)
    ensures
        final(out)@ == old(out)@ + decimal(p.number() as nat),
{
    push_decimal(out, p.value() as u128);
}

/// Whether task `other` names a file that task `lead` names too.
fn conflicts(other: &ClaudeTask, lead: &ClaudeTask) -> (b: bool)
    ensures
        b == shares_file(other@, lead@),
{
    let mut k: usize = 0;
    while k < other.files.len()
        invariant
            k <= other.files@.len(),
            forall|j: int| 0 <= j < k ==> !lead@.files.contains(#[trigger] other@.files[j]),
        decreases other.files.len() - k,
    {
        if contains_string(&lead.files, &other.files[k]) {
            assert(other@.files[k as int] == other.files@[k as int]@);
            return true;
        }
        k = k + 1;
    }
    false
}

/// Appends the line of a task in a batch group.
fn push_batch_line(out: &mut Vec<char>, t: &ClaudeTask)
    ensures
        final(out)@ == old(out)@ + batch_line(t@),
{
    let ghost start = out@;
    extend_str(out, "- [ ] [");
    extend_str(out, t.id.as_str());
    extend_str(out, "](./");
    extend_str(out, t.id.as_str());
    extend_str(out, ".md) - ");
    extend_str(out, t.title.as_str());
    extend_str(out, "\n");
    assert(out@ =~= start + batch_line(t@));
}

impl ClaudeTaskGenerator {
    /// The tasks that are written out for an analysis: those of
    /// [`create_tasks`](Self::create_tasks) whose priority number is at most
    /// the threshold, sorted by priority (stably).
    pub fn plan(&self, analysis: &CodebaseAnalysis) -> (r: Vec<ClaudeTask>)
        ensures
            task_views(r@) == prioritized(
                all_tasks(*analysis, self.max_tasks() as nat),
                self.threshold(),
            ),
    {
        let tasks = self.create_tasks(analysis);
        let ghost t = task_views(tasks@);
        let mut out: Vec<ClaudeTask> = Vec::new();
        assert(task_views(out@) =~= Seq::<TaskView>::empty());
        if TaskPriority::P1.value() <= self.priority_threshold {
            push_with_priority(&mut out, &tasks, TaskPriority::P1);
        }
        assert(task_views(out@) =~= kept(t, TaskPriority::P1, self.priority_threshold));
        let ghost o1 = task_views(out@);
        if TaskPriority::P2.value() <= self.priority_threshold {
            push_with_priority(&mut out, &tasks, TaskPriority::P2);
        }
        assert(task_views(out@) =~= o1 + kept(t, TaskPriority::P2, self.priority_threshold));
        let ghost o2 = task_views(out@);
        if TaskPriority::P3.value() <= self.priority_threshold {
            push_with_priority(&mut out, &tasks, TaskPriority::P3);
        }
        assert(task_views(out@) =~= o2 + kept(t, TaskPriority::P3, self.priority_threshold));
        let ghost o3 = task_views(out@);
        if TaskPriority::P4.value() <= self.priority_threshold {
            push_with_priority(&mut out, &tasks, TaskPriority::P4);
        }
        assert(task_views(out@) =~= o3 + kept(t, TaskPriority::P4, self.priority_threshold));
        let ghost o4 = task_views(out@);
        if TaskPriority::P5.value() <= self.priority_threshold {
            push_with_priority(&mut out, &tasks, TaskPriority::P5);
        }
        assert(task_views(out@) =~= o4 + kept(t, TaskPriority::P5, self.priority_threshold));
        out
    }

    /// The index file (`index.md`) of the tasks: counts per priority and a
    /// row per task.
    pub fn index_content(tasks: &Vec<ClaudeTask>, agent: &str) -> (r: String)
        ensures
            r@ == index_text(task_views(tasks@), agent@),
    {
        let ghost t = task_views(tasks@);
        let mut out: Vec<char> = Vec::new();
        extend_str(&mut out, "# ");
        extend_str(&mut out, agent);
        extend_str(&mut out, INDEX_INTRO);
        extend_str(&mut out, agent);
        extend_str(&mut out, INDEX_USAGE);
        extend_str(&mut out, "| P1 (Critical) | ");
        push_decimal(&mut out, count_priority(tasks, TaskPriority::P1) as u128);
        extend_str(&mut out, " |\n");
        extend_str(&mut out, "| P2 (High) | ");
        push_decimal(&mut out, count_priority(tasks, TaskPriority::P2) as u128);
        extend_str(&mut out, " |\n");
        extend_str(&mut out, "| P3 (Medium) | ");
        push_decimal(&mut out, count_priority(tasks, TaskPriority::P3) as u128);
        extend_str(&mut out, " |\n");
        extend_str(&mut out, "| P4 (Low) | ");
        push_decimal(&mut out, count_priority(tasks, TaskPriority::P4) as u128);
        extend_str(&mut out, " |\n");
        extend_str(&mut out, "| P5 (Info) | ");
        push_decimal(&mut out, count_priority(tasks, TaskPriority::P5) as u128);
        extend_str(&mut out, " |\n");
        extend_str(&mut out, "| **Total** | **");
        push_decimal(&mut out, tasks.len() as u128);
        extend_str(&mut out, "** |\n\n");
        extend_str(&mut out, "## Task List\n\n");
        extend_str(&mut out, "| ID | Priority | Category | Title | Files |\n");
        extend_str(&mut out, "|----|----------|----------|-------|-------|\n");
        let ghost head = out@;
        let mut i: usize = 0;
        assert(t.take(0) =~= Seq::<TaskView>::empty());
        assert(out@ =~= head + index_rows(t.take(0)));
        while i < tasks.len()
            invariant
                i <= tasks@.len(),
                t == task_views(tasks@),
                out@ == head + index_rows(t.take(i as int)),
            decreases tasks.len() - i,
        {
            proof {
                assert(t.take(i + 1).drop_last() =~= t.take(i as int));
                assert(t.take(i + 1).last() == tasks@[i as int]@);
            }
            let ghost before = out@;
            let task = &tasks[i];
            extend_str(&mut out, "| [");
            extend_str(&mut out, task.id.as_str());
            extend_str(&mut out, "](./");
            extend_str(&mut out, task.id.as_str());
            extend_str(&mut out, ".md) | ");
            extend_str(&mut out, "P");
            push_priority(&mut out, task.priority);
            extend_str(&mut out, " | ");
            extend_str(&mut out, task.category.as_str());
            extend_str(&mut out, " | ");
            extend_str(&mut out, task.title.as_str());
            extend_str(&mut out, " | ");
            push_short_paths(&mut out, &task.files);
            extend_str(&mut out, " |\n");
            assert(out@ =~= before + index_row(task@));
            i = i + 1;
            assert(out@ =~= head + index_rows(t.take(i as int)));
        }
        assert(t.take(tasks@.len() as int) =~= t);
        assert(out@ =~= index_text(t, agent@));
        from_chars(&out)
    }

    /// The file of one task (`<id>.md`).
    pub fn task_file_content(task: &ClaudeTask, agent: &str) -> (r: String)
        ensures
            r@ == task_text(task@, agent@),
    {
        let mut out: Vec<char> = Vec::new();
        extend_str(&mut out, "# Task: ");
        extend_str(&mut out, task.id.as_str());
        extend_str(&mut out, "\n\n");
        extend_str(&mut out, "**Title:** ");
        extend_str(&mut out, task.title.as_str());
        extend_str(&mut out, "\n\n");
        extend_str(&mut out, "**Priority:** P");
        push_priority(&mut out, task.priority);
        extend_str(&mut out, " (");
        extend_str(&mut out, Self::priority_name(task.priority));
        extend_str(&mut out, ")\n\n");
        extend_str(&mut out, "**Category:** ");
        extend_str(&mut out, task.category.as_str());
        extend_str(&mut out, "\n\n");
        extend_str(&mut out, "**Estimated Complexity:** ");
        extend_str(&mut out, task.estimated_complexity.as_str());
        extend_str(&mut out, "\n\n");
        extend_str(&mut out, "## Files to Modify\n\n");
        push_bullets(&mut out, "- `", &task.files, "`\n");
        extend_str(&mut out, "\n");
        extend_str(&mut out, "## Description\n\n");
        extend_str(&mut out, task.description.as_str());
        extend_str(&mut out, "\n\n");
        extend_str(&mut out, "## Context\n\n");
        extend_str(&mut out, task.context.as_str());
        extend_str(&mut out, "\n\n");
        extend_str(&mut out, "## Acceptance Criteria\n\n");
        push_bullets(&mut out, "- [ ] ", &task.acceptance_criteria, "\n");
        extend_str(&mut out, "\n");
        extend_str(&mut out, "## Hints\n\n");
        push_bullets(&mut out, "- ", &task.hints, "\n");
        extend_str(&mut out, "\n");
        extend_str(&mut out, "---\n\n## ");
        extend_str(&mut out, agent);
        extend_str(&mut out, TASK_STEPS);
        extend_str(&mut out, "git commit -m \"fix(");
        extend_str(&mut out, task.id.as_str());
        extend_str(&mut out, "): ");
        extend_str(&mut out, task.title.as_str());
        extend_str(&mut out, "\"\n");
        extend_str(&mut out, "```\n");
        assert(out@ =~= task_text(task@, agent@));
        from_chars(&out)
    }
}

/// Whether task `t` shares a file with some task of `g`.
fn conflicts_any(t: &ClaudeTask, g: &Vec<ClaudeTask>) -> (b: bool)
    ensures
        b == conflicts_with(t@, task_views(g@)),
{
    let ghost gv = task_views(g@);
    let mut m: usize = 0;
    while m < g.len()
        invariant
            m <= g@.len(),
            gv == task_views(g@),
            forall|k: int| 0 <= k < m ==> !shares_file(t@, #[trigger] gv[k]),
        decreases g.len() - m,
    {
        assert(gv[m as int] == g@[m as int]@);
        if conflicts(t, &g[m]) {
            assert(shares_file(t@, gv[m as int]));
            return true;
        }
        m = m + 1;
    }
    false
}

/// Grows `group` over the tasks of `l`: each task not yet taken that shares
/// no file with any member joins, and its id is taken.
fn grow(l: &Vec<ClaudeTask>, group: &mut Vec<ClaudeTask>, assigned: &mut Vec<String>)
    ensures
        (task_views(final(group)@), string_views(final(assigned)@)) == grow_group(
            task_views(l@),
            task_views(old(group)@),
            0,
            string_views(old(assigned)@),
        ),
{
    let ghost tl = task_views(l@);
    let ghost target = grow_group(tl, task_views(group@), 0, string_views(assigned@));
    let mut j: usize = 0;
    while j < l.len()
        invariant
            j <= l@.len(),
            tl == task_views(l@),
            grow_group(tl, task_views(group@), j as int, string_views(assigned@)) == target,
        decreases l.len() - j,
    {
        let ghost g = task_views(group@);
        let ghost a = string_views(assigned@);
        assert(tl[j as int] == l@[j as int]@);
        if contains_string(assigned, &l[j].id) || conflicts_any(&l[j], group) {
        } else {
            group.push(l[j].clone());
            assigned.push(l[j].id.clone());
            assert(task_views(group@) =~= g.push(tl[j as int]));
            assert(string_views(assigned@) =~= a.push(tl[j as int].id));
        }
        j = j + 1;
    }
}

/// The views of a sequence of groups of tasks.
pub open spec fn groups_views(v: Seq<Vec<ClaudeTask>>) -> Seq<Seq<TaskView>> {
    v.map_values(|g: Vec<ClaudeTask>| task_views(g@))
}

/// Appends the lines of the tasks of a group.
fn push_group_lines(out: &mut Vec<char>, g: &Vec<ClaudeTask>)
    ensures
        final(out)@ == old(out)@ + group_lines(task_views(g@)),
{
    let ghost gv = task_views(g@);
    let ghost start = out@;
    let mut k: usize = 0;
    assert(gv.take(0) =~= Seq::<TaskView>::empty());
    while k < g.len()
        invariant
            k <= g@.len(),
            gv == task_views(g@),
            out@ == start + group_lines(gv.take(k as int)),
        decreases g.len() - k,
    {
        push_batch_line(out, &g[k]);
        assert(gv.take(k + 1).drop_last() =~= gv.take(k as int));
        assert(gv.take(k + 1).last() == g@[k as int]@);
        k = k + 1;
    }
    assert(gv.take(g@.len() as int) =~= gv);
}

/// Appends the text of the groups `gs`, numbered from 1.
fn push_groups(out: &mut Vec<char>, gs: &Vec<Vec<ClaudeTask>>)
    ensures
        final(out)@ == old(out)@ + groups_text(groups_views(gs@), 1),
{
    let ghost gv = groups_views(gs@);
    let ghost start = out@;
    let mut k: usize = 0;
    assert(gv.skip(0) =~= gv);
    while k < gs.len()
        invariant
            k <= gs@.len(),
            gv == groups_views(gs@),
            out@ + groups_text(gv.skip(k as int), (k + 1) as nat) == start + groups_text(gv, 1),
        decreases gs.len() - k,
    {
        let ghost before = out@;
        let ghost rest = gv.skip(k as int);
        assert(rest.drop_first() =~= gv.skip(k + 1));
        assert(rest[0] == task_views(gs@[k as int]@));
        extend_str(out, "**Group ");
        push_decimal(out, (k + 1) as u128);
        extend_str(out, ":**\n");
        push_group_lines(out, &gs[k]);
        extend_str(out, "\n");
        assert(out@ + groups_text(gv.skip(k + 1), (k + 2) as nat) =~= before + groups_text(
            rest,
            (k + 1) as nat,
        ));
        k = k + 1;
    }
    assert(gv.skip(gs@.len() as int) =~= Seq::<Seq<TaskView>>::empty());
}

impl ClaudeTaskGenerator {
    /// The parallel groups of tasks of one priority: each task not yet in a
    /// group starts one, and every task not yet in a group that shares no
    /// file with any of its members joins it. No two tasks of a group name
    /// the same file, every task is in a group (by id), and no id is listed
    /// twice.
    pub fn batch_groups(l: &Vec<ClaudeTask>) -> (r: Vec<Vec<ClaudeTask>>)
        ensures
            groups_views(r@) == batch_groups_of(task_views(l@)),
            forall|k: int| 0 <= k < r@.len() ==> independent(task_views(#[trigger] r@[k]@)),
            flat_ids(groups_views(r@)).no_duplicates(),
            forall|k: int|
                0 <= k < l@.len() ==> flat_ids(groups_views(r@)).contains(#[trigger] l@[k]@.id),
    {
        let ghost tl = task_views(l@);
        let ghost target = batch_groups_of(tl);
        let mut r: Vec<Vec<ClaudeTask>> = Vec::new();
        let mut assigned: Vec<String> = Vec::new();
        let mut i: usize = 0;
        assert(string_views(assigned@) =~= Seq::<Seq<char>>::empty());
        assert(groups_views(r@) + target =~= target);
        while i < l.len()
            invariant
                i <= l@.len(),
                tl == task_views(l@),
                target == batch_groups_of(tl),
                groups_views(r@) + groups_of(tl, i as int, string_views(assigned@)) == target,
            decreases l.len() - i,
        {
            let ghost a = string_views(assigned@);
            let ghost before = groups_views(r@);
            assert(tl[i as int] == l@[i as int]@);
            if !contains_string(&assigned, &l[i].id) {
                let mut group: Vec<ClaudeTask> = Vec::new();
                group.push(l[i].clone());
                assigned.push(l[i].id.clone());
                assert(task_views(group@) =~= seq![tl[i as int]]);
                assert(string_views(assigned@) =~= a.push(tl[i as int].id));
                grow(l, &mut group, &mut assigned);
                r.push(group);
                assert(groups_views(r@) =~= before.push(task_views(group@)));
                assert(groups_views(r@) + groups_of(tl, i + 1, string_views(assigned@)) =~= before
                    + groups_of(tl, i as int, a));
            }
            i = i + 1;
        }
        assert(groups_of(tl, l@.len() as int, string_views(assigned@)) =~= Seq::<
            Seq<TaskView>,
        >::empty());
        assert(groups_views(r@) =~= target);
        proof {
            lemma_batch_groups_cover(tl);
            assert forall|k: int| 0 <= k < l@.len() implies flat_ids(groups_views(r@)).contains(
                #[trigger] l@[k]@.id,
            ) by {
                assert(tl[k] == l@[k]@);
            }
            lemma_batch_groups_independent(tl);
            assert forall|k: int| 0 <= k < r@.len() implies independent(
                task_views(#[trigger] r@[k]@),
            ) by {
                assert(groups_views(r@)[k] == task_views(r@[k]@));
            }
        }
        r
    }
}

impl ClaudeTaskGenerator {
    /// The batch file (`batch.md`) of the tasks: for each priority that has
    /// tasks, groups of tasks that can be worked on in parallel.
    pub fn batch_content(tasks: &Vec<ClaudeTask>, agent: &str) -> (r: String)
        ensures
            r@ == batch_text(task_views(tasks@), agent@),
    {
        let ghost t = task_views(tasks@);
        let mut out: Vec<char> = Vec::new();
        extend_str(&mut out, BATCH_INTRO);
        extend_str(&mut out, agent);
        extend_str(&mut out, BATCH_STRATEGY);
        let ps = [
            TaskPriority::P1,
            TaskPriority::P2,
            TaskPriority::P3,
            TaskPriority::P4,
            TaskPriority::P5,
        ];
        let ghost head = out@;
        let mut k: usize = 0;
        assert(out@ =~= head + batch_sections(t, ps@.take(0), agent@));
        while k < 5
            invariant
                k <= 5,
                ps@ == seq![
                    TaskPriority::P1,
                    TaskPriority::P2,
                    TaskPriority::P3,
                    TaskPriority::P4,
                    TaskPriority::P5,
                ],
                t == task_views(tasks@),
                out@ == head + batch_sections(t, ps@.take(k as int), agent@),
            decreases 5 - k,
        {
            let p = ps[k];
            let ghost before = out@;
            let mut l: Vec<ClaudeTask> = Vec::new();
            assert(task_views(l@) =~= Seq::<TaskView>::empty());
            push_with_priority(&mut l, tasks, p);
            assert(task_views(l@) =~= with_priority(t, p));
            if l.len() > 0 {
                extend_str(&mut out, "## Priority ");
                push_priority(&mut out, p);
                extend_str(&mut out, " Tasks\n\n");
                extend_str(&mut out, GROUPS_INTRO);
                extend_str(&mut out, agent);
                extend_str(&mut out, GROUPS_NOTE);
                let groups = Self::batch_groups(&l);
                push_groups(&mut out, &groups);
            }
            assert(out@ =~= before + batch_section(t, p, agent@));
            assert(ps@.take(k + 1).drop_last() =~= ps@.take(k as int));
            k = k + 1;
        }
        let ghost before_tail = out@;
        let low = to_lowercase(agent);
        extend_str(&mut out, "---\n\n## Usage Example\n\n```bash\n# Assign to ");
        extend_str(&mut out, agent);
        extend_str(&mut out, " Code (Terminal 1)\n");
        extend_str(&mut out, low.as_str());
        extend_str(&mut out, "-code \"Complete task task-0001 following the instructions in .");
        extend_str(&mut out, low.as_str());
        extend_str(&mut out, "/tasks/task-0001.md\"\n\n# Assign to ");
        extend_str(&mut out, agent);
        extend_str(&mut out, " Code (Terminal 2) - runs in parallel\n");
        extend_str(&mut out, low.as_str());
        extend_str(&mut out, "-code \"Complete task task-0002 following the instructions in .");
        extend_str(&mut out, low.as_str());
        extend_str(&mut out, "/tasks/task-0002.md\"\n```\n");
        assert(out@ =~= before_tail + batch_tail(agent@));
        assert(ps@.take(5) =~= ps@);
        assert(out@ =~= batch_text(t, agent@));
        from_chars(&out)
    }
}

} // verus!
