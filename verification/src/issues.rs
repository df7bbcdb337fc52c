//! Issue detection: line-based checks common to all languages and checks
//! specific to Rust, JavaScript/TypeScript, Python and Go.

use vstd::prelude::*;
use crate::regex_support::{
    captures_each, find_count_each, groups_view, is_match_each, regex_captures, regex_compiles,
    regex_find_count, regex_is_match,
};
use crate::text::{
    byte_len, chars_eq, contains, contains_str, decimal, ends_with_str, extend_chars, extend_str,
    from_chars, has_prefix, has_sub, has_suffix, lines, push_decimal, split_lines, starts_with_str,
    to_chars, to_uppercase, trim, trimmed, uppercase, utf8_len,
};

verus! {

/// Severity level for issues.
#[derive(Debug, Clone, Copy, PartialEq, Eq, Structural)]
pub enum Severity {
    Critical,
    High,
    Medium,
    Low,
    Info,
}

impl Severity {
    /// The priority of a severity: 5 for critical down to 1 for info.
    pub open spec fn priority_of(self) -> u8 {
        match self {
            Severity::Critical => 5,
            Severity::High => 4,
            Severity::Medium => 3,
            Severity::Low => 2,
            Severity::Info => 1,
        }
    }

    pub fn priority(&self) -> (p: u8)
        ensures
            p == self.priority_of(),
    {
        match self {
            Severity::Critical => 5,
            Severity::High => 4,
            Severity::Medium => 3,
            Severity::Low => 2,
            Severity::Info => 1,
        }
    }
}

/// Priorities range over 1 to 5, and distinct severities have distinct
/// priorities, so a priority identifies its severity.
pub proof fn lemma_priority_identifies_severity(a: Severity, b: Severity)
    ensures
        1 <= a.priority_of() <= 5,
        a.priority_of() == b.priority_of() <==> a == b,
{
}

/// Category of issue.
#[derive(Debug, Clone, Copy, PartialEq, Eq, Hash, Structural)]
pub enum IssueCategory {
    CodeQuality,
    Security,
    Performance,
    Maintainability,
    Documentation,
    Testing,
    BestPractice,
}

/// A detected issue in the codebase.
#[derive(Debug)]
pub struct Issue {
    pub file: String,
    pub line: Option<usize>,
    pub severity: Severity,
    pub category: IssueCategory,
    pub title: String,
    pub description: String,
    pub suggestion: String,
}

/// The mathematical content of an [`Issue`].
pub struct IssueView {
    pub file: Seq<char>,
    pub line: Option<usize>,
    pub severity: Severity,
    pub category: IssueCategory,
    pub title: Seq<char>,
    pub description: Seq<char>,
    pub suggestion: Seq<char>,
}

impl View for Issue {
    type V = IssueView;

    open spec fn view(&self) -> IssueView {
        IssueView {
            file: self.file@,
            line: self.line,
            severity: self.severity,
            category: self.category,
            title: self.title@,
            description: self.description@,
            suggestion: self.suggestion@,
        }
    }
}

impl Clone for Issue {
    fn clone(&self) -> (r: Self)
        ensures
            r@ == self@,
    {
        Issue {
            file: self.file.clone(),
            line: self.line,
            severity: self.severity,
            category: self.category,
            title: self.title.clone(),
            description: self.description.clone(),
            suggestion: self.suggestion.clone(),
        }
    }
}

/// The views of a sequence of issues.
pub open spec fn views(v: Seq<Issue>) -> Seq<IssueView> {
    v.map_values(|i: Issue| i@)
}

/// The views of a sequence of character vectors.
pub open spec fn line_views(v: Seq<Vec<char>>) -> Seq<Seq<char>> {
    v.map_values(|l: Vec<char>| l@)
}

// ---------------------------------------------------------------------------
// Patterns and fixed texts
// ---------------------------------------------------------------------------

pub const TODO_PATTERN: &'static str = r"(?://|#|/\*|--)\s*(?i)(TODO|FIXME|HACK|XXX|BUG)\b[:\s]*(.*)";

pub const PASSWORD_PATTERN: &'static str = r#"(?i)(password|passwd|pwd)\s*[=:]\s*["'][^"']+["']"#;

pub const API_KEY_PATTERN: &'static str = r#"(?i)(api_?key|apikey)\s*[=:]\s*["'][^"']+["']"#;

pub const SECRET_PATTERN: &'static str = r#"(?i)(secret|token)\s*[=:]\s*["'][^"']+["']"#;

pub const UNWRAP_PATTERN: &'static str = r"\.unwrap\(\)";

pub const EXPECT_PATTERN: &'static str = r#"\.expect\(\s*["'](?:[^"']*panic|failed|error)[^"']*["']\s*\)"#;

pub const DEAD_CODE_PATTERN: &'static str = r"#\[allow\(dead_code\)\]";

pub const CONSOLE_PATTERN: &'static str = r"console\.(log|warn|error|debug)";

pub const ANY_TYPE_PATTERN: &'static str = r":\s*any\b";

pub const CALLBACK_PATTERN: &'static str = r"\)\s*=>\s*\{";

pub const BARE_EXCEPT_PATTERN: &'static str = r"except\s*:";

pub const PRINT_PATTERN: &'static str = r"\bprint\s*\(";

pub const IGNORED_ERROR_PATTERN: &'static str = r"_\s*,?\s*=.*\berr\b";

pub const FMT_PRINT_PATTERN: &'static str = r"fmt\.Print";

pub const TODO_SUGGESTION: &'static str = "Address this issue or remove the comment if resolved";

pub const CREDENTIAL_DESCRIPTION: &'static str = "Credentials should not be hardcoded in source code";

pub const CREDENTIAL_SUGGESTION: &'static str = "Use environment variables or a secure secrets manager";

// ---------------------------------------------------------------------------
// Specification of the detected issues
// ---------------------------------------------------------------------------

/// An issue reported at line index `k` (line number `k + 1`).
pub open spec fn line_issue(
    path: Seq<char>,
    k: int,
    severity: Severity,
    category: IssueCategory,
    title: Seq<char>,
    description: Seq<char>,
    suggestion: Seq<char>,
) -> IssueView {
    IssueView {
        file: path,
        line: Some((k + 1) as usize),
        severity,
        category,
        title,
        description,
        suggestion,
    }
}

/// The issues produced by visiting line indices `0..n` in order, line `k`
/// producing `f(k)` when that is `Some`.
pub open spec fn emit(n: int, f: spec_fn(int) -> Option<IssueView>) -> Seq<IssueView>
    decreases n,
{
    if n <= 0 {
        Seq::empty()
    } else {
        emit(n - 1, f) + match f(n - 1) {
            Some(x) => seq![x],
            None => Seq::empty(),
        }
    }
}

/// One issue with fixed texts for each line whose flag is set.
pub open spec fn flagged(
    path: Seq<char>,
    flags: Seq<bool>,
    severity: Severity,
    category: IssueCategory,
    title: Seq<char>,
    description: Seq<char>,
    suggestion: Seq<char>,
) -> Seq<IssueView> {
    emit(
        flags.len() as int,
        |k: int|
            if flags[k] {
                Some(line_issue(path, k, severity, category, title, description, suggestion))
            } else {
                None
            },
    )
}

/// For each line, whether `pattern` compiles and matches it.
pub open spec fn match_flags(pattern: Seq<char>, ls: Seq<Seq<char>>) -> Seq<bool> {
    Seq::new(ls.len(), |k: int| regex_compiles(pattern) && regex_is_match(pattern, ls[k]))
}

/// The issue for a TODO-style comment with capture groups `g` at line `k`.
pub open spec fn todo_issue(path: Seq<char>, k: int, g: Seq<Option<Seq<char>>>) -> IssueView {
    let tag = if g.len() > 1 && g[1] is Some {
        g[1]->0
    } else {
        "TODO"@
    };
    let description = if g.len() > 2 && g[2] is Some {
        trim(g[2]->0)
    } else {
        Seq::empty()
    };
    let up = uppercase(tag);
    let severity = if up == "BUG"@ || up == "FIXME"@ {
        Severity::High
    } else if up == "HACK"@ || up == "XXX"@ {
        Severity::Medium
    } else {
        Severity::Low
    };
    line_issue(
        path,
        k,
        severity,
        IssueCategory::Maintainability,
        tag + " comment found"@,
        description,
        TODO_SUGGESTION@,
    )
}

/// The severity of a TODO-style comment follows its tag, in any case:
/// BUG and FIXME are High, HACK and XXX are Medium, any other tag (TODO
/// when none is captured) is Low; the issue is a maintainability issue at
/// the comment's line.
pub proof fn lemma_todo_severity(path: Seq<char>, k: int, g: Seq<Option<Seq<char>>>)
    ensures
        ({
            let tag = if g.len() > 1 && g[1] is Some {
                g[1]->0
            } else {
                "TODO"@
            };
            let up = uppercase(tag);
            let x = todo_issue(path, k, g);
            &&& (up == "BUG"@ || up == "FIXME"@) ==> x.severity == Severity::High
            &&& (up == "HACK"@ || up == "XXX"@) ==> x.severity == Severity::Medium
            &&& !(up == "BUG"@ || up == "FIXME"@ || up == "HACK"@ || up == "XXX"@) ==> x.severity
                == Severity::Low
            &&& x.category == IssueCategory::Maintainability
            &&& x.file == path
            &&& x.line == Some((k + 1) as usize)
            &&& x.title == tag + " comment found"@
        }),
{
    reveal_strlit("BUG");
    reveal_strlit("FIXME");
    reveal_strlit("HACK");
    reveal_strlit("XXX");
    assert("HACK"@ != "BUG"@ && "HACK"@ != "FIXME"@ && "XXX"@ != "BUG"@ && "XXX"@ != "FIXME"@) by {
        assert("HACK"@[0] != "BUG"@[0]);
        assert("HACK"@.len() != "FIXME"@.len());
        assert("XXX"@[0] != "BUG"@[0]);
        assert("XXX"@.len() != "FIXME"@.len());
    }
}

/// The TODO/FIXME/HACK/XXX/BUG comment issues.
pub open spec fn todo_issues(path: Seq<char>, ls: Seq<Seq<char>>) -> Seq<IssueView> {
    if regex_compiles(TODO_PATTERN@) {
        emit(
            ls.len() as int,
            |k: int|
                match regex_captures(TODO_PATTERN@, ls[k]) {
                    Some(g) => Some(todo_issue(path, k, g)),
                    None => None,
                },
        )
    } else {
        Seq::empty()
    }
}

/// A line is too long when its UTF-8 encoding has more than 120 bytes.
pub open spec fn is_long(l: Seq<char>) -> bool {
    utf8_len(l) > 120
}

/// The number of long lines among the first `k` lines.
pub open spec fn count_long(ls: Seq<Seq<char>>, k: int) -> nat
    decreases k,
{
    if k <= 0 {
        0
    } else {
        count_long(ls, k - 1) + if is_long(ls[k - 1]) {
            1nat
        } else {
            0nat
        }
    }
}

/// The issue for line index `k` when it is too long.
pub open spec fn long_line_issue(path: Seq<char>, ls: Seq<Seq<char>>, k: int) -> IssueView {
    line_issue(
        path,
        k,
        Severity::Info,
        IssueCategory::CodeQuality,
        "Line too long"@,
        "Line has "@ + decimal(utf8_len(ls[k])) + " characters"@,
        "Consider breaking this line for better readability"@,
    )
}

/// The issues for the first three long lines.
pub open spec fn long_line_issues(path: Seq<char>, ls: Seq<Seq<char>>) -> Seq<IssueView> {
    emit(
        ls.len() as int,
        |k: int|
            if is_long(ls[k]) && count_long(ls, k) < 3 {
                Some(long_line_issue(path, ls, k))
            } else {
                None
            },
    )
}

/// The smaller of `a` and `b`.
pub open spec fn min_nat(a: nat, b: nat) -> nat {
    if a <= b {
        a
    } else {
        b
    }
}

proof fn lemma_long_prefix(path: Seq<char>, ls: Seq<Seq<char>>, n: int)
    requires
        0 <= n <= ls.len(),
    ensures
        ({
            let f = |k: int|
                if is_long(ls[k]) && count_long(ls, k) < 3 {
                    Some(long_line_issue(path, ls, k))
                } else {
                    None
                };
            let e = emit(n, f);
            &&& e.len() == min_nat(3, count_long(ls, n))
            &&& forall|j: int|
                0 <= j < e.len() ==> exists|k: int|
                    0 <= k < n && is_long(ls[k]) && count_long(ls, k) == j && #[trigger] e[j]
                        == long_line_issue(path, ls, k)
        }),
    decreases n,
{
    let f = |k: int|
        if is_long(ls[k]) && count_long(ls, k) < 3 {
            Some(long_line_issue(path, ls, k))
        } else {
            None
        };
    if n > 0 {
        lemma_long_prefix(path, ls, n - 1);
        let prev = emit(n - 1, f);
        let e = emit(n, f);
        if is_long(ls[n - 1]) && count_long(ls, n - 1) < 3 {
            assert(e == prev + seq![long_line_issue(path, ls, n - 1)]);
            assert forall|j: int| 0 <= j < e.len() implies exists|k: int|
                0 <= k < n && is_long(ls[k]) && count_long(ls, k) == j && #[trigger] e[j]
                    == long_line_issue(path, ls, k) by {
                if j < prev.len() {
                    assert(e[j] == prev[j]);
                    let k = choose|k: int|
                        0 <= k < n - 1 && is_long(ls[k]) && count_long(ls, k) == j && #[trigger] prev[j]
                            == long_line_issue(path, ls, k);
                    assert(0 <= k < n && is_long(ls[k]) && count_long(ls, k) == j && e[j]
                        == long_line_issue(path, ls, k));
                } else {
                    assert(e[j] == long_line_issue(path, ls, n - 1));
                }
            }
        } else {
            assert(e =~= prev);
            assert forall|j: int| 0 <= j < e.len() implies exists|k: int|
                0 <= k < n && is_long(ls[k]) && count_long(ls, k) == j && #[trigger] e[j]
                    == long_line_issue(path, ls, k) by {
                assert(e[j] == prev[j]);
                let k = choose|k: int|
                    0 <= k < n - 1 && is_long(ls[k]) && count_long(ls, k) == j && #[trigger] prev[j]
                        == long_line_issue(path, ls, k);
                assert(0 <= k < n && is_long(ls[k]) && count_long(ls, k) == j && e[j]
                    == long_line_issue(path, ls, k));
            }
        }
    }
}

/// The "line too long" issues are those of the first three lines longer
/// than 120 bytes, in order: there are as many as such lines, at most
/// three, and the `j`-th is for the line that has `j` long lines before it.
pub proof fn lemma_long_line_issues(path: Seq<char>, ls: Seq<Seq<char>>)
    ensures
        long_line_issues(path, ls).len() == min_nat(3, count_long(ls, ls.len() as int)),
        forall|j: int|
            0 <= j < long_line_issues(path, ls).len() ==> exists|k: int|
                0 <= k < ls.len() && is_long(ls[k]) && count_long(ls, k) == j
                    && #[trigger] long_line_issues(path, ls)[j] == long_line_issue(path, ls, k),
{
    lemma_long_prefix(path, ls, ls.len() as int);
}

/// The hardcoded-credential issues of one pattern.
pub open spec fn credential_issues(
    path: Seq<char>,
    ls: Seq<Seq<char>>,
    pattern: Seq<char>,
    title: Seq<char>,
) -> Seq<IssueView> {
    flagged(
        path,
        match_flags(pattern, ls),
        Severity::Critical,
        IssueCategory::Security,
        title,
        CREDENTIAL_DESCRIPTION@,
        CREDENTIAL_SUGGESTION@,
    )
}

/// Line `i` starts a run of three identical (trimmed) lines worth reporting.
pub open spec fn dup_at(ls: Seq<Seq<char>>, i: int) -> bool {
    let l = trim(ls[i]);
    &&& utf8_len(l) > 20
    &&& !has_prefix(l, "//"@)
    &&& !has_prefix(l, "#"@)
    &&& trim(ls[i + 1]) == l
    &&& trim(ls[i + 2]) == l
}

/// The duplication issues found by scanning from line index `i`: a run
/// found at `i` is reported and the scan resumes three lines later.
pub open spec fn dup_scan(path: Seq<char>, ls: Seq<Seq<char>>, i: int) -> Seq<IssueView>
    decreases ls.len() - i,
{
    if i < 0 || i >= ls.len() - 2 {
        Seq::empty()
    } else if dup_at(ls, i) {
        seq![
            line_issue(
                path,
                i,
                Severity::Low,
                IssueCategory::Maintainability,
                "Potential code duplication"@,
                "Multiple consecutive identical lines detected"@,
                "Consider refactoring to reduce duplication"@,
            ),
        ] + dup_scan(path, ls, i + 3)
    } else {
        dup_scan(path, ls, i + 1)
    }
}

/// The issues every file is checked for.
pub open spec fn common_issues(path: Seq<char>, ls: Seq<Seq<char>>) -> Seq<IssueView> {
    todo_issues(path, ls) + long_line_issues(path, ls) + credential_issues(
        path,
        ls,
        PASSWORD_PATTERN@,
        "Hardcoded password"@,
    ) + credential_issues(path, ls, API_KEY_PATTERN@, "Hardcoded API key"@) + credential_issues(
        path,
        ls,
        SECRET_PATTERN@,
        "Hardcoded secret/token"@,
    ) + dup_scan(path, ls, 0)
}

/// Whether a loop is open after applying line `l` to the state `in_loop`.
pub open spec fn loop_step(in_loop: bool, l: Seq<char>) -> bool {
    let opened = in_loop || has_sub(l, "for "@) || has_sub(l, "while "@) || has_sub(l, "loop {"@);
    if opened && has_sub(l, "}"@) {
        false
    } else {
        opened
    }
}

/// Whether a loop is open before line index `k`.
pub open spec fn loop_state(ls: Seq<Seq<char>>, k: int) -> bool
    decreases k,
{
    if k <= 0 {
        false
    } else {
        loop_step(loop_state(ls, k - 1), ls[k - 1])
    }
}

/// For each line, whether `pattern` matches and the line does not mention
/// `test`.
pub open spec fn unwrap_flags(ls: Seq<Seq<char>>) -> Seq<bool> {
    Seq::new(
        ls.len(),
        |k: int| match_flags(UNWRAP_PATTERN@, ls)[k] && !has_sub(ls[k], "test"@),
    )
}

/// For each line, whether it clones inside an open loop.
pub open spec fn clone_flags(ls: Seq<Seq<char>>) -> Seq<bool> {
    Seq::new(
        ls.len(),
        |k: int| loop_step(loop_state(ls, k), ls[k]) && has_sub(ls[k], ".clone()"@),
    )
}

/// The Rust-specific issues.
pub open spec fn rust_issues(path: Seq<char>, ls: Seq<Seq<char>>) -> Seq<IssueView> {
    flagged(
        path,
        unwrap_flags(ls),
        Severity::Medium,
        IssueCategory::CodeQuality,
        "Usage of unwrap()"@,
        "unwrap() can cause panics if the value is None or Err"@,
        "Consider using ? operator, expect(), or proper error handling"@,
    ) + flagged(
        path,
        match_flags(EXPECT_PATTERN@, ls),
        Severity::Info,
        IssueCategory::BestPractice,
        "Generic expect() message"@,
        "expect() message should be descriptive"@,
        "Provide a meaningful error message that explains why this should not happen"@,
    ) + flagged(
        path,
        clone_flags(ls),
        Severity::Medium,
        IssueCategory::Performance,
        "clone() in loop"@,
        "Cloning inside a loop may impact performance"@,
        "Consider moving the clone outside the loop or using references"@,
    ) + flagged(
        path,
        match_flags(DEAD_CODE_PATTERN@, ls),
        Severity::Low,
        IssueCategory::Maintainability,
        "Dead code allowed"@,
        "Code marked as dead_code should be reviewed"@,
        "Remove unused code or document why it's needed"@,
    )
}

/// `flags` where the file path does not mention `test`, else all unset.
pub open spec fn unless_test_path(path: Seq<char>, flags: Seq<bool>) -> Seq<bool> {
    Seq::new(flags.len(), |k: int| flags[k] && !has_sub(path, "test"@))
}

/// For each line, whether it has three or more arrow-function openings.
pub open spec fn callback_flags(ls: Seq<Seq<char>>) -> Seq<bool> {
    Seq::new(
        ls.len(),
        |k: int|
            regex_compiles(CALLBACK_PATTERN@) && regex_find_count(CALLBACK_PATTERN@, ls[k]) >= 3,
    )
}

/// The JavaScript/TypeScript-specific issues.
pub open spec fn js_issues(path: Seq<char>, ls: Seq<Seq<char>>) -> Seq<IssueView> {
    flagged(
        path,
        unless_test_path(path, match_flags(CONSOLE_PATTERN@, ls)),
        Severity::Low,
        IssueCategory::CodeQuality,
        "Console statement found"@,
        "Console statements should not be in production code"@,
        "Remove or replace with proper logging"@,
    ) + (if has_suffix(path, ".ts"@) || has_suffix(path, ".tsx"@) {
        flagged(
            path,
            match_flags(ANY_TYPE_PATTERN@, ls),
            Severity::Medium,
            IssueCategory::CodeQuality,
            "Usage of 'any' type"@,
            "Using 'any' defeats TypeScript's type safety"@,
            "Define proper types or use 'unknown' if type is truly unknown"@,
        )
    } else {
        Seq::empty()
    }) + flagged(
        path,
        callback_flags(ls),
        Severity::Medium,
        IssueCategory::Maintainability,
        "Potential callback nesting"@,
        "Deeply nested callbacks reduce readability"@,
        "Consider using async/await or breaking into separate functions"@,
    )
}

/// The Python-specific issues.
pub open spec fn python_issues(path: Seq<char>, ls: Seq<Seq<char>>) -> Seq<IssueView> {
    flagged(
        path,
        match_flags(BARE_EXCEPT_PATTERN@, ls),
        Severity::Medium,
        IssueCategory::BestPractice,
        "Bare except clause"@,
        "Catching all exceptions can hide bugs"@,
        "Specify the exception type(s) to catch"@,
    ) + flagged(
        path,
        unless_test_path(path, match_flags(PRINT_PATTERN@, ls)),
        Severity::Low,
        IssueCategory::BestPractice,
        "Print statement found"@,
        "Print statements should be replaced with proper logging"@,
        "Use the logging module instead"@,
    )
}

/// The Go-specific issues.
pub open spec fn go_issues(path: Seq<char>, ls: Seq<Seq<char>>) -> Seq<IssueView> {
    flagged(
        path,
        match_flags(IGNORED_ERROR_PATTERN@, ls),
        Severity::High,
        IssueCategory::CodeQuality,
        "Error ignored"@,
        "Errors should be handled, not discarded"@,
        "Handle the error appropriately or use a linter to enforce error handling"@,
    ) + flagged(
        path,
        unless_test_path(path, match_flags(FMT_PRINT_PATTERN@, ls)),
        Severity::Low,
        IssueCategory::BestPractice,
        "fmt.Print usage"@,
        "Consider using log package for production code"@,
        "Replace with log.Print or a structured logger"@,
    )
}

/// The language of a file extension, as far as issue detection goes.
pub open spec fn is_js_ext(ext: Seq<char>) -> bool {
    ext == "ts"@ || ext == "tsx"@ || ext == "js"@ || ext == "jsx"@
}

/// All issues detected in a file at `path` with content `c` and extension
/// `ext`.
pub open spec fn detected(path: Seq<char>, c: Seq<char>, ext: Seq<char>) -> Seq<IssueView> {
    let ls = lines(c);
    common_issues(path, ls) + if ext == "rs"@ {
        rust_issues(path, ls)
    } else if is_js_ext(ext) {
        js_issues(path, ls)
    } else if ext == "py"@ {
        python_issues(path, ls)
    } else if ext == "go"@ {
        go_issues(path, ls)
    } else {
        Seq::empty()
    }
}

/// Every issue of `v` is reported for file `path` at a line number from 1 to
/// `n`.
pub open spec fn all_placed(v: Seq<IssueView>, path: Seq<char>, n: int) -> bool {
    forall|i: int| 0 <= i < v.len() ==> placed(#[trigger] v[i], path, n)
}

/// Issue `x` is reported for file `path` at a line number from 1 to `n`.
pub open spec fn placed(x: IssueView, path: Seq<char>, n: int) -> bool {
    x.file == path && match x.line {
        Some(m) => 1 <= m <= n,
        None => false,
    }
}

/// An issue, if any, placed as [`placed`] says.
pub open spec fn opt_placed(o: Option<IssueView>, path: Seq<char>, n: int) -> bool {
    match o {
        Some(x) => placed(x, path, n),
        None => true,
    }
}

proof fn lemma_placed_concat(a: Seq<IssueView>, b: Seq<IssueView>, path: Seq<char>, n: int)
    requires
        all_placed(a, path, n),
        all_placed(b, path, n),
    ensures
        all_placed(a + b, path, n),
{
    assert forall|i: int| 0 <= i < (a + b).len() implies placed(#[trigger] (a + b)[i], path, n) by {
        if i < a.len() {
            assert((a + b)[i] == a[i]);
        } else {
            assert((a + b)[i] == b[i - a.len()]);
        }
    }
}

proof fn lemma_emit_placed(m: int, f: spec_fn(int) -> Option<IssueView>, path: Seq<char>, n: int)
    requires
        forall|k: int| 0 <= k < m ==> opt_placed(#[trigger] f(k), path, n),
    ensures
        all_placed(emit(m, f), path, n),
    decreases m,
{
    if m > 0 {
        lemma_emit_placed(m - 1, f, path, n);
        let last = match f(m - 1) {
            Some(x) => seq![x],
            None => Seq::<IssueView>::empty(),
        };
        assert(opt_placed(f(m - 1), path, n));
        assert(all_placed(last, path, n));
        lemma_placed_concat(emit(m - 1, f), last, path, n);
    }
}

proof fn lemma_line_issue_placed(k: int, n: int)
    requires
        0 <= k < n <= usize::MAX,
    ensures
        (k + 1) as usize == k + 1,
{
}

proof fn lemma_flagged_placed(
    path: Seq<char>,
    flags: Seq<bool>,
    severity: Severity,
    category: IssueCategory,
    title: Seq<char>,
    description: Seq<char>,
    suggestion: Seq<char>,
    n: int,
)
    requires
        flags.len() <= n <= usize::MAX,
    ensures
        all_placed(flagged(path, flags, severity, category, title, description, suggestion), path, n),
{
    let f = |k: int|
        if flags[k] {
            Some(line_issue(path, k, severity, category, title, description, suggestion))
        } else {
            None
        };
    assert forall|k: int| 0 <= k < flags.len() implies opt_placed(#[trigger] f(k), path, n) by {
        lemma_line_issue_placed(k, n);
    }
    lemma_emit_placed(flags.len() as int, f, path, n);
}

proof fn lemma_dup_scan_placed(path: Seq<char>, ls: Seq<Seq<char>>, i: int, n: int)
    requires
        ls.len() <= n <= usize::MAX,
    ensures
        all_placed(dup_scan(path, ls, i), path, n),
    decreases ls.len() - i,
{
    if 0 <= i < ls.len() - 2 {
        if dup_at(ls, i) {
            lemma_dup_scan_placed(path, ls, i + 3, n);
            lemma_line_issue_placed(i, n);
            let first = seq![
                line_issue(
                    path,
                    i,
                    Severity::Low,
                    IssueCategory::Maintainability,
                    "Potential code duplication"@,
                    "Multiple consecutive identical lines detected"@,
                    "Consider refactoring to reduce duplication"@,
                ),
            ];
            assert(all_placed(first, path, n));
            lemma_placed_concat(first, dup_scan(path, ls, i + 3), path, n);
        } else {
            lemma_dup_scan_placed(path, ls, i + 1, n);
        }
    }
}

proof fn lemma_common_placed(path: Seq<char>, ls: Seq<Seq<char>>, n: int)
    requires
        ls.len() <= n <= usize::MAX,
    ensures
        all_placed(common_issues(path, ls), path, n),
{
    if regex_compiles(TODO_PATTERN@) {
        let f = |k: int|
            match regex_captures(TODO_PATTERN@, ls[k]) {
                Some(g) => Some(todo_issue(path, k, g)),
                None => None,
            };
        assert forall|k: int| 0 <= k < ls.len() implies opt_placed(#[trigger] f(k), path, n) by {
            lemma_line_issue_placed(k, n);
        }
        lemma_emit_placed(ls.len() as int, f, path, n);
    }
    let g = |k: int|
        if is_long(ls[k]) && count_long(ls, k) < 3 {
            Some(long_line_issue(path, ls, k))
        } else {
            None
        };
    assert forall|k: int| 0 <= k < ls.len() implies opt_placed(#[trigger] g(k), path, n) by {
        lemma_line_issue_placed(k, n);
    }
    lemma_emit_placed(ls.len() as int, g, path, n);
    let c1 = credential_issues(path, ls, PASSWORD_PATTERN@, "Hardcoded password"@);
    let c2 = credential_issues(path, ls, API_KEY_PATTERN@, "Hardcoded API key"@);
    let c3 = credential_issues(path, ls, SECRET_PATTERN@, "Hardcoded secret/token"@);
    lemma_flagged_placed(path, match_flags(PASSWORD_PATTERN@, ls), Severity::Critical,
        IssueCategory::Security, "Hardcoded password"@, CREDENTIAL_DESCRIPTION@,
        CREDENTIAL_SUGGESTION@, n);
    lemma_flagged_placed(path, match_flags(API_KEY_PATTERN@, ls), Severity::Critical,
        IssueCategory::Security, "Hardcoded API key"@, CREDENTIAL_DESCRIPTION@,
        CREDENTIAL_SUGGESTION@, n);
    lemma_flagged_placed(path, match_flags(SECRET_PATTERN@, ls), Severity::Critical,
        IssueCategory::Security, "Hardcoded secret/token"@, CREDENTIAL_DESCRIPTION@,
        CREDENTIAL_SUGGESTION@, n);
    lemma_dup_scan_placed(path, ls, 0, n);
    let t = todo_issues(path, ls);
    let lo = long_line_issues(path, ls);
    if !regex_compiles(TODO_PATTERN@) {
        assert(all_placed(t, path, n));
    }
    lemma_placed_concat(t, lo, path, n);
    lemma_placed_concat(t + lo, c1, path, n);
    lemma_placed_concat(t + lo + c1, c2, path, n);
    lemma_placed_concat(t + lo + c1 + c2, c3, path, n);
    lemma_placed_concat(t + lo + c1 + c2 + c3, dup_scan(path, ls, 0), path, n);
}

/// Every detected issue names the file it was found in and a line of it
/// (numbered from 1); the issues every file is checked for come first.
pub proof fn lemma_detected_placed(path: Seq<char>, c: Seq<char>, ext: Seq<char>)
    requires
        c.len() < usize::MAX,
    ensures
        all_placed(detected(path, c, ext), path, lines(c).len() as int),
        detected(path, c, ext).take(common_issues(path, lines(c)).len() as int) == common_issues(
            path,
            lines(c),
        ),
{
    let ls = lines(c);
    let n = ls.len() as int;
    crate::text::lemma_lines_len(c);
    lemma_common_placed(path, ls, n);
    let extra = if ext == "rs"@ {
        rust_issues(path, ls)
    } else if is_js_ext(ext) {
        js_issues(path, ls)
    } else if ext == "py"@ {
        python_issues(path, ls)
    } else if ext == "go"@ {
        go_issues(path, ls)
    } else {
        Seq::empty()
    };
    if ext == "rs"@ {
        lemma_flagged_placed(path, unwrap_flags(ls), Severity::Medium, IssueCategory::CodeQuality,
            "Usage of unwrap()"@, "unwrap() can cause panics if the value is None or Err"@,
            "Consider using ? operator, expect(), or proper error handling"@, n);
        lemma_flagged_placed(path, match_flags(EXPECT_PATTERN@, ls), Severity::Info,
            IssueCategory::BestPractice, "Generic expect() message"@,
            "expect() message should be descriptive"@,
            "Provide a meaningful error message that explains why this should not happen"@, n);
        lemma_flagged_placed(path, clone_flags(ls), Severity::Medium, IssueCategory::Performance,
            "clone() in loop"@, "Cloning inside a loop may impact performance"@,
            "Consider moving the clone outside the loop or using references"@, n);
        lemma_flagged_placed(path, match_flags(DEAD_CODE_PATTERN@, ls), Severity::Low,
            IssueCategory::Maintainability, "Dead code allowed"@,
            "Code marked as dead_code should be reviewed"@,
            "Remove unused code or document why it's needed"@, n);
        let r1 = flagged(path, unwrap_flags(ls), Severity::Medium, IssueCategory::CodeQuality,
            "Usage of unwrap()"@, "unwrap() can cause panics if the value is None or Err"@,
            "Consider using ? operator, expect(), or proper error handling"@);
        let r2 = flagged(path, match_flags(EXPECT_PATTERN@, ls), Severity::Info,
            IssueCategory::BestPractice, "Generic expect() message"@,
            "expect() message should be descriptive"@,
            "Provide a meaningful error message that explains why this should not happen"@);
        let r3 = flagged(path, clone_flags(ls), Severity::Medium, IssueCategory::Performance,
            "clone() in loop"@, "Cloning inside a loop may impact performance"@,
            "Consider moving the clone outside the loop or using references"@);
        let r4 = flagged(path, match_flags(DEAD_CODE_PATTERN@, ls), Severity::Low,
            IssueCategory::Maintainability, "Dead code allowed"@,
            "Code marked as dead_code should be reviewed"@,
            "Remove unused code or document why it's needed"@);
        lemma_placed_concat(r1, r2, path, n);
        lemma_placed_concat(r1 + r2, r3, path, n);
        lemma_placed_concat(r1 + r2 + r3, r4, path, n);
    } else if is_js_ext(ext) {
        let ts = has_suffix(path, ".ts"@) || has_suffix(path, ".tsx"@);
        let j1 = flagged(path, unless_test_path(path, match_flags(CONSOLE_PATTERN@, ls)),
            Severity::Low, IssueCategory::CodeQuality, "Console statement found"@,
            "Console statements should not be in production code"@,
            "Remove or replace with proper logging"@);
        let j2 = if ts {
            flagged(path, match_flags(ANY_TYPE_PATTERN@, ls), Severity::Medium,
                IssueCategory::CodeQuality, "Usage of 'any' type"@,
                "Using 'any' defeats TypeScript's type safety"@,
                "Define proper types or use 'unknown' if type is truly unknown"@)
        } else {
            Seq::empty()
        };
        let j3 = flagged(path, callback_flags(ls), Severity::Medium,
            IssueCategory::Maintainability, "Potential callback nesting"@,
            "Deeply nested callbacks reduce readability"@,
            "Consider using async/await or breaking into separate functions"@);
        lemma_flagged_placed(path, unless_test_path(path, match_flags(CONSOLE_PATTERN@, ls)),
            Severity::Low, IssueCategory::CodeQuality, "Console statement found"@,
            "Console statements should not be in production code"@,
            "Remove or replace with proper logging"@, n);
        if ts {
            lemma_flagged_placed(path, match_flags(ANY_TYPE_PATTERN@, ls), Severity::Medium,
                IssueCategory::CodeQuality, "Usage of 'any' type"@,
                "Using 'any' defeats TypeScript's type safety"@,
                "Define proper types or use 'unknown' if type is truly unknown"@, n);
        }
        lemma_flagged_placed(path, callback_flags(ls), Severity::Medium,
            IssueCategory::Maintainability, "Potential callback nesting"@,
            "Deeply nested callbacks reduce readability"@,
            "Consider using async/await or breaking into separate functions"@, n);
        lemma_placed_concat(j1, j2, path, n);
        lemma_placed_concat(j1 + j2, j3, path, n);
    } else if ext == "py"@ {
        lemma_flagged_placed(path, match_flags(BARE_EXCEPT_PATTERN@, ls), Severity::Medium,
            IssueCategory::BestPractice, "Bare except clause"@,
            "Catching all exceptions can hide bugs"@, "Specify the exception type(s) to catch"@, n);
        lemma_flagged_placed(path, unless_test_path(path, match_flags(PRINT_PATTERN@, ls)),
            Severity::Low, IssueCategory::BestPractice, "Print statement found"@,
            "Print statements should be replaced with proper logging"@,
            "Use the logging module instead"@, n);
        lemma_placed_concat(
            flagged(path, match_flags(BARE_EXCEPT_PATTERN@, ls), Severity::Medium,
                IssueCategory::BestPractice, "Bare except clause"@,
                "Catching all exceptions can hide bugs"@, "Specify the exception type(s) to catch"@),
            flagged(path, unless_test_path(path, match_flags(PRINT_PATTERN@, ls)), Severity::Low,
                IssueCategory::BestPractice, "Print statement found"@,
                "Print statements should be replaced with proper logging"@,
                "Use the logging module instead"@),
            path,
            n,
        );
    } else if ext == "go"@ {
        lemma_flagged_placed(path, match_flags(IGNORED_ERROR_PATTERN@, ls), Severity::High,
            IssueCategory::CodeQuality, "Error ignored"@,
            "Errors should be handled, not discarded"@,
            "Handle the error appropriately or use a linter to enforce error handling"@, n);
        lemma_flagged_placed(path, unless_test_path(path, match_flags(FMT_PRINT_PATTERN@, ls)),
            Severity::Low, IssueCategory::BestPractice, "fmt.Print usage"@,
            "Consider using log package for production code"@,
            "Replace with log.Print or a structured logger"@, n);
        lemma_placed_concat(
            flagged(path, match_flags(IGNORED_ERROR_PATTERN@, ls), Severity::High,
                IssueCategory::CodeQuality, "Error ignored"@,
                "Errors should be handled, not discarded"@,
                "Handle the error appropriately or use a linter to enforce error handling"@),
            flagged(path, unless_test_path(path, match_flags(FMT_PRINT_PATTERN@, ls)),
                Severity::Low, IssueCategory::BestPractice, "fmt.Print usage"@,
                "Consider using log package for production code"@,
                "Replace with log.Print or a structured logger"@),
            path,
            n,
        );
    }
    assert(all_placed(extra, path, n));
    lemma_placed_concat(common_issues(path, ls), extra, path, n);
    assert(detected(path, c, ext) == common_issues(path, ls) + extra);
    assert((common_issues(path, ls) + extra).take(common_issues(path, ls).len() as int)
        =~= common_issues(path, ls));
}

// ---------------------------------------------------------------------------
// Executable detection
// ---------------------------------------------------------------------------

proof fn lemma_views_push(v: Seq<Issue>, x: Issue)
    ensures
        views(v.push(x)) == views(v).push(x@),
{
    assert(views(v.push(x)) =~= views(v).push(x@));
}

proof fn lemma_views_add(a: Seq<Issue>, b: Seq<Issue>)
    ensures
        views(a + b) == views(a) + views(b),
{
    assert(views(a + b) =~= views(a) + views(b));
}

/// Appends all of `more` to `out`.
fn append_issues(out: &mut Vec<Issue>, more: Vec<Issue>)
    ensures
        views(final(out)@) == views(old(out)@) + views(more@),
{
    let mut more = more;
    let ghost m = more@;
    out.append(&mut more);
    proof {
        lemma_views_add(old(out)@, m);
    }
}

/// One issue with the given texts for each line index whose flag is set.
fn push_flagged(
    out: &mut Vec<Issue>,
    path: &str,
    flags: &Vec<bool>,
    severity: Severity,
    category: IssueCategory,
    title: &str,
    description: &str,
    suggestion: &str,
)
    ensures
        views(final(out)@) == views(old(out)@) + flagged(
            path@,
            flags@,
            severity,
            category,
            title@,
            description@,
            suggestion@,
        ),
{
    let ghost start = views(out@);
    let ghost f = |k: int|
        if flags@[k] {
            Some(line_issue(path@, k, severity, category, title@, description@, suggestion@))
        } else {
            None::<IssueView>
        };
    let mut i: usize = 0;
    while i < flags.len()
        invariant
            i <= flags@.len(),
            f == (|k: int|
                if flags@[k] {
                    Some(line_issue(path@, k, severity, category, title@, description@, suggestion@))
                } else {
                    None::<IssueView>
                }),
            views(out@) == start + emit(i as int, f),
        decreases flags.len() - i,
    {
        let ghost before = out@;
        if flags[i] {
            let issue = Issue {
                file: path.to_owned(),
                line: Some(i + 1),
                severity,
                category,
                title: title.to_owned(),
                description: description.to_owned(),
                suggestion: suggestion.to_owned(),
            };
            out.push(issue);
            proof {
                lemma_views_push(before, issue);
            }
        }
        i = i + 1;
        assert(views(out@) =~= start + emit(i as int, f));
    }
}

/// For each line, whether `pattern` compiles and matches it.
fn pattern_flags(pattern: &str, ls: &Vec<Vec<char>>) -> (r: Vec<bool>)
    ensures
        r@ == match_flags(pattern@, line_views(ls@)),
{
    let m = is_match_each(pattern, ls);
    let mut r: Vec<bool> = Vec::new();
    let mut i: usize = 0;
    while i < ls.len()
        invariant
            i <= ls@.len(),
            m is Some <==> regex_compiles(pattern@),
            m matches Some(v) ==> v@.len() == ls@.len() && forall|k: int|
                0 <= k < v@.len() ==> v@[k] == regex_is_match(pattern@, #[trigger] ls@[k]@),
            r@ == match_flags(pattern@, line_views(ls@)).take(i as int),
        decreases ls.len() - i,
    {
        let b = match &m {
            Some(v) => v[i],
            None => false,
        };
        r.push(b);
        i = i + 1;
        assert(r@ =~= match_flags(pattern@, line_views(ls@)).take(i as int));
    }
    assert(r@ =~= match_flags(pattern@, line_views(ls@)));
    r
}

/// Clears the flags of the lines that mention `test`.
fn clear_test_lines(flags: &Vec<bool>, ls: &Vec<Vec<char>>) -> (r: Vec<bool>)
    requires
        flags@.len() == ls@.len(),
    ensures
        r@ == Seq::new(flags@.len(), |k: int| flags@[k] && !has_sub(ls@[k]@, "test"@)),
{
    let mut r: Vec<bool> = Vec::new();
    let mut i: usize = 0;
    while i < flags.len()
        invariant
            i <= flags@.len(),
            flags@.len() == ls@.len(),
            r@ == Seq::new(flags@.len(), |k: int| flags@[k] && !has_sub(ls@[k]@, "test"@)).take(
                i as int,
            ),
        decreases flags.len() - i,
    {
        let b = flags[i] && !contains_str(&ls[i], "test");
        r.push(b);
        i = i + 1;
        assert(r@ =~= Seq::new(flags@.len(), |k: int| flags@[k] && !has_sub(ls@[k]@, "test"@)).take(
            i as int,
        ));
    }
    assert(r@ =~= Seq::new(flags@.len(), |k: int| flags@[k] && !has_sub(ls@[k]@, "test"@)));
    r
}

/// Clears all flags when the path mentions `test`.
fn clear_if_test_path(flags: &Vec<bool>, path: &str) -> (r: Vec<bool>)
    ensures
        r@ == unless_test_path(path@, flags@),
{
    let pc = to_chars(path);
    let is_test = contains_str(&pc, "test");
    let mut r: Vec<bool> = Vec::new();
    let mut i: usize = 0;
    while i < flags.len()
        invariant
            i <= flags@.len(),
            is_test == has_sub(path@, "test"@),
            r@ == unless_test_path(path@, flags@).take(i as int),
        decreases flags.len() - i,
    {
        r.push(flags[i] && !is_test);
        i = i + 1;
        assert(r@ =~= unless_test_path(path@, flags@).take(i as int));
    }
    assert(r@ =~= unless_test_path(path@, flags@));
    r
}

/// A `String` holding the characters `s@ + t@`.
fn concat_string(s: &Vec<char>, t: &str) -> (r: String)
    ensures
        r@ == s@ + t@,
{
    let mut v: Vec<char> = Vec::new();
    extend_chars(&mut v, s);
    extend_str(&mut v, t);
    from_chars(&v)
}

/// Whether `s` equals the string slice `t`.
fn eq_str(s: &Vec<char>, t: &str) -> (b: bool)
    ensures
        b == (s@ == t@),
{
    chars_eq(s, &to_chars(t))
}

pub struct IssueDetector;

impl IssueDetector {
    /// Detect issues in a file. `path` is the file's path as displayed.
    pub fn detect(path: &str, content: &str, extension: &str) -> (r: Vec<Issue>)
        ensures
            views(r@) == detected(path@, content@, extension@),
    {
        let cs = to_chars(content);
        let ls = split_lines(&cs);
        proof {
            assert(line_views(ls@) =~= lines(cs@));
        }
        let mut issues = Self::detect_common_issues(path, &ls);
        let e = to_chars(extension);
        let ghost before = issues@;
        if eq_str(&e, "rs") {
            append_issues(&mut issues, Self::detect_rust_issues(path, &ls));
        } else if eq_str(&e, "ts") || eq_str(&e, "tsx") || eq_str(&e, "js") || eq_str(&e, "jsx") {
            append_issues(&mut issues, Self::detect_js_issues(path, &ls));
        } else if eq_str(&e, "py") {
            append_issues(&mut issues, Self::detect_python_issues(path, &ls));
        } else if eq_str(&e, "go") {
            append_issues(&mut issues, Self::detect_go_issues(path, &ls));
        } else {
            assert(issues@ =~= before);
            assert(views(issues@) =~= views(issues@) + Seq::<IssueView>::empty());
        }
        issues
    }

    /// Detect common issues across languages.
    fn detect_common_issues(path: &str, ls: &Vec<Vec<char>>) -> (r: Vec<Issue>)
        ensures
            views(r@) == common_issues(path@, line_views(ls@)),
    {
        let mut issues: Vec<Issue> = Vec::new();
        Self::push_todo_issues(&mut issues, path, ls);
        Self::push_long_line_issues(&mut issues, path, ls);
        let f = pattern_flags(PASSWORD_PATTERN, ls);
        push_flagged(
            &mut issues,
            path,
            &f,
            Severity::Critical,
            IssueCategory::Security,
            "Hardcoded password",
            CREDENTIAL_DESCRIPTION,
            CREDENTIAL_SUGGESTION,
        );
        let f = pattern_flags(API_KEY_PATTERN, ls);
        push_flagged(
            &mut issues,
            path,
            &f,
            Severity::Critical,
            IssueCategory::Security,
            "Hardcoded API key",
            CREDENTIAL_DESCRIPTION,
            CREDENTIAL_SUGGESTION,
        );
        let f = pattern_flags(SECRET_PATTERN, ls);
        push_flagged(
            &mut issues,
            path,
            &f,
            Severity::Critical,
            IssueCategory::Security,
            "Hardcoded secret/token",
            CREDENTIAL_DESCRIPTION,
            CREDENTIAL_SUGGESTION,
        );
        Self::push_dup_issues(&mut issues, path, ls);
        issues
    }

    fn push_todo_issues(out: &mut Vec<Issue>, path: &str, ls: &Vec<Vec<char>>)
        ensures
            views(final(out)@) == views(old(out)@) + todo_issues(path@, line_views(ls@)),
    {
        let caps = captures_each(TODO_PATTERN, ls);
        let ghost lv = line_views(ls@);
        let ghost start = views(out@);
        match caps {
            None => {
                assert(views(out@) =~= start + todo_issues(path@, lv));
            },
            Some(v) => {
                let ghost f = |k: int|
                    match regex_captures(TODO_PATTERN@, lv[k]) {
                        Some(g) => Some(todo_issue(path@, k, g)),
                        None => None::<IssueView>,
                    };
                let mut i: usize = 0;
                while i < ls.len()
                    invariant
                        i <= ls@.len(),
                        lv == line_views(ls@),
                        v@.len() == ls@.len(),
                        forall|k: int|
                            0 <= k < v@.len() ==> groups_view(#[trigger] v@[k]) == regex_captures(
                                TODO_PATTERN@,
                                ls@[k]@,
                            ),
                        f == (|k: int|
                            match regex_captures(TODO_PATTERN@, lv[k]) {
                                Some(g) => Some(todo_issue(path@, k, g)),
                                None => None::<IssueView>,
                            }),
                        views(out@) == start + emit(i as int, f),
                    decreases ls.len() - i,
                {
                    let ghost before = out@;
                    proof {
                        let _ = groups_view(v@[i as int]);
                    }
                    match &v[i] {
                        Some(g) => {
                            let issue = Self::todo_issue(path, i, g);
                            out.push(issue);
                            proof {
                                lemma_views_push(before, issue);
                            }
                        },
                        None => {},
                    }
                    i = i + 1;
                    assert(views(out@) =~= start + emit(i as int, f));
                }
            },
        }
    }

    fn todo_issue(path: &str, k: usize, g: &Vec<Option<String>>) -> (r: Issue)
        requires
            k < usize::MAX,
        ensures
            r@ == todo_issue(path@, k as int, groups_view(Some(*g))->0),
    {
        let ghost gv = groups_view(Some(*g))->0;
        let tag: Vec<char> = if g.len() > 1 && g[1].is_some() {
            match &g[1] {
                Some(s) => to_chars(s.as_str()),
                None => to_chars("TODO"),
            }
        } else {
            to_chars("TODO")
        };
        let description: Vec<char> = if g.len() > 2 && g[2].is_some() {
            match &g[2] {
                Some(s) => trimmed(&to_chars(s.as_str())),
                None => Vec::new(),
            }
        } else {
            Vec::new()
        };
        let tag_s = from_chars(&tag);
        let up = to_chars(to_uppercase(tag_s.as_str()).as_str());
        let severity = if eq_str(&up, "BUG") || eq_str(&up, "FIXME") {
            Severity::High
        } else if eq_str(&up, "HACK") || eq_str(&up, "XXX") {
            Severity::Medium
        } else {
            Severity::Low
        };
        Issue {
            file: path.to_owned(),
            line: Some(k + 1),
            severity,
            category: IssueCategory::Maintainability,
            title: concat_string(&tag, " comment found"),
            description: from_chars(&description),
            suggestion: TODO_SUGGESTION.to_owned(),
        }
    }

    fn push_long_line_issues(out: &mut Vec<Issue>, path: &str, ls: &Vec<Vec<char>>)
        ensures
            views(final(out)@) == views(old(out)@) + long_line_issues(path@, line_views(ls@)),
    {
        let ghost lv = line_views(ls@);
        let ghost start = views(out@);
        let ghost f = |k: int|
            if is_long(lv[k]) && count_long(lv, k) < 3 {
                Some(long_line_issue(path@, lv, k))
            } else {
                None::<IssueView>
            };
        let mut long_line_count: usize = 0;
        let mut i: usize = 0;
        while i < ls.len()
            invariant
                i <= ls@.len(),
                lv == line_views(ls@),
                long_line_count == count_long(lv, i as int),
                long_line_count <= i,
                f == (|k: int|
                    if is_long(lv[k]) && count_long(lv, k) < 3 {
                        Some(long_line_issue(path@, lv, k))
                    } else {
                        None::<IssueView>
                    }),
                views(out@) == start + emit(i as int, f),
            decreases ls.len() - i,
        {
            let ghost before = out@;
            let n = byte_len(&ls[i]);
            if n > 120 {
                long_line_count = long_line_count + 1;
                if long_line_count <= 3 {
                    let mut d: Vec<char> = Vec::new();
                    extend_str(&mut d, "Line has ");
                    push_decimal(&mut d, n);
                    extend_str(&mut d, " characters");
                    let issue = Issue {
                        file: path.to_owned(),
                        line: Some(i + 1),
                        severity: Severity::Info,
                        category: IssueCategory::CodeQuality,
                        title: "Line too long".to_owned(),
                        description: from_chars(&d),
                        suggestion: "Consider breaking this line for better readability".to_owned(),
                    };
                    out.push(issue);
                    proof {
                        lemma_views_push(before, issue);
                    }
                }
            }
            i = i + 1;
            assert(views(out@) =~= start + emit(i as int, f));
        }
    }

    fn push_dup_issues(out: &mut Vec<Issue>, path: &str, ls: &Vec<Vec<char>>)
        ensures
            views(final(out)@) == views(old(out)@) + dup_scan(path@, line_views(ls@), 0),
    {
        let ghost lv = line_views(ls@);
        let ghost start = views(out@);
        let bound = ls.len().saturating_sub(2);
        let mut i: usize = 0;
        assert(views(out@) =~= start + Seq::<IssueView>::empty());
        while i < bound
            invariant
                ls@.len() >= 2 ==> bound == ls@.len() - 2,
                ls@.len() < 2 ==> bound == 0,
                i <= ls@.len(),
                lv == line_views(ls@),
                start + dup_scan(path@, lv, 0) == views(out@) + dup_scan(path@, lv, i as int),
            decreases ls.len() - i,
        {
            let ghost before = out@;
            let line = trimmed(&ls[i]);
            let is_dup = byte_len(&line) > 20 && !starts_with_str(&line, "//") && !starts_with_str(
                &line,
                "#",
            ) && chars_eq(&trimmed(&ls[i + 1]), &line) && chars_eq(&trimmed(&ls[i + 2]), &line);
            proof {
                assert(is_dup == dup_at(lv, i as int));
            }
            if is_dup {
                let issue = Issue {
                    file: path.to_owned(),
                    line: Some(i + 1),
                    severity: Severity::Low,
                    category: IssueCategory::Maintainability,
                    title: "Potential code duplication".to_owned(),
                    description: "Multiple consecutive identical lines detected".to_owned(),
                    suggestion: "Consider refactoring to reduce duplication".to_owned(),
                };
                out.push(issue);
                proof {
                    lemma_views_push(before, issue);
                    assert(views(out@) + dup_scan(path@, lv, i + 3) =~= views(before) + dup_scan(
                        path@,
                        lv,
                        i as int,
                    ));
                }
                i = i + 3;
            } else {
                i = i + 1;
            }
        }
        assert(views(out@) =~= start + dup_scan(path@, lv, 0));
    }

    /// Detect Rust-specific issues.
    fn detect_rust_issues(path: &str, ls: &Vec<Vec<char>>) -> (r: Vec<Issue>)
        ensures
            views(r@) == rust_issues(path@, line_views(ls@)),
    {
        let mut issues: Vec<Issue> = Vec::new();
        let m = pattern_flags(UNWRAP_PATTERN, ls);
        let f = clear_test_lines(&m, ls);
        assert(f@ =~= unwrap_flags(line_views(ls@)));
        push_flagged(
            &mut issues,
            path,
            &f,
            Severity::Medium,
            IssueCategory::CodeQuality,
            "Usage of unwrap()",
            "unwrap() can cause panics if the value is None or Err",
            "Consider using ? operator, expect(), or proper error handling",
        );
        let f = pattern_flags(EXPECT_PATTERN, ls);
        push_flagged(
            &mut issues,
            path,
            &f,
            Severity::Info,
            IssueCategory::BestPractice,
            "Generic expect() message",
            "expect() message should be descriptive",
            "Provide a meaningful error message that explains why this should not happen",
        );
        let f = Self::clone_in_loop_flags(ls);
        push_flagged(
            &mut issues,
            path,
            &f,
            Severity::Medium,
            IssueCategory::Performance,
            "clone() in loop",
            "Cloning inside a loop may impact performance",
            "Consider moving the clone outside the loop or using references",
        );
        let f = pattern_flags(DEAD_CODE_PATTERN, ls);
        push_flagged(
            &mut issues,
            path,
            &f,
            Severity::Low,
            IssueCategory::Maintainability,
            "Dead code allowed",
            "Code marked as dead_code should be reviewed",
            "Remove unused code or document why it's needed",
        );
        issues
    }

    fn clone_in_loop_flags(ls: &Vec<Vec<char>>) -> (r: Vec<bool>)
        ensures
            r@ == clone_flags(line_views(ls@)),
    {
        let ghost lv = line_views(ls@);
        let mut r: Vec<bool> = Vec::new();
        let mut in_loop = false;
        let mut i: usize = 0;
        while i < ls.len()
            invariant
                i <= ls@.len(),
                lv == line_views(ls@),
                in_loop == loop_state(lv, i as int),
                r@ == clone_flags(lv).take(i as int),
            decreases ls.len() - i,
        {
            let line = &ls[i];
            if contains_str(line, "for ") || contains_str(line, "while ") || contains_str(
                line,
                "loop {",
            ) {
                in_loop = true;
            }
            if in_loop && contains_str(line, "}") {
                in_loop = false;
            }
            r.push(in_loop && contains_str(line, ".clone()"));
            i = i + 1;
            assert(r@ =~= clone_flags(lv).take(i as int));
        }
        assert(r@ =~= clone_flags(lv));
        r
    }

    /// Detect JavaScript/TypeScript-specific issues.
    fn detect_js_issues(path: &str, ls: &Vec<Vec<char>>) -> (r: Vec<Issue>)
        ensures
            views(r@) == js_issues(path@, line_views(ls@)),
    {
        let mut issues: Vec<Issue> = Vec::new();
        let m = pattern_flags(CONSOLE_PATTERN, ls);
        let f = clear_if_test_path(&m, path);
        push_flagged(
            &mut issues,
            path,
            &f,
            Severity::Low,
            IssueCategory::CodeQuality,
            "Console statement found",
            "Console statements should not be in production code",
            "Remove or replace with proper logging",
        );
        let pc = to_chars(path);
        let ghost mid = views(issues@);
        if ends_with_str(&pc, ".ts") || ends_with_str(&pc, ".tsx") {
            let f = pattern_flags(ANY_TYPE_PATTERN, ls);
            push_flagged(
                &mut issues,
                path,
                &f,
                Severity::Medium,
                IssueCategory::CodeQuality,
                "Usage of 'any' type",
                "Using 'any' defeats TypeScript's type safety",
                "Define proper types or use 'unknown' if type is truly unknown",
            );
        } else {
            assert(views(issues@) =~= mid + Seq::<IssueView>::empty());
        }
        let f = Self::callback_nesting_flags(ls);
        push_flagged(
            &mut issues,
            path,
            &f,
            Severity::Medium,
            IssueCategory::Maintainability,
            "Potential callback nesting",
            "Deeply nested callbacks reduce readability",
            "Consider using async/await or breaking into separate functions",
        );
        issues
    }

    fn callback_nesting_flags(ls: &Vec<Vec<char>>) -> (r: Vec<bool>)
        ensures
            r@ == callback_flags(line_views(ls@)),
    {
        let counts = find_count_each(CALLBACK_PATTERN, ls);
        let ghost lv = line_views(ls@);
        let mut r: Vec<bool> = Vec::new();
        let mut i: usize = 0;
        while i < ls.len()
            invariant
                i <= ls@.len(),
                lv == line_views(ls@),
                counts is Some <==> regex_compiles(CALLBACK_PATTERN@),
                counts matches Some(v) ==> v@.len() == ls@.len() && forall|k: int|
                    0 <= k < v@.len() ==> v@[k] == regex_find_count(
                        CALLBACK_PATTERN@,
                        #[trigger] ls@[k]@,
                    ),
                r@ == callback_flags(lv).take(i as int),
            decreases ls.len() - i,
        {
            let b = match &counts {
                Some(v) => v[i] >= 3,
                None => false,
            };
            r.push(b);
            i = i + 1;
            assert(r@ =~= callback_flags(lv).take(i as int));
        }
        assert(r@ =~= callback_flags(lv));
        r
    }

    /// Detect Python-specific issues.
    fn detect_python_issues(path: &str, ls: &Vec<Vec<char>>) -> (r: Vec<Issue>)
        ensures
            views(r@) == python_issues(path@, line_views(ls@)),
    {
        let mut issues: Vec<Issue> = Vec::new();
        let f = pattern_flags(BARE_EXCEPT_PATTERN, ls);
        push_flagged(
            &mut issues,
            path,
            &f,
            Severity::Medium,
            IssueCategory::BestPractice,
            "Bare except clause",
            "Catching all exceptions can hide bugs",
            "Specify the exception type(s) to catch",
        );
        let m = pattern_flags(PRINT_PATTERN, ls);
        let f = clear_if_test_path(&m, path);
        push_flagged(
            &mut issues,
            path,
            &f,
            Severity::Low,
            IssueCategory::BestPractice,
            "Print statement found",
            "Print statements should be replaced with proper logging",
            "Use the logging module instead",
        );
        issues
    }

    /// Detect Go-specific issues.
    fn detect_go_issues(path: &str, ls: &Vec<Vec<char>>) -> (r: Vec<Issue>)
        ensures
            views(r@) == go_issues(path@, line_views(ls@)),
    {
        let mut issues: Vec<Issue> = Vec::new();
        let f = pattern_flags(IGNORED_ERROR_PATTERN, ls);
        push_flagged(
            &mut issues,
            path,
            &f,
            Severity::High,
            IssueCategory::CodeQuality,
            "Error ignored",
            "Errors should be handled, not discarded",
            "Handle the error appropriately or use a linter to enforce error handling",
        );
        let m = pattern_flags(FMT_PRINT_PATTERN, ls);
        let f = clear_if_test_path(&m, path);
        push_flagged(
            &mut issues,
            path,
            &f,
            Severity::Low,
            IssueCategory::BestPractice,
            "fmt.Print usage",
            "Consider using log package for production code",
            "Replace with log.Print or a structured logger",
        );
        issues
    }
}

} // verus!
