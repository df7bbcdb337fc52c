//! Health reports: the Markdown report and the single-file HTML dashboard.

use vstd::prelude::*;
use crate::analysis::{
    count_severity, severity_count, table_views, CodebaseAnalysis, LanguageStats,
};
use crate::complexity::string_views;
use crate::issues::{views, Issue, IssueCategory, IssueView, Severity};
use crate::regex_support::opt_string;
use crate::text::{decimal, extend_chars, extend_str, from_chars, push_decimal};

verus! {

/// Markdown report generator.
pub struct MarkdownReporter;

/// JSON report generator (the JSON text is produced by serialization).
pub struct JsonReporter;

/// Single-file HTML dashboard generator.
pub struct HtmlReporter;

// ---------------------------------------------------------------------------
// Specification of the Markdown report
// ---------------------------------------------------------------------------

/// Decimal text of a count.
pub open spec fn dec(n: int) -> Seq<char> {
    decimal(n as nat)
}

/// The badge color of a health score.
pub open spec fn score_color(s: u8) -> Seq<char> {
    if 90 <= s <= 100 {
        "brightgreen"@
    } else if 70 <= s <= 89 {
        "green"@
    } else if 50 <= s <= 69 {
        "yellow"@
    } else if 30 <= s <= 49 {
        "orange"@
    } else {
        "red"@
    }
}

pub open spec fn md_header(a: CodebaseAnalysis) -> Seq<char> {
    "# Codebase Health Report\n\n"@ + "**Project:** `"@ + a.root_path@ + "`\n\n"@
        + "**Analyzed:** "@ + a.analyzed_at@ + "\n\n"@
        + "![Health Score](https://img.shields.io/badge/Health%20Score-"@ + dec(
        a.health_score as int,
    ) + "%25-"@ + score_color(a.health_score) + ")\n\n"@
}

pub open spec fn md_summary(a: CodebaseAnalysis) -> Seq<char> {
    "## Summary\n\n"@ + "| Metric | Value |\n"@ + "|--------|-------|\n"@ + "| Total Files | "@
        + dec(a.total_stats.total_files as int) + " |\n"@ + "| Total Lines | "@ + dec(
        a.total_stats.total_lines as int,
    ) + " |\n"@ + "| Code Lines | "@ + dec(a.total_stats.code_lines as int) + " |\n"@
        + "| Comment Lines | "@ + dec(a.total_stats.comment_lines as int) + " |\n"@
        + "| Test Files | "@ + dec(a.total_stats.test_files as int) + " |\n"@ + "| Health Score | "@
        + dec(a.health_score as int) + "/100 |\n"@ + "\n"@
}

/// `t` with `x` placed after every entry with at least as many code lines.
pub open spec fn insert_desc(t: Seq<(Seq<char>, LanguageStats)>, x: (Seq<char>, LanguageStats)) -> Seq<
    (Seq<char>, LanguageStats),
>
    decreases t.len(),
{
    if t.len() == 0 {
        seq![x]
    } else if t[0].1.code_lines < x.1.code_lines {
        seq![x] + t
    } else {
        seq![t[0]] + insert_desc(t.drop_first(), x)
    }
}

/// The language table ordered by code lines, most first; entries with
/// equal counts keep their order.
pub open spec fn sort_desc(t: Seq<(Seq<char>, LanguageStats)>) -> Seq<(Seq<char>, LanguageStats)>
    decreases t.len(),
{
    if t.len() == 0 {
        Seq::empty()
    } else {
        insert_desc(sort_desc(t.drop_last()), t.last())
    }
}

pub open spec fn lang_row(e: (Seq<char>, LanguageStats)) -> Seq<char> {
    "| "@ + e.0 + " | "@ + dec(e.1.file_count as int) + " | "@ + dec(e.1.total_lines as int)
        + " | "@ + dec(e.1.code_lines as int) + " | "@ + dec(e.1.comment_lines as int) + " |\n"@
}

pub open spec fn lang_rows(t: Seq<(Seq<char>, LanguageStats)>) -> Seq<char>
    decreases t.len(),
{
    if t.len() == 0 {
        Seq::empty()
    } else {
        lang_rows(t.drop_last()) + lang_row(t.last())
    }
}

pub open spec fn md_languages(a: CodebaseAnalysis) -> Seq<char> {
    "## Language Breakdown\n\n"@ + "| Language | Files | Lines | Code | Comments |\n"@
        + "|----------|-------|-------|------|----------|\n"@ + lang_rows(
        sort_desc(table_views(a.file_stats@)),
    ) + "\n"@
}

/// One Markdown bullet per text, in code style.
pub open spec fn code_bullets(v: Seq<Seq<char>>) -> Seq<char>
    decreases v.len(),
{
    if v.len() == 0 {
        Seq::empty()
    } else {
        code_bullets(v.drop_last()) + "- `"@ + v.last() + "`\n"@
    }
}

pub open spec fn cx_head(a: CodebaseAnalysis, avg: Seq<char>) -> Seq<char> {
    "## Complexity Analysis\n\n"@ + "- **Functions Analyzed:** "@ + dec(
        a.complexity.total_functions as int,
    ) + "\n"@ + "- **Average Complexity:** "@ + avg + "\n"@ + "- **Max Complexity:** "@ + dec(
        a.complexity.max_complexity as int,
    ) + "\n"@
}

pub open spec fn cx_location(a: CodebaseAnalysis) -> Seq<char> {
    match opt_string(a.complexity.max_complexity_function) {
        Some(f) => "  - Location: `"@ + f + "`\n"@,
        None => Seq::empty(),
    }
}

/// A titled bullet list, present when the list is not empty.
pub open spec fn titled_bullets(title: Seq<char>, v: Seq<Seq<char>>) -> Seq<char> {
    if v.len() > 0 {
        title + code_bullets(v) + "\n"@
    } else {
        Seq::empty()
    }
}

pub open spec fn md_complexity(a: CodebaseAnalysis, avg: Seq<char>) -> Seq<char> {
    cx_head(a, avg) + cx_location(a) + "\n"@ + titled_bullets(
        "### Long Functions (>50 lines)\n\n"@,
        string_views(a.complexity.long_functions@),
    ) + titled_bullets(
        "### Deeply Nested Functions (>4 levels)\n\n"@,
        string_views(a.complexity.deeply_nested@),
    )
}

/// The Markdown section of one issue.
pub open spec fn issue_md(i: IssueView) -> Seq<char> {
    "#### "@ + i.title + "\n\n"@ + "- **File:** `"@ + i.file + "`"@ + match i.line {
        Some(l) => ":L"@ + dec(l as int),
        None => Seq::empty(),
    } + "\n"@ + (if i.description.len() > 0 {
        "- **Description:** "@ + i.description + "\n"@
    } else {
        Seq::empty()
    }) + "- **Suggestion:** "@ + i.suggestion + "\n\n"@
}

/// The issues of severity `s`, in order.
pub open spec fn of_severity(v: Seq<IssueView>, s: Severity) -> Seq<IssueView>
    decreases v.len(),
{
    if v.len() == 0 {
        Seq::empty()
    } else {
        of_severity(v.drop_last(), s) + if v.last().severity == s {
            seq![v.last()]
        } else {
            Seq::empty()
        }
    }
}

/// The sections of the issues, in order.
pub open spec fn issues_md(v: Seq<IssueView>) -> Seq<char>
    decreases v.len(),
{
    if v.len() == 0 {
        Seq::empty()
    } else {
        issues_md(v.drop_last()) + issue_md(v.last())
    }
}

/// At most the first `n` elements of `v`.
pub open spec fn at_most<T>(v: Seq<T>, n: int) -> Seq<T> {
    if v.len() <= n {
        v
    } else {
        v.take(n)
    }
}

/// The number of issues in category `c`.
pub open spec fn category_count(v: Seq<IssueView>, c: IssueCategory) -> nat
    decreases v.len(),
{
    if v.len() == 0 {
        0
    } else {
        category_count(v.drop_last(), c) + if v.last().category == c {
            1nat
        } else {
            0nat
        }
    }
}

/// The category table row of `c`, present when it has issues.
pub open spec fn category_row(v: Seq<IssueView>, c: IssueCategory, name: Seq<char>) -> Seq<char> {
    if category_count(v, c) > 0 {
        "| "@ + name + " | "@ + dec(category_count(v, c) as int) + " |\n"@
    } else {
        Seq::empty()
    }
}

/// The number of issues of severity `s` in an analysis.
pub open spec fn sev_count(a: CodebaseAnalysis, s: Severity) -> nat {
    severity_count(views(a.issues@), s, a.issues@.len() as int)
}

pub open spec fn issue_counts(a: CodebaseAnalysis) -> Seq<char> {
    "## Issues\n\n"@ + "| Severity | Count |\n|----------|-------|\n| Critical | "@ + dec(
        sev_count(a, Severity::Critical) as int,
    ) + " |\n| High | "@ + dec(sev_count(a, Severity::High) as int) + " |\n| Medium | "@ + dec(
        sev_count(a, Severity::Medium) as int,
    ) + " |\n| Low | "@ + dec(sev_count(a, Severity::Low) as int) + " |\n\n"@
}

/// All issues of severity `s` under a title, present when there are some.
pub open spec fn severity_section(a: CodebaseAnalysis, s: Severity, title: Seq<char>) -> Seq<char> {
    if sev_count(a, s) > 0 {
        title + issues_md(of_severity(views(a.issues@), s))
    } else {
        Seq::empty()
    }
}

/// The first ten medium issues, and how many more there are.
pub open spec fn medium_section(a: CodebaseAnalysis) -> Seq<char> {
    let m = sev_count(a, Severity::Medium);
    if m > 0 {
        "### Medium Priority Issues\n\n"@ + issues_md(
            at_most(of_severity(views(a.issues@), Severity::Medium), 10),
        ) + if m > 10 {
            "\n*...and "@ + dec(m - 10) + " more medium priority issues*\n\n"@
        } else {
            Seq::empty()
        }
    } else {
        Seq::empty()
    }
}

/// The number of low-priority issues, when there are some.
pub open spec fn low_section(a: CodebaseAnalysis) -> Seq<char> {
    let l = sev_count(a, Severity::Low);
    if l > 0 {
        "### Low Priority Issues\n\n"@ + "*"@ + dec(l as int)
            + " low priority issues found. Run with `--format json` for full details.*\n\n"@
    } else {
        Seq::empty()
    }
}

pub open spec fn category_table(a: CodebaseAnalysis) -> Seq<char> {
    let v = views(a.issues@);
    "### Issues by Category\n\n"@ + "| Category | Count |\n|----------|-------|\n"@
        + category_row(v, IssueCategory::Security, "Security"@) + category_row(
        v,
        IssueCategory::CodeQuality,
        "Code Quality"@,
    ) + category_row(v, IssueCategory::Performance, "Performance"@) + category_row(
        v,
        IssueCategory::Maintainability,
        "Maintainability"@,
    ) + category_row(v, IssueCategory::Documentation, "Documentation"@) + category_row(
        v,
        IssueCategory::Testing,
        "Testing"@,
    ) + category_row(v, IssueCategory::BestPractice, "Best Practice"@) + "\n"@
}

pub open spec fn md_issues(a: CodebaseAnalysis) -> Seq<char> {
    issue_counts(a) + severity_section(a, Severity::Critical, "### Critical Issues\n\n"@)
        + severity_section(a, Severity::High, "### High Priority Issues\n\n"@) + medium_section(a)
        + low_section(a) + category_table(a)
}

/// `num / max(den, 1)` is below one tenth.
pub open spec fn below_tenth(num: int, den: int) -> bool {
    10 * num < if den > 1 {
        den
    } else {
        1
    }
}

/// `t` when `b` holds, else nothing.
pub open spec fn when(b: bool, t: Seq<char>) -> Seq<char> {
    if b {
        t
    } else {
        Seq::empty()
    }
}

/// The numbered recommendations of an analysis below 90 points.
pub open spec fn rec_items(a: CodebaseAnalysis) -> Seq<char> {
    when(sev_count(a, Severity::Critical) > 0, REC_CRITICAL@) + when(
        a.complexity.total_functions > 0 && a.complexity.complexity_sum > 10
            * a.complexity.total_functions,
        REC_COMPLEXITY@,
    ) + when(
        below_tenth(a.total_stats.comment_lines as int, a.total_stats.total_lines as int),
        REC_DOCS@,
    ) + when(below_tenth(a.total_stats.test_files as int, a.total_stats.total_files as int), REC_TESTS@)
        + when(a.complexity.long_functions@.len() > 0, REC_LONG@)
}

pub open spec fn md_recommendations(a: CodebaseAnalysis) -> Seq<char> {
    "## Recommendations\n\n"@ + if a.health_score >= 90 {
        "Excellent codebase health! Keep up the good work.\n\n"@
    } else {
        rec_items(a)
    }
}

pub const REC_CRITICAL: &'static str = "1. **Address critical issues immediately** - Security vulnerabilities and critical bugs should be fixed first.\n";

pub const REC_COMPLEXITY: &'static str = "2. **Reduce code complexity** - Consider refactoring functions with high cyclomatic complexity.\n";

pub const REC_DOCS: &'static str = "3. **Add documentation** - Comment coverage is below 10%. Add documentation for complex logic.\n";

pub const REC_TESTS: &'static str = "4. **Increase test coverage** - Test file ratio is low. Add more unit tests.\n";

pub const REC_LONG: &'static str = "5. **Break down long functions** - Split functions longer than 50 lines into smaller, focused functions.\n";

/// The Markdown report of an analysis, whose average complexity is
/// rendered as `avg`.
pub open spec fn markdown_report(a: CodebaseAnalysis, avg: Seq<char>) -> Seq<char> {
    md_header(a) + md_summary(a) + md_languages(a) + md_complexity(a, avg) + md_issues(a)
        + md_recommendations(a) + "\n---\n\n"@ + "*Generated by codebase-health*\n"@
}

proof fn lemma_concat_frame(p: Seq<char>, hr: Seq<char>, mid: Seq<char>, f: Seq<char>)
    ensures
        crate::text::has_prefix(p + hr + mid + f, p),
        crate::text::has_suffix(p + hr + mid + f, f),
{
    let r = p + hr + mid + f;
    assert(r.subrange(0, p.len() as int) =~= p);
    assert(r.subrange(r.len() - f.len(), r.len() as int) =~= f);
}

proof fn lemma_header_title(a: CodebaseAnalysis)
    ensures
        md_header(a) =~= "# Codebase Health Report\n\n"@ + md_header(a).skip(
            "# Codebase Health Report\n\n"@.len() as int,
        ),
{
}

proof fn lemma_sub_in_middle(x: Seq<char>, m: Seq<char>, y: Seq<char>)
    ensures
        crate::text::has_sub(x + m + y, m),
{
    let r = x + m + y;
    assert(r.subrange(x.len() as int, (x.len() + m.len()) as int) =~= m);
    assert(crate::text::occurs_at(r, m, x.len() as int));
}

proof fn lemma_three_parts(
    b: Seq<char>,
    c: Seq<char>,
    h: Seq<char>,
    m: Seq<char>,
    l: Seq<char>,
    r: Seq<char>,
)
    ensures
        crate::text::has_sub(b + c + h + m + l + r, c),
        crate::text::has_sub(b + c + h + m + l + r, h),
        crate::text::has_sub(b + c + h + m + l + r, l),
{
    let all = b + c + h + m + l + r;
    assert(all =~= b + c + (h + m + l + r));
    lemma_sub_in_middle(b, c, h + m + l + r);
    assert(all =~= (b + c) + h + (m + l + r));
    lemma_sub_in_middle(b + c, h, m + l + r);
    assert(all =~= (b + c + h + m) + l + r);
    lemma_sub_in_middle(b + c + h + m, l, r);
}

/// The Markdown report lists every Critical and every High issue, in the
/// order of the analysis, each under its section's title, and states the
/// number of Low issues (without listing them) when there are some.
pub proof fn lemma_markdown_report_lists_issues(a: CodebaseAnalysis, avg: Seq<char>)
    ensures
        sev_count(a, Severity::Critical) > 0 ==> crate::text::has_sub(
            markdown_report(a, avg),
            "### Critical Issues\n\n"@ + issues_md(of_severity(views(a.issues@), Severity::Critical)),
        ),
        sev_count(a, Severity::High) > 0 ==> crate::text::has_sub(
            markdown_report(a, avg),
            "### High Priority Issues\n\n"@ + issues_md(of_severity(views(a.issues@), Severity::High)),
        ),
        sev_count(a, Severity::Low) > 0 ==> crate::text::has_sub(
            markdown_report(a, avg),
            low_section(a),
        ),
        low_section(a).len() > 0 <==> sev_count(a, Severity::Low) > 0,
{
    let b = md_header(a) + md_summary(a) + md_languages(a) + md_complexity(a, avg) + issue_counts(a);
    let cs = severity_section(a, Severity::Critical, "### Critical Issues\n\n"@);
    let hs = severity_section(a, Severity::High, "### High Priority Issues\n\n"@);
    let ms = medium_section(a);
    let ls = low_section(a);
    let r = category_table(a) + md_recommendations(a) + "\n---\n\n"@
        + "*Generated by codebase-health*\n"@;
    assert(markdown_report(a, avg) =~= b + cs + hs + ms + ls + r);
    lemma_three_parts(b, cs, hs, ms, ls, r);
}

/// Every Markdown report opens with its title and closes with its footer.
pub proof fn lemma_markdown_report_frame(a: CodebaseAnalysis, avg: Seq<char>)
    ensures
        crate::text::has_prefix(markdown_report(a, avg), "# Codebase Health Report\n\n"@),
        crate::text::has_suffix(
            markdown_report(a, avg),
            "\n---\n\n"@ + "*Generated by codebase-health*\n"@,
        ),
{
    let p = "# Codebase Health Report\n\n"@;
    let f = "\n---\n\n"@ + "*Generated by codebase-health*\n"@;
    let h = md_header(a);
    lemma_header_title(a);
    let hr = h.skip(p.len() as int);
    let mid = md_summary(a) + md_languages(a) + md_complexity(a, avg) + md_issues(a)
        + md_recommendations(a);
    assert(markdown_report(a, avg) =~= p + hr + mid + f);
    lemma_concat_frame(p, hr, mid, f);
}

// ---------------------------------------------------------------------------
// Executable report
// ---------------------------------------------------------------------------

fn push_count(out: &mut Vec<char>, n: usize)
    ensures
        final(out)@ == old(out)@ + dec(n as int),
{
    push_decimal(out, n as u128);
}

/// The badge color of a health score.
pub fn score_color_of(s: u8) -> (r: &'static str)
    ensures
        r@ == score_color(s),
{
    if 90 <= s && s <= 100 {
        "brightgreen"
    } else if 70 <= s && s <= 89 {
        "green"
    } else if 50 <= s && s <= 69 {
        "yellow"
    } else if 30 <= s && s <= 49 {
        "orange"
    } else {
        "red"
    }
}

proof fn lemma_insert_desc_at(t: Seq<(Seq<char>, LanguageStats)>, x: (Seq<char>, LanguageStats), p: int)
    requires
        0 <= p <= t.len(),
        forall|j: int| 0 <= j < p ==> t[j].1.code_lines >= x.1.code_lines,
        p < t.len() ==> t[p].1.code_lines < x.1.code_lines,
    ensures
        insert_desc(t, x) == t.insert(p, x),
    decreases t.len(),
{
    if t.len() > 0 {
        if p > 0 {
            lemma_insert_desc_at(t.drop_first(), x, p - 1);
            assert(insert_desc(t, x) =~= t.insert(p, x));
        } else {
            assert(insert_desc(t, x) =~= t.insert(p, x));
        }
    } else {
        assert(insert_desc(t, x) =~= t.insert(p, x));
    }
}

/// The language table ordered by code lines, most first (stable).
pub fn sort_by_code_lines(table: &Vec<(String, LanguageStats)>) -> (r: Vec<(String, LanguageStats)>)
    ensures
        table_views(r@) == sort_desc(table_views(table@)),
{
    let ghost t = table_views(table@);
    let mut r: Vec<(String, LanguageStats)> = Vec::new();
    let mut i: usize = 0;
    assert(t.take(0) =~= Seq::<(Seq<char>, LanguageStats)>::empty());
    while i < table.len()
        invariant
            i <= table@.len(),
            t == table_views(table@),
            table_views(r@) == sort_desc(t.take(i as int)),
            r@.len() == i,
        decreases table.len() - i,
    {
        let x = (table[i].0.clone(), table[i].1);
        let ghost xv = (x.0@, x.1);
        let ghost rv = table_views(r@);
        let mut p: usize = 0;
        while p < r.len() && r[p].1.code_lines >= x.1.code_lines
            invariant
                p <= r@.len(),
                rv == table_views(r@),
                xv == (x.0@, x.1),
                forall|j: int| 0 <= j < p ==> rv[j].1.code_lines >= xv.1.code_lines,
            decreases r.len() - p,
        {
            p = p + 1;
        }
        proof {
            lemma_insert_desc_at(rv, xv, p as int);
            assert(t.take(i + 1).drop_last() =~= t.take(i as int));
            assert(t.take(i + 1).last() == xv);
        }
        let ghost before = r@;
        r.insert(p, x);
        assert(table_views(r@) =~= rv.insert(p as int, xv));
        i = i + 1;
    }
    assert(t.take(table@.len() as int) =~= t);
    r
}

impl MarkdownReporter {
    /// Generate the Markdown report. `average_complexity` is the rendered
    /// average complexity (two decimals).
    pub fn generate(analysis: &CodebaseAnalysis, average_complexity: &str) -> (r: String)
        ensures
            r@ == markdown_report(*analysis, average_complexity@),
    {
        let mut out: Vec<char> = Vec::new();
        Self::push_header(&mut out, analysis);
        Self::push_summary(&mut out, analysis);
        Self::push_languages(&mut out, analysis);
        Self::push_complexity(&mut out, analysis, average_complexity);
        Self::push_issues(&mut out, analysis);
        Self::push_recommendations(&mut out, analysis);
        extend_str(&mut out, "\n---\n\n");
        extend_str(&mut out, "*Generated by codebase-health*\n");
        assert(out@ =~= markdown_report(*analysis, average_complexity@));
        from_chars(&out)
    }

    fn push_header(out: &mut Vec<char>, a: &CodebaseAnalysis)
        ensures
            final(out)@ == old(out)@ + md_header(*a),
    {
        let ghost start = out@;
        extend_str(out, "# Codebase Health Report\n\n");
        extend_str(out, "**Project:** `");
        extend_str(out, a.root_path.as_str());
        extend_str(out, "`\n\n");
        extend_str(out, "**Analyzed:** ");
        extend_str(out, a.analyzed_at.as_str());
        extend_str(out, "\n\n");
        extend_str(out, "![Health Score](https://img.shields.io/badge/Health%20Score-");
        push_count(out, a.health_score as usize);
        extend_str(out, "%25-");
        extend_str(out, score_color_of(a.health_score));
        extend_str(out, ")\n\n");
        assert(out@ =~= start + md_header(*a));
    }

    fn push_summary(out: &mut Vec<char>, a: &CodebaseAnalysis)
        ensures
            final(out)@ == old(out)@ + md_summary(*a),
    {
        let ghost start = out@;
        extend_str(out, "## Summary\n\n");
        extend_str(out, "| Metric | Value |\n");
        extend_str(out, "|--------|-------|\n");
        extend_str(out, "| Total Files | ");
        push_count(out, a.total_stats.total_files);
        extend_str(out, " |\n");
        extend_str(out, "| Total Lines | ");
        push_count(out, a.total_stats.total_lines);
        extend_str(out, " |\n");
        extend_str(out, "| Code Lines | ");
        push_count(out, a.total_stats.code_lines);
        extend_str(out, " |\n");
        extend_str(out, "| Comment Lines | ");
        push_count(out, a.total_stats.comment_lines);
        extend_str(out, " |\n");
        extend_str(out, "| Test Files | ");
        push_count(out, a.total_stats.test_files);
        extend_str(out, " |\n");
        extend_str(out, "| Health Score | ");
        push_count(out, a.health_score as usize);
        extend_str(out, "/100 |\n");
        extend_str(out, "\n");
        assert(out@ =~= start + md_summary(*a));
    }

    fn push_languages(out: &mut Vec<char>, a: &CodebaseAnalysis)
        ensures
            final(out)@ == old(out)@ + md_languages(*a),
    {
        let ghost start = out@;
        extend_str(out, "## Language Breakdown\n\n");
        extend_str(out, "| Language | Files | Lines | Code | Comments |\n");
        extend_str(out, "|----------|-------|-------|------|----------|\n");
        let langs = sort_by_code_lines(&a.file_stats);
        let ghost sv = table_views(langs@);
        let ghost mid = out@;
        let mut i: usize = 0;
        assert(sv.take(0) =~= Seq::<(Seq<char>, LanguageStats)>::empty());
        while i < langs.len()
            invariant
                i <= langs@.len(),
                sv == table_views(langs@),
                out@ == mid + lang_rows(sv.take(i as int)),
            decreases langs.len() - i,
        {
            let ghost before = out@;
            let (lang, stats) = (&langs[i].0, &langs[i].1);
            extend_str(out, "| ");
            extend_str(out, lang.as_str());
            extend_str(out, " | ");
            push_count(out, stats.file_count);
            extend_str(out, " | ");
            push_count(out, stats.total_lines);
            extend_str(out, " | ");
            push_count(out, stats.code_lines);
            extend_str(out, " | ");
            push_count(out, stats.comment_lines);
            extend_str(out, " |\n");
            proof {
                assert(sv[i as int] == (lang@, *stats));
                assert(sv.take(i + 1).drop_last() =~= sv.take(i as int));
                assert(out@ =~= before + lang_row(sv[i as int]));
            }
            i = i + 1;
        }
        extend_str(out, "\n");
        assert(sv.take(langs@.len() as int) =~= sv);
        assert(out@ =~= start + md_languages(*a));
    }

    fn push_bullets(out: &mut Vec<char>, v: &Vec<String>)
        ensures
            final(out)@ == old(out)@ + code_bullets(string_views(v@)),
    {
        let ghost sv = string_views(v@);
        let ghost start = out@;
        let mut i: usize = 0;
        assert(sv.take(0) =~= Seq::<Seq<char>>::empty());
        while i < v.len()
            invariant
                i <= v@.len(),
                sv == string_views(v@),
                out@ == start + code_bullets(sv.take(i as int)),
            decreases v.len() - i,
        {
            let ghost before = out@;
            extend_str(out, "- `");
            extend_str(out, v[i].as_str());
            extend_str(out, "`\n");
            proof {
                assert(sv.take(i + 1).drop_last() =~= sv.take(i as int));
                assert(out@ =~= before + "- `"@ + sv[i as int] + "`\n"@);
            }
            i = i + 1;
        }
        assert(sv.take(v@.len() as int) =~= sv);
    }

    fn push_cx_head(out: &mut Vec<char>, a: &CodebaseAnalysis, avg: &str)
        ensures
            final(out)@ == old(out)@ + cx_head(*a, avg@),
    {
        let ghost start = out@;
        extend_str(out, "## Complexity Analysis\n\n");
        extend_str(out, "- **Functions Analyzed:** ");
        push_count(out, a.complexity.total_functions);
        extend_str(out, "\n");
        extend_str(out, "- **Average Complexity:** ");
        extend_str(out, avg);
        extend_str(out, "\n");
        extend_str(out, "- **Max Complexity:** ");
        push_count(out, a.complexity.max_complexity);
        extend_str(out, "\n");
        assert(out@ =~= start + cx_head(*a, avg@));
    }

    fn push_cx_location(out: &mut Vec<char>, a: &CodebaseAnalysis)
        ensures
            final(out)@ == old(out)@ + cx_location(*a),
    {
        let ghost start = out@;
        match &a.complexity.max_complexity_function {
            Some(f) => {
                extend_str(out, "  - Location: `");
                extend_str(out, f.as_str());
                extend_str(out, "`\n");
            },
            None => {},
        }
        assert(out@ =~= start + cx_location(*a));
    }

    fn push_titled_bullets(out: &mut Vec<char>, title: &str, v: &Vec<String>)
        ensures
            final(out)@ == old(out)@ + titled_bullets(title@, string_views(v@)),
    {
        let ghost start = out@;
        if v.len() > 0 {
            extend_str(out, title);
            Self::push_bullets(out, v);
            extend_str(out, "\n");
        }
        assert(out@ =~= start + titled_bullets(title@, string_views(v@)));
    }

    fn push_complexity(out: &mut Vec<char>, a: &CodebaseAnalysis, avg: &str)
        ensures
            final(out)@ == old(out)@ + md_complexity(*a, avg@),
    {
        let ghost start = out@;
        Self::push_cx_head(out, a, avg);
        Self::push_cx_location(out, a);
        extend_str(out, "\n");
        Self::push_titled_bullets(out, "### Long Functions (>50 lines)\n\n", &a.complexity.long_functions);
        Self::push_titled_bullets(
            out,
            "### Deeply Nested Functions (>4 levels)\n\n",
            &a.complexity.deeply_nested,
        );
        assert(out@ =~= start + md_complexity(*a, avg@));
    }

    /// Format one issue.
    fn format_issue(issue: &Issue) -> (r: Vec<char>)
        ensures
            r@ == issue_md(issue@),
    {
        let mut s: Vec<char> = Vec::new();
        extend_str(&mut s, "#### ");
        extend_str(&mut s, issue.title.as_str());
        extend_str(&mut s, "\n\n");
        extend_str(&mut s, "- **File:** `");
        extend_str(&mut s, issue.file.as_str());
        extend_str(&mut s, "`");
        match issue.line {
            Some(line) => {
                extend_str(&mut s, ":L");
                push_count(&mut s, line);
            },
            None => {},
        }
        extend_str(&mut s, "\n");
        if issue.description.as_str().is_empty() == false {
            extend_str(&mut s, "- **Description:** ");
            extend_str(&mut s, issue.description.as_str());
            extend_str(&mut s, "\n");
        }
        extend_str(&mut s, "- **Suggestion:** ");
        extend_str(&mut s, issue.suggestion.as_str());
        extend_str(&mut s, "\n\n");
        assert(s@ =~= issue_md(issue@));
        s
    }

    /// Appends the sections of the first `limit` issues of severity `sev`.
    fn push_issues_of(out: &mut Vec<char>, issues: &Vec<Issue>, sev: Severity, limit: usize)
        ensures
            final(out)@ == old(out)@ + issues_md(at_most(of_severity(views(issues@), sev), limit as int)),
    {
        let ghost v = views(issues@);
        let ghost start = out@;
        let mut seen: usize = 0;
        let mut i: usize = 0;
        assert(v.take(0) =~= Seq::<IssueView>::empty());
        while i < issues.len()
            invariant
                i <= issues@.len(),
                v == views(issues@),
                seen == of_severity(v.take(i as int), sev).len(),
                seen <= i,
                out@ == start + issues_md(at_most(of_severity(v.take(i as int), sev), limit as int)),
            decreases issues.len() - i,
        {
            let ghost w = of_severity(v.take(i as int), sev);
            proof {
                assert(v.take(i + 1).drop_last() =~= v.take(i as int));
                assert(v.take(i + 1).last() == issues@[i as int]@);
            }
            if issues[i].severity == sev {
                if seen < limit {
                    let s = Self::format_issue(&issues[i]);
                    extend_chars(out, &s);
                    proof {
                        let w2 = w + seq![issues@[i as int]@];
                        assert(at_most(w2, limit as int) =~= w2);
                        assert(w2.drop_last() =~= w);
                        assert(at_most(w, limit as int) == w);
                    }
                } else {
                    proof {
                        let w2 = w + seq![issues@[i as int]@];
                        assert(at_most(w2, limit as int) =~= at_most(w, limit as int));
                    }
                }
                seen = seen + 1;
            } else {
                assert(of_severity(v.take(i + 1), sev) =~= w);
            }
            i = i + 1;
        }
        assert(v.take(issues@.len() as int) =~= v);
    }

    fn count_category(issues: &Vec<Issue>, c: IssueCategory) -> (n: usize)
        ensures
            n == category_count(views(issues@), c),
    {
        let ghost v = views(issues@);
        let mut n: usize = 0;
        let mut i: usize = 0;
        assert(v.take(0) =~= Seq::<IssueView>::empty());
        while i < issues.len()
            invariant
                i <= issues@.len(),
                v == views(issues@),
                n == category_count(v.take(i as int), c),
                n <= i,
            decreases issues.len() - i,
        {
            proof {
                assert(v.take(i + 1).drop_last() =~= v.take(i as int));
            }
            if issues[i].category == c {
                n = n + 1;
            }
            i = i + 1;
        }
        assert(v.take(issues@.len() as int) =~= v);
        n
    }

    fn push_category_row(out: &mut Vec<char>, issues: &Vec<Issue>, c: IssueCategory, name: &str)
        ensures
            final(out)@ == old(out)@ + category_row(views(issues@), c, name@),
    {
        let ghost start = out@;
        let count = Self::count_category(issues, c);
        if count > 0 {
            extend_str(out, "| ");
            extend_str(out, name);
            extend_str(out, " | ");
            push_count(out, count);
            extend_str(out, " |\n");
        }
        assert(out@ =~= start + category_row(views(issues@), c, name@));
    }

    fn push_issue_counts(out: &mut Vec<char>, a: &CodebaseAnalysis)
        ensures
            final(out)@ == old(out)@ + issue_counts(*a),
    {
        let ghost start = out@;
        let critical = count_severity(&a.issues, Severity::Critical);
        let high = count_severity(&a.issues, Severity::High);
        let medium = count_severity(&a.issues, Severity::Medium);
        let low = count_severity(&a.issues, Severity::Low);
        extend_str(out, "## Issues\n\n");
        extend_str(out, "| Severity | Count |\n|----------|-------|\n| Critical | ");
        push_count(out, critical);
        extend_str(out, " |\n| High | ");
        push_count(out, high);
        extend_str(out, " |\n| Medium | ");
        push_count(out, medium);
        extend_str(out, " |\n| Low | ");
        push_count(out, low);
        extend_str(out, " |\n\n");
        assert(out@ =~= start + issue_counts(*a));
    }

    fn push_severity_section(out: &mut Vec<char>, a: &CodebaseAnalysis, s: Severity, title: &str)
        ensures
            final(out)@ == old(out)@ + severity_section(*a, s, title@),
    {
        let ghost start = out@;
        let ghost v = views(a.issues@);
        let n = count_severity(&a.issues, s);
        proof {
            lemma_of_severity_len(v, s);
        }
        if n > 0 {
            extend_str(out, title);
            Self::push_issues_of(out, &a.issues, s, a.issues.len());
            assert(at_most(of_severity(v, s), a.issues@.len() as int) == of_severity(v, s));
        }
        assert(out@ =~= start + severity_section(*a, s, title@));
    }

    fn push_medium_section(out: &mut Vec<char>, a: &CodebaseAnalysis)
        ensures
            final(out)@ == old(out)@ + medium_section(*a),
    {
        let ghost start = out@;
        let medium = count_severity(&a.issues, Severity::Medium);
        if medium > 0 {
            extend_str(out, "### Medium Priority Issues\n\n");
            Self::push_issues_of(out, &a.issues, Severity::Medium, 10);
            if medium > 10 {
                extend_str(out, "\n*...and ");
                push_count(out, medium - 10);
                extend_str(out, " more medium priority issues*\n\n");
            }
        }
        assert(out@ =~= start + medium_section(*a));
    }

    fn push_low_section(out: &mut Vec<char>, a: &CodebaseAnalysis)
        ensures
            final(out)@ == old(out)@ + low_section(*a),
    {
        let ghost start = out@;
        let low = count_severity(&a.issues, Severity::Low);
        if low > 0 {
            extend_str(out, "### Low Priority Issues\n\n");
            extend_str(out, "*");
            push_count(out, low);
            extend_str(out, " low priority issues found. Run with `--format json` for full details.*\n\n");
        }
        assert(out@ =~= start + low_section(*a));
    }

    fn push_category_table(out: &mut Vec<char>, a: &CodebaseAnalysis)
        ensures
            final(out)@ == old(out)@ + category_table(*a),
    {
        let ghost start = out@;
        extend_str(out, "### Issues by Category\n\n");
        extend_str(out, "| Category | Count |\n|----------|-------|\n");
        Self::push_category_row(out, &a.issues, IssueCategory::Security, "Security");
        Self::push_category_row(out, &a.issues, IssueCategory::CodeQuality, "Code Quality");
        Self::push_category_row(out, &a.issues, IssueCategory::Performance, "Performance");
        Self::push_category_row(out, &a.issues, IssueCategory::Maintainability, "Maintainability");
        Self::push_category_row(out, &a.issues, IssueCategory::Documentation, "Documentation");
        Self::push_category_row(out, &a.issues, IssueCategory::Testing, "Testing");
        Self::push_category_row(out, &a.issues, IssueCategory::BestPractice, "Best Practice");
        extend_str(out, "\n");
        assert(out@ =~= start + category_table(*a));
    }

    fn push_issues(out: &mut Vec<char>, a: &CodebaseAnalysis)
        ensures
            final(out)@ == old(out)@ + md_issues(*a),
    {
        let ghost start = out@;
        Self::push_issue_counts(out, a);
        Self::push_severity_section(out, a, Severity::Critical, "### Critical Issues\n\n");
        Self::push_severity_section(out, a, Severity::High, "### High Priority Issues\n\n");
        Self::push_medium_section(out, a);
        Self::push_low_section(out, a);
        Self::push_category_table(out, a);
        assert(out@ =~= start + md_issues(*a));
    }

    fn push_when(out: &mut Vec<char>, b: bool, t: &str)
        ensures
            final(out)@ == old(out)@ + when(b, t@),
    {
        let ghost start = out@;
        if b {
            extend_str(out, t);
        }
        assert(out@ =~= start + when(b, t@));
    }

    fn push_rec_items(out: &mut Vec<char>, a: &CodebaseAnalysis)
        ensures
            final(out)@ == old(out)@ + rec_items(*a),
    {
        let ghost start = out@;
        let critical = count_severity(&a.issues, Severity::Critical);
        let b1 = critical > 0;
        let b2 = a.complexity.average_exceeds(10);
        let b3 = Self::below_tenth_exec(a.total_stats.comment_lines, a.total_stats.total_lines);
        let b4 = Self::below_tenth_exec(a.total_stats.test_files, a.total_stats.total_files);
        let b5 = a.complexity.long_functions.len() > 0;
        Self::push_when(out, b1, REC_CRITICAL);
        let ghost s1 = out@;
        Self::push_when(out, b2, REC_COMPLEXITY);
        let ghost s2 = out@;
        Self::push_when(out, b3, REC_DOCS);
        let ghost s3 = out@;
        Self::push_when(out, b4, REC_TESTS);
        let ghost s4 = out@;
        Self::push_when(out, b5, REC_LONG);
        assert(out@ =~= start + when(b1, REC_CRITICAL@) + when(b2, REC_COMPLEXITY@) + when(
            b3,
            REC_DOCS@,
        ) + when(b4, REC_TESTS@) + when(b5, REC_LONG@));
    }

    fn below_tenth_exec(num: usize, den: usize) -> (b: bool)
        ensures
            b == below_tenth(num as int, den as int),
    {
        let d = if den > 1 {
            den
        } else {
            1
        };
        (num as u128) * 10 < d as u128
    }

    fn push_recommendations(out: &mut Vec<char>, a: &CodebaseAnalysis)
        ensures
            final(out)@ == old(out)@ + md_recommendations(*a),
    {
        let ghost start = out@;
        extend_str(out, "## Recommendations\n\n");
        if a.health_score >= 90 {
            extend_str(out, "Excellent codebase health! Keep up the good work.\n\n");
        } else {
            Self::push_rec_items(out, a);
        }
        assert(out@ =~= start + md_recommendations(*a));
    }
}

/// The number of issues of a severity is the length of their list.
proof fn lemma_of_severity_len(v: Seq<IssueView>, s: Severity)
    ensures
        of_severity(v, s).len() == severity_count(v, s, v.len() as int),
        of_severity(v, s).len() <= v.len(),
    decreases v.len(),
{
    if v.len() > 0 {
        lemma_of_severity_len(v.drop_last(), s);
        lemma_severity_count_prefix(v, s, v.len() - 1);
    }
}

proof fn lemma_severity_count_prefix(v: Seq<IssueView>, s: Severity, n: int)
    requires
        0 <= n <= v.len(),
    ensures
        n < v.len() ==> severity_count(v, s, n) == severity_count(v.drop_last(), s, n),
    decreases n,
{
    if n > 0 {
        lemma_severity_count_prefix(v, s, n - 1);
    }
}


/// The HTML dashboard before the embedded analysis data.
pub const HTML_HEAD: &'static str = r##"<!DOCTYPE html>
<html lang="ja">
<head>
    <meta charset="UTF-8">
    <meta name="viewport" content="width=device-width, initial-scale=1.0">
    <title>Codebase Health Dashboard</title>
    <style>
        * { margin: 0; padding: 0; box-sizing: border-box; }
        body {
            font-family: -apple-system, BlinkMacSystemFont, 'Segoe UI', Roboto, sans-serif;
            background: #0f172a; color: #e2e8f0; line-height: 1.6;
        }
        .container { max-width: 1200px; margin: 0 auto; padding: 20px; }
        h1 { font-size: 1.8rem; margin-bottom: 10px; }
        h2 { font-size: 1.3rem; margin: 20px 0 10px; color: #94a3b8; }
        h3 { font-size: 1.1rem; margin: 15px 0 8px; }

        .header {
            background: linear-gradient(135deg, #1e293b 0%, #334155 100%);
            padding: 30px; border-radius: 12px; margin-bottom: 20px;
        }
        .header-info { color: #94a3b8; font-size: 0.9rem; }

        .score-card {
            display: inline-flex; align-items: center; gap: 15px;
            background: #1e293b; padding: 20px 30px; border-radius: 12px;
            margin-top: 15px;
        }
        .score { font-size: 3rem; font-weight: bold; }
        .score.excellent { color: #22c55e; }
        .score.good { color: #84cc16; }
        .score.warning { color: #eab308; }
        .score.poor { color: #f97316; }
        .score.critical { color: #ef4444; }
        .score-label { color: #94a3b8; }

        .grid { display: grid; grid-template-columns: repeat(auto-fit, minmax(280px, 1fr)); gap: 20px; }
        .card {
            background: #1e293b; border-radius: 12px; padding: 20px;
            border: 1px solid #334155;
        }
        .card-title { font-size: 0.85rem; color: #64748b; text-transform: uppercase; margin-bottom: 10px; }
        .card-value { font-size: 2rem; font-weight: bold; }
        .card-sub { font-size: 0.85rem; color: #94a3b8; margin-top: 5px; }

        .stats-row { display: flex; gap: 10px; flex-wrap: wrap; margin-top: 10px; }
        .stat { background: #334155; padding: 8px 12px; border-radius: 6px; font-size: 0.85rem; }

        .lang-bar { height: 8px; background: #334155; border-radius: 4px; overflow: hidden; display: flex; margin: 10px 0; }
        .lang-segment { height: 100%; }
        .lang-legend { display: flex; flex-wrap: wrap; gap: 10px; font-size: 0.8rem; }
        .lang-item { display: flex; align-items: center; gap: 5px; }
        .lang-dot { width: 10px; height: 10px; border-radius: 50%; }

        .issue-list { max-height: 400px; overflow-y: auto; }
        .issue {
            background: #334155; padding: 12px; border-radius: 8px; margin-bottom: 8px;
            border-left: 3px solid;
        }
        .issue.critical { border-color: #ef4444; }
        .issue.high { border-color: #f97316; }
        .issue.medium { border-color: #eab308; }
        .issue.low { border-color: #22c55e; }
        .issue-title { font-weight: 600; margin-bottom: 4px; display: flex; justify-content: space-between; align-items: center; }
        .issue-file { font-size: 0.8rem; color: #94a3b8; font-family: monospace; }
        .issue-desc { font-size: 0.85rem; color: #cbd5e1; margin-top: 5px; }
        .issue-actions { display: flex; gap: 8px; margin-top: 8px; }
        .copy-btn {
            background: #3b82f6; color: white; border: none;
            padding: 6px 12px; border-radius: 6px; cursor: pointer;
            font-size: 0.8rem; font-weight: 500;
            transition: background 0.2s;
        }
        .copy-btn:hover { background: #2563eb; }
        .copy-btn:active { background: #1d4ed8; }
        .copy-btn.copied { background: #22c55e; }

        .badge {
            display: inline-block; padding: 2px 8px; border-radius: 4px;
            font-size: 0.75rem; font-weight: 600;
        }
        .badge.critical { background: #7f1d1d; color: #fca5a5; }
        .badge.high { background: #7c2d12; color: #fdba74; }
        .badge.medium { background: #713f12; color: #fde047; }
        .badge.low { background: #14532d; color: #86efac; }

        .tabs { display: flex; gap: 5px; margin-bottom: 15px; }
        .tab {
            padding: 8px 16px; border-radius: 6px; background: #334155;
            border: none; color: #94a3b8; cursor: pointer; font-size: 0.9rem;
        }
        .tab.active { background: #3b82f6; color: white; }

        .complexity-item {
            display: flex; justify-content: space-between; align-items: center;
            padding: 8px 0; border-bottom: 1px solid #334155;
        }
        .complexity-item:last-child { border-bottom: none; }
        .complexity-name { font-family: monospace; font-size: 0.85rem; }
        .complexity-value {
            background: #334155; padding: 2px 8px; border-radius: 4px;
            font-family: monospace; font-size: 0.8rem;
        }

        footer { text-align: center; padding: 30px; color: #64748b; font-size: 0.85rem; }
    </style>
</head>
<body>
    <div class="container">
        <div class="header">
            <h1>Codebase Health Dashboard</h1>
            <div class="header-info">
                <div>Project: <strong id="project-path"></strong></div>
                <div>Analyzed: <span id="analyzed-at"></span></div>
            </div>
            <div class="score-card">
                <div class="score" id="health-score"></div>
                <div>
                    <div style="font-size: 1.2rem; font-weight: 600;">Health Score</div>
                    <div class="score-label" id="score-label"></div>
                </div>
            </div>
        </div>

        <div class="grid">
            <div class="card">
                <div class="card-title">Total Files</div>
                <div class="card-value" id="total-files"></div>
                <div class="card-sub" id="total-lines"></div>
            </div>
            <div class="card">
                <div class="card-title">Code Lines</div>
                <div class="card-value" id="code-lines"></div>
                <div class="card-sub" id="code-percent"></div>
            </div>
            <div class="card">
                <div class="card-title">Comments</div>
                <div class="card-value" id="comment-lines"></div>
                <div class="card-sub" id="comment-percent"></div>
            </div>
            <div class="card">
                <div class="card-title">Issues Found</div>
                <div class="card-value" id="total-issues"></div>
                <div class="stats-row" id="issue-badges"></div>
            </div>
        </div>

        <div style="margin-top: 20px;">
            <h2>Issues</h2>
            <div class="tabs">
                <button class="tab active" onclick="filterIssues('all')">All</button>
                <button class="tab" onclick="filterIssues('critical')">Critical</button>
                <button class="tab" onclick="filterIssues('high')">High</button>
                <button class="tab" onclick="filterIssues('medium')">Medium</button>
            </div>
            <div class="card">
                <div class="issue-list" id="issue-list"></div>
            </div>
        </div>

        <div style="margin-top: 20px;">
            <h2>Complexity</h2>
            <div class="card">
                <div class="stats-row" style="margin-bottom: 15px;">
                    <div class="stat">Avg: <strong id="avg-complexity"></strong></div>
                    <div class="stat">Max: <strong id="max-complexity"></strong></div>
                    <div class="stat">Functions: <strong id="total-functions"></strong></div>
                </div>
                <h3>Long Functions (>50 lines)</h3>
                <div id="long-functions"></div>
                <h3 style="margin-top: 15px;">Deeply Nested (>4 levels)</h3>
                <div id="deeply-nested"></div>
            </div>
        </div>

        <h2 style="margin-top: 20px;">Language Distribution</h2>
        <div class="card">
            <div class="lang-bar" id="lang-bar"></div>
            <div class="lang-legend" id="lang-legend"></div>
        </div>
    </div>

    <footer>
        Generated by codebase-health
    </footer>

    <script>
    const data = "##;

/// The HTML dashboard after the embedded analysis data.
pub const HTML_TAIL: &'static str = r##";

    const langColors = {
        'rs': '#dea584', 'ts': '#3178c6', 'tsx': '#3178c6', 'js': '#f7df1e',
        'jsx': '#f7df1e', 'py': '#3776ab', 'go': '#00add8', 'java': '#b07219'
    };

    function getScoreClass(score) {
        if (score >= 90) return 'excellent';
        if (score >= 70) return 'good';
        if (score >= 50) return 'warning';
        if (score >= 30) return 'poor';
        return 'critical';
    }

    function getScoreLabel(score) {
        if (score >= 90) return 'Excellent';
        if (score >= 70) return 'Good';
        if (score >= 50) return 'Needs Improvement';
        if (score >= 30) return 'Poor';
        return 'Critical';
    }

    function init() {
        // Header
        document.getElementById('project-path').textContent = data.root_path;
        document.getElementById('analyzed-at').textContent = new Date(data.analyzed_at).toLocaleString();

        const scoreEl = document.getElementById('health-score');
        scoreEl.textContent = data.health_score;
        scoreEl.className = 'score ' + getScoreClass(data.health_score);
        document.getElementById('score-label').textContent = getScoreLabel(data.health_score);

        // Stats
        const stats = data.total_stats;
        document.getElementById('total-files').textContent = stats.total_files.toLocaleString();
        document.getElementById('total-lines').textContent = stats.total_lines.toLocaleString() + ' lines';
        document.getElementById('code-lines').textContent = stats.code_lines.toLocaleString();
        document.getElementById('code-percent').textContent =
            (stats.code_lines / stats.total_lines * 100).toFixed(1) + '% of total';
        document.getElementById('comment-lines').textContent = stats.comment_lines.toLocaleString();
        document.getElementById('comment-percent').textContent =
            (stats.comment_lines / stats.total_lines * 100).toFixed(1) + '% coverage';

        // Issues summary
        const issues = data.issues;
        document.getElementById('total-issues').textContent = issues.length;
        const counts = {critical: 0, high: 0, medium: 0, low: 0};
        issues.forEach(i => {
            const sev = i.severity.toLowerCase();
            if (counts[sev] !== undefined) counts[sev]++;
        });
        document.getElementById('issue-badges').innerHTML =
            `<span class="badge critical">${counts.critical} Critical</span>
             <span class="badge high">${counts.high} High</span>
             <span class="badge medium">${counts.medium} Medium</span>
             <span class="badge low">${counts.low} Low</span>`;

        // Languages
        const langs = Object.entries(data.file_stats).sort((a,b) => b[1].code_lines - a[1].code_lines);
        const totalCode = langs.reduce((sum, [,s]) => sum + s.code_lines, 0);
        const langBar = document.getElementById('lang-bar');
        const langLegend = document.getElementById('lang-legend');
        langs.forEach(([lang, s]) => {
            const pct = (s.code_lines / totalCode * 100);
            const color = langColors[lang] || '#64748b';
            langBar.innerHTML += `<div class="lang-segment" style="width:${pct}%;background:${color}"></div>`;
            langLegend.innerHTML += `<div class="lang-item"><div class="lang-dot" style="background:${color}"></div>${lang} (${s.file_count} files, ${pct.toFixed(1)}%)</div>`;
        });

        // Issues list
        renderIssues('all');

        // Complexity
        const cx = data.complexity;
        document.getElementById('avg-complexity').textContent = cx.avg_complexity.toFixed(2);
        document.getElementById('max-complexity').textContent = cx.max_complexity;
        document.getElementById('total-functions').textContent = cx.total_functions;

        renderComplexityList('long-functions', cx.long_functions);
        renderComplexityList('deeply-nested', cx.deeply_nested);
    }

    let filteredIssues = [];

    function renderIssues(filter) {
        const list = document.getElementById('issue-list');
        let issues = data.issues;
        if (filter !== 'all') {
            issues = issues.filter(i => i.severity.toLowerCase() === filter);
        }
        filteredIssues = issues;
        list.innerHTML = issues.slice(0, 50).map((i, idx) => {
            const originalIdx = data.issues.findIndex(orig => 
                orig.file === i.file && 
                orig.line === i.line && 
                orig.title === i.title
            );
            return `
            <div class="issue ${i.severity.toLowerCase()}">
                <div class="issue-title">
                    <span>${i.title}</span>
                    <button class="copy-btn" onclick="copyTaskToClipboard(${originalIdx >= 0 ? originalIdx : idx})" data-issue-idx="${originalIdx >= 0 ? originalIdx : idx}">
                        📋 コピー
                    </button>
                </div>
                <div class="issue-file">${i.file}${i.line ? ':' + i.line : ''}</div>
                ${i.description ? `<div class="issue-desc">${i.description}</div>` : ''}
            </div>
        `;
        }).join('');
        if (issues.length > 50) {
            list.innerHTML += `<div style="padding:10px;color:#64748b">...and ${issues.length - 50} more</div>`;
        }
    }

    function filterIssues(filter) {
        document.querySelectorAll('.tab').forEach(t => t.classList.remove('active'));
        event.target.classList.add('active');
        renderIssues(filter);
    }

    function renderComplexityList(id, items) {
        const el = document.getElementById(id);
        if (!items || items.length === 0) {
            el.innerHTML = '<div style="color:#64748b;font-size:0.85rem">None</div>';
            return;
        }
        el.innerHTML = items.slice(0, 10).map(item => `
            <div class="complexity-item">
                <span class="complexity-name">${item.split('/').pop()}</span>
            </div>
        `).join('');
    }

    function generateClaudeTask(issue) {
        const severityNames = {
            'critical': 'Critical',
            'high': 'High',
            'medium': 'Medium',
            'low': 'Low',
            'info': 'Info'
        };
        const categoryNames = {
            'Security': 'Security',
            'CodeQuality': 'Code Quality',
            'Performance': 'Performance',
            'Maintainability': 'Maintainability',
            'Documentation': 'Documentation',
            'Testing': 'Testing',
            'BestPractice': 'Best Practice'
        };

        const priority = issue.severity === 'critical' ? 'P1' :
                        issue.severity === 'high' ? 'P2' :
                        issue.severity === 'medium' ? 'P3' :
                        issue.severity === 'low' ? 'P4' : 'P5';

        let task = `# コード改善タスク

**優先度:** ${priority} (${severityNames[issue.severity]})
**カテゴリ:** ${categoryNames[issue.category] || issue.category}
**ファイル:** \`${issue.file}\`
${issue.line ? `**行番号:** ${issue.line}\n` : ''}

## 問題の説明

${issue.title}

${issue.description ? issue.description : ''}

## 改善提案

${issue.suggestion || '該当箇所を確認し、適切な修正を実施してください。'}

## 受け入れ基準

- [ ] 問題が解決されている
- [ ] コードが正常にコンパイル/実行できる
- [ ] 既存のテストが通過する
- [ ] コードの可読性が向上している

## 実装時のヒント

${issue.category === 'Security' ? '- セキュリティベストプラクティスに従う\n- 機密情報が適切に扱われているか確認する' : ''}
${issue.category === 'CodeQuality' ? '- コードの可読性を向上させる\n- エラーハンドリングを追加する' : ''}
${issue.category === 'Performance' ? '- パフォーマンスプロファイリングを検討する\n- キャッシュやメモ化を検討する' : ''}
${issue.category === 'Maintainability' ? '- 変更は最小限に留める\n- 複雑なロジックにはコメントを追加する' : ''}
${issue.category === 'Documentation' ? '- 公開APIにはドキュメントコメントを追加する\n- 例を含める場合は追加する' : ''}
${issue.category === 'Testing' ? '- 新しいコードにはユニットテストを追加する\n- エッジケースを考慮する' : ''}
${issue.category === 'BestPractice' ? '- プロジェクトのコーディング規約に従う\n- CONTRIBUTINGガイドを確認する' : ''}

---

## Claudeへの指示

このタスクを完了する際は：

1. まず、影響を受けるファイルを読み、現在の実装を理解する
2. 特定の問題に対応する最小限の変更を行う
3. すべての受け入れ基準が満たされていることを確認する
4. 関連するテストを実行して変更を検証する
5. このタスクIDを参照する明確なメッセージでコミットする

\`\`\`
git commit -m "fix: ${issue.title} in ${issue.file}${issue.line ? ':' + issue.line : ''}"
\`\`\`
`;

        return task;
    }

    async function copyTaskToClipboard(issueIdx) {
        const issue = data.issues[issueIdx];
        if (!issue) return;

        const taskText = generateClaudeTask(issue);

        try {
            await navigator.clipboard.writeText(taskText);
            
            // ボタンの状態を更新
            const btn = document.querySelector(`[data-issue-idx="${issueIdx}"]`);
            if (btn) {
                const originalText = btn.textContent;
                btn.textContent = '✓ コピー済み';
                btn.classList.add('copied');
                setTimeout(() => {
                    btn.textContent = originalText;
                    btn.classList.remove('copied');
                }, 2000);
            }
        } catch (err) {
            console.error('クリップボードへのコピーに失敗しました:', err);
            alert('クリップボードへのコピーに失敗しました。手動でコピーしてください。');
        }
    }

    init();
    </script>
</body>
</html>"##;

impl HtmlReporter {
    /// The single-file HTML dashboard embedding the analysis serialized as
    /// JSON (`json_data`).
    pub fn generate(json_data: &str) -> (r: String)
        ensures
            r@ == HTML_HEAD@ + json_data@ + HTML_TAIL@,
    {
        let mut out: Vec<char> = Vec::new();
        extend_str(&mut out, HTML_HEAD);
        extend_str(&mut out, json_data);
        extend_str(&mut out, HTML_TAIL);
        from_chars(&out)
    }
}

// ---------------------------------------------------------------------------
// Console summary
// ---------------------------------------------------------------------------

/// A line of the languages of the summary.
pub open spec fn summary_lang_line(e: (Seq<char>, LanguageStats)) -> Seq<char> {
    "   "@ + e.0 + ": "@ + dec(e.1.file_count as int) + " files, "@ + dec(e.1.code_lines as int)
        + " lines\n"@
}

/// The language lines of the summary.
pub open spec fn summary_lang_lines(t: Seq<(Seq<char>, LanguageStats)>) -> Seq<char>
    decreases t.len(),
{
    if t.len() == 0 {
        Seq::empty()
    } else {
        summary_lang_lines(t.drop_last()) + summary_lang_line(t.last())
    }
}

/// A count line of the summary, present when the count is positive.
pub open spec fn summary_count_line(prefix: Seq<char>, n: nat) -> Seq<char> {
    if n > 0 {
        prefix + dec(n as int) + "\n"@
    } else {
        Seq::empty()
    }
}

/// The console summary of an analysis; `code_percent` and
/// `comment_percent` are the rendered shares of code and comment lines.
pub open spec fn summary_text(a: CodebaseAnalysis, code_percent: Seq<char>, comment_percent: Seq<char>) -> Seq<char> {
    let v = views(a.issues@);
    let n = a.issues@.len() as int;
    "📊 Codebase Health Summary\n"@ + "========================\n\n"@ + "📁 Project: "@
        + a.root_path@ + "\n"@ + "📅 Analyzed: "@ + a.analyzed_at@ + "\n\n"@
        + "📈 Health Score: "@ + dec(a.health_score as int) + "/100 "@ + crate::analysis::score_symbol(
        a.health_score,
    ) + "\n\n"@ + "📂 Files: "@ + dec(a.total_stats.total_files as int) + " ("@ + dec(
        a.total_stats.total_lines as int,
    ) + " lines)\n"@ + "   Code: "@ + dec(a.total_stats.code_lines as int) + " lines ("@
        + code_percent + "%)\n"@ + "   Comments: "@ + dec(a.total_stats.comment_lines as int)
        + " lines ("@ + comment_percent + "%)\n"@ + "   Blank: "@ + dec(
        a.total_stats.blank_lines as int,
    ) + " lines\n\n"@ + "📊 Languages:\n"@ + summary_lang_lines(
        at_most(sort_desc(table_views(a.file_stats@)), 5),
    ) + "\n"@ + "⚠️  Issues: "@ + dec(n) + " total\n"@ + summary_count_line(
        "   🔴 Critical: "@,
        severity_count(v, Severity::Critical, n),
    ) + summary_count_line("   🟠 High: "@, severity_count(v, Severity::High, n))
        + summary_count_line("   🟡 Medium: "@, severity_count(v, Severity::Medium, n))
        + summary_count_line("   🟢 Low: "@, severity_count(v, Severity::Low, n))
}

fn push_count_line(out: &mut Vec<char>, prefix: &str, n: usize)
    ensures
        final(out)@ == old(out)@ + summary_count_line(prefix@, n as nat),
{
    let ghost start = out@;
    if n > 0 {
        extend_str(out, prefix);
        push_count(out, n);
        extend_str(out, "\n");
    }
    assert(out@ =~= start + summary_count_line(prefix@, n as nat));
}

impl CodebaseAnalysis {
    /// The console summary of the analysis; `code_percent` and
    /// `comment_percent` are the shares of code and comment lines, rendered
    /// with one decimal.
    pub fn summary(&self, code_percent: &str, comment_percent: &str) -> (r: String)
        ensures
            r@ == summary_text(*self, code_percent@, comment_percent@),
    {
        let mut out: Vec<char> = Vec::new();
        extend_str(&mut out, "📊 Codebase Health Summary\n");
        extend_str(&mut out, "========================\n\n");
        extend_str(&mut out, "📁 Project: ");
        extend_str(&mut out, self.root_path.as_str());
        extend_str(&mut out, "\n");
        extend_str(&mut out, "📅 Analyzed: ");
        extend_str(&mut out, self.analyzed_at.as_str());
        extend_str(&mut out, "\n\n");
        extend_str(&mut out, "📈 Health Score: ");
        push_count(&mut out, self.health_score as usize);
        extend_str(&mut out, "/100 ");
        extend_str(&mut out, crate::analysis::score_emoji(self.health_score));
        extend_str(&mut out, "\n\n");
        extend_str(&mut out, "📂 Files: ");
        push_count(&mut out, self.total_stats.total_files);
        extend_str(&mut out, " (");
        push_count(&mut out, self.total_stats.total_lines);
        extend_str(&mut out, " lines)\n");
        extend_str(&mut out, "   Code: ");
        push_count(&mut out, self.total_stats.code_lines);
        extend_str(&mut out, " lines (");
        extend_str(&mut out, code_percent);
        extend_str(&mut out, "%)\n");
        extend_str(&mut out, "   Comments: ");
        push_count(&mut out, self.total_stats.comment_lines);
        extend_str(&mut out, " lines (");
        extend_str(&mut out, comment_percent);
        extend_str(&mut out, "%)\n");
        extend_str(&mut out, "   Blank: ");
        push_count(&mut out, self.total_stats.blank_lines);
        extend_str(&mut out, " lines\n\n");
        extend_str(&mut out, "📊 Languages:\n");
        let langs = sort_by_code_lines(&self.file_stats);
        let ghost sv = table_views(langs@);
        let ghost shown = at_most(sv, 5);
        let ghost mid = out@;
        let mut i: usize = 0;
        assert(shown.take(0) =~= Seq::<(Seq<char>, LanguageStats)>::empty());
        while i < langs.len() && i < 5
            invariant
                i <= langs@.len(),
                i <= 5,
                sv == table_views(langs@),
                shown == at_most(sv, 5),
                out@ == mid + summary_lang_lines(shown.take(i as int)),
            decreases langs.len() - i,
        {
            let ghost before = out@;
            extend_str(&mut out, "   ");
            extend_str(&mut out, langs[i].0.as_str());
            extend_str(&mut out, ": ");
            push_count(&mut out, langs[i].1.file_count);
            extend_str(&mut out, " files, ");
            push_count(&mut out, langs[i].1.code_lines);
            extend_str(&mut out, " lines\n");
            proof {
                assert(shown[i as int] == (langs@[i as int].0@, langs@[i as int].1));
                assert(shown.take(i + 1).drop_last() =~= shown.take(i as int));
                assert(out@ =~= before + summary_lang_line(shown[i as int]));
            }
            i = i + 1;
        }
        assert(shown.take(i as int) =~= shown);
        extend_str(&mut out, "\n");
        let critical = count_severity(&self.issues, Severity::Critical);
        let high = count_severity(&self.issues, Severity::High);
        let medium = count_severity(&self.issues, Severity::Medium);
        let low = count_severity(&self.issues, Severity::Low);
        extend_str(&mut out, "⚠️  Issues: ");
        push_count(&mut out, self.issues.len());
        extend_str(&mut out, " total\n");
        push_count_line(&mut out, "   🔴 Critical: ", critical);
        push_count_line(&mut out, "   🟠 High: ", high);
        push_count_line(&mut out, "   🟡 Medium: ", medium);
        push_count_line(&mut out, "   🟢 Low: ", low);
        assert(out@ =~= summary_text(*self, code_percent@, comment_percent@));
        from_chars(&out)
    }
}

} // verus!
