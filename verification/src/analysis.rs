//! Whole-codebase analysis: per-language and total line statistics, the
//! issues of every file, and the aggregated complexity report.

use vstd::prelude::*;
use crate::complexity::{
    entries, file_view, functions_of, sat, ComplexityAnalyzer, ComplexityReport, FileComplexity,
    FileView, FunctionView,
};
use crate::file_stats::{FileStats, LineKind};
use crate::issues::{detected, views, Issue, IssueDetector, IssueView, Severity};
use crate::text::{chars_eq, contains_str, has_sub, lines, lowercase, to_chars, to_lowercase};

verus! {

/// Total statistics across all files.
#[derive(Debug, Clone, Copy, PartialEq, Eq)]
pub struct TotalStats {
    pub total_files: usize,
    pub total_lines: usize,
    pub code_lines: usize,
    pub comment_lines: usize,
    pub blank_lines: usize,
    pub test_files: usize,
    pub doc_files: usize,
}

impl Default for TotalStats {
    fn default() -> (r: Self)
        ensures
            r == TotalStats::zero(),
    {
        TotalStats {
            total_files: 0,
            total_lines: 0,
            code_lines: 0,
            comment_lines: 0,
            blank_lines: 0,
            test_files: 0,
            doc_files: 0,
        }
    }
}

/// Statistics for a specific language.
#[derive(Debug, Clone, Copy, PartialEq, Eq)]
pub struct LanguageStats {
    pub file_count: usize,
    pub total_lines: usize,
    pub code_lines: usize,
    pub comment_lines: usize,
    pub blank_lines: usize,
}

impl Default for LanguageStats {
    fn default() -> (r: Self)
        ensures
            r == LanguageStats::zero(),
    {
        LanguageStats { file_count: 0, total_lines: 0, code_lines: 0, comment_lines: 0, blank_lines: 0 }
    }
}

/// One source file to analyze: its displayed path, its (lowercase)
/// extension and its content.
#[derive(Debug, Clone)]
pub struct SourceFile {
    pub path: String,
    pub extension: String,
    pub content: String,
}

/// The mathematical content of a [`SourceFile`].
pub struct SourceView {
    pub path: Seq<char>,
    pub extension: Seq<char>,
    pub content: Seq<char>,
}

impl View for SourceFile {
    type V = SourceView;

    open spec fn view(&self) -> SourceView {
        SourceView { path: self.path@, extension: self.extension@, content: self.content@ }
    }
}

/// The views of a sequence of source files.
pub open spec fn source_views(v: Seq<SourceFile>) -> Seq<SourceView> {
    v.map_values(|f: SourceFile| f@)
}

/// The line statistics of a file.
pub open spec fn stats_of(c: Seq<char>, ext: Seq<char>) -> FileStats {
    FileStats {
        total_lines: lines(c).len() as usize,
        code_lines: FileStats::count_of(c, ext, LineKind::Code) as usize,
        comment_lines: FileStats::count_of(c, ext, LineKind::Comment) as usize,
        blank_lines: FileStats::count_of(c, ext, LineKind::Blank) as usize,
    }
}

/// A file counts as a test when its lowercased path mentions `test` or `spec`.
pub open spec fn is_test_path(path: Seq<char>) -> bool {
    has_sub(lowercase(path), "test"@) || has_sub(lowercase(path), "spec"@)
}

/// A file counts as documentation when its extension is `md` or its
/// lowercased path mentions `doc`.
pub open spec fn is_doc_file(path: Seq<char>, ext: Seq<char>) -> bool {
    ext == "md"@ || has_sub(lowercase(path), "doc"@)
}

impl TotalStats {
    pub open spec fn zero() -> TotalStats {
        TotalStats {
            total_files: 0,
            total_lines: 0,
            code_lines: 0,
            comment_lines: 0,
            blank_lines: 0,
            test_files: 0,
            doc_files: 0,
        }
    }

    /// The totals after adding one file.
    pub open spec fn add(self, f: SourceView) -> TotalStats {
        let s = stats_of(f.content, f.extension);
        TotalStats {
            total_files: sat((self.total_files + 1) as nat),
            total_lines: sat((self.total_lines + s.total_lines) as nat),
            code_lines: sat((self.code_lines + s.code_lines) as nat),
            comment_lines: sat((self.comment_lines + s.comment_lines) as nat),
            blank_lines: sat((self.blank_lines + s.blank_lines) as nat),
            test_files: if is_test_path(f.path) {
                sat((self.test_files + 1) as nat)
            } else {
                self.test_files
            },
            doc_files: if is_doc_file(f.path, f.extension) {
                sat((self.doc_files + 1) as nat)
            } else {
                self.doc_files
            },
        }
    }
}

impl LanguageStats {
    pub open spec fn zero() -> LanguageStats {
        LanguageStats { file_count: 0, total_lines: 0, code_lines: 0, comment_lines: 0, blank_lines: 0 }
    }

    /// The language statistics after adding a file with statistics `s`.
    pub open spec fn add(self, s: FileStats) -> LanguageStats {
        LanguageStats {
            file_count: sat((self.file_count + 1) as nat),
            total_lines: sat((self.total_lines + s.total_lines) as nat),
            code_lines: sat((self.code_lines + s.code_lines) as nat),
            comment_lines: sat((self.comment_lines + s.comment_lines) as nat),
            blank_lines: sat((self.blank_lines + s.blank_lines) as nat),
        }
    }
}

/// The totals over a sequence of files.
pub open spec fn totals(fs: Seq<SourceView>) -> TotalStats
    decreases fs.len(),
{
    if fs.len() == 0 {
        TotalStats::zero()
    } else {
        totals(fs.drop_last()).add(fs.last())
    }
}

/// A language table with the file of extension `key` and statistics `s`
/// added: the entry of `key` updated in place, or a new entry at the end.
pub open spec fn table_add(t: Seq<(Seq<char>, LanguageStats)>, key: Seq<char>, s: FileStats) -> Seq<
    (Seq<char>, LanguageStats),
>
    decreases t.len(),
{
    if t.len() == 0 {
        seq![(key, LanguageStats::zero().add(s))]
    } else if t[0].0 == key {
        seq![(key, t[0].1.add(s))] + t.drop_first()
    } else {
        seq![t[0]] + table_add(t.drop_first(), key, s)
    }
}

/// The per-language statistics of a sequence of files, languages in the
/// order in which they first occur.
pub open spec fn language_table(fs: Seq<SourceView>) -> Seq<(Seq<char>, LanguageStats)>
    decreases fs.len(),
{
    if fs.len() == 0 {
        Seq::empty()
    } else {
        table_add(
            language_table(fs.drop_last()),
            fs.last().extension,
            stats_of(fs.last().content, fs.last().extension),
        )
    }
}

/// The number of files counted over the languages of a table.
pub open spec fn table_file_sum(t: Seq<(Seq<char>, LanguageStats)>) -> nat
    decreases t.len(),
{
    if t.len() == 0 {
        0
    } else {
        t[0].1.file_count as nat + table_file_sum(t.drop_first())
    }
}

proof fn lemma_table_add_count(t: Seq<(Seq<char>, LanguageStats)>, key: Seq<char>, s: FileStats)
    requires
        table_file_sum(t) < usize::MAX,
    ensures
        table_file_sum(table_add(t, key, s)) == table_file_sum(t) + 1,
    decreases t.len(),
{
    if t.len() == 0 {
        let u = table_add(t, key, s);
        assert(u.drop_first() =~= Seq::<(Seq<char>, LanguageStats)>::empty());
        assert(u[0].1.file_count == 1);
        assert(table_file_sum(u.drop_first()) == 0);
        assert(table_file_sum(u) == u[0].1.file_count as nat + table_file_sum(u.drop_first()));
    } else {
        assert(table_file_sum(t) == t[0].1.file_count as nat + table_file_sum(t.drop_first()));
        if t[0].0 == key {
            let u = seq![(key, t[0].1.add(s))] + t.drop_first();
            assert(u.drop_first() =~= t.drop_first());
            assert(u[0].1.file_count == t[0].1.file_count + 1);
            assert(table_add(t, key, s) == u);
            assert(table_file_sum(u) == u[0].1.file_count as nat + table_file_sum(u.drop_first()));
        } else {
            lemma_table_add_count(t.drop_first(), key, s);
            let u = seq![t[0]] + table_add(t.drop_first(), key, s);
            assert(u.drop_first() =~= table_add(t.drop_first(), key, s));
            assert(u[0] == t[0]);
            assert(table_add(t, key, s) == u);
            assert(table_file_sum(u) == u[0].1.file_count as nat + table_file_sum(u.drop_first()));
        }
    }
}

/// Every file is counted once in the totals and once under its language;
/// test and documentation files are among the files counted (as long as
/// the number of files fits in `usize`).
pub proof fn lemma_file_counts(fs: Seq<SourceView>)
    requires
        fs.len() <= usize::MAX,
    ensures
        totals(fs).total_files == fs.len(),
        table_file_sum(language_table(fs)) == fs.len(),
        totals(fs).test_files <= totals(fs).total_files,
        totals(fs).doc_files <= totals(fs).total_files,
    decreases fs.len(),
{
    if fs.len() > 0 {
        lemma_file_counts(fs.drop_last());
        lemma_table_add_count(
            language_table(fs.drop_last()),
            fs.last().extension,
            stats_of(fs.last().content, fs.last().extension),
        );
    }
}

/// The issues of a sequence of files, file by file.
pub open spec fn all_issues(fs: Seq<SourceView>) -> Seq<IssueView>
    decreases fs.len(),
{
    if fs.len() == 0 {
        Seq::empty()
    } else {
        all_issues(fs.drop_last()) + detected(fs.last().path, fs.last().content, fs.last().extension)
    }
}

/// The complexity view of each file.
pub open spec fn complexity_views(fs: Seq<SourceView>) -> Seq<FileView> {
    fs.map_values(
        |f: SourceView| FileView { path: f.path, functions: functions_of(f.content, f.extension) },
    )
}

/// The keys of a language table are distinct.
pub open spec fn table_keys_distinct(t: Seq<(Seq<char>, LanguageStats)>) -> bool {
    forall|i: int, j: int| 0 <= i < j < t.len() ==> #[trigger] t[i].0 != #[trigger] t[j].0
}

proof fn lemma_table_add_found(t: Seq<(Seq<char>, LanguageStats)>, key: Seq<char>, s: FileStats, i: int)
    requires
        0 <= i < t.len(),
        t[i].0 == key,
        forall|j: int| 0 <= j < i ==> t[j].0 != key,
    ensures
        table_add(t, key, s) == t.update(i, (key, t[i].1.add(s))),
    decreases t.len(),
{
    if i > 0 {
        lemma_table_add_found(t.drop_first(), key, s, i - 1);
        assert(table_add(t, key, s) =~= t.update(i, (key, t[i].1.add(s))));
    } else {
        assert(table_add(t, key, s) =~= t.update(i, (key, t[i].1.add(s))));
    }
}

proof fn lemma_table_add_new(t: Seq<(Seq<char>, LanguageStats)>, key: Seq<char>, s: FileStats)
    requires
        forall|j: int| 0 <= j < t.len() ==> t[j].0 != key,
    ensures
        table_add(t, key, s) == t.push((key, LanguageStats::zero().add(s))),
    decreases t.len(),
{
    if t.len() > 0 {
        lemma_table_add_new(t.drop_first(), key, s);
        assert(table_add(t, key, s) =~= t.push((key, LanguageStats::zero().add(s))));
    }
}

/// The result of analyzing a set of source files.
#[derive(Debug)]
pub struct AnalyzedSources {
    pub file_stats: Vec<(String, LanguageStats)>,
    pub total_stats: TotalStats,
    pub issues: Vec<Issue>,
    pub complexity: ComplexityReport,
}

/// The views of a language table.
pub open spec fn table_views(v: Seq<(String, LanguageStats)>) -> Seq<(Seq<char>, LanguageStats)> {
    v.map_values(|e: (String, LanguageStats)| (e.0@, e.1))
}

/// Codebase analyzer settings: the project root, the file extensions to
/// analyze and whether hidden files are included.
pub struct CodebaseAnalyzer {
    root_path: String,
    extensions: Vec<String>,
    include_hidden: bool,
}

impl CodebaseAnalyzer {
    /// Create a new analyzer for the (already resolved) root path.
    pub fn new(root_path: &str, extensions: &[&str], include_hidden: bool) -> (r: Self)
        ensures
            r.root_path_view() == root_path@,
            r.extensions_view() == extensions@.map_values(|e: &str| e@),
            r.include_hidden_flag() == include_hidden,
    {
        let mut exts: Vec<String> = Vec::new();
        let mut i: usize = 0;
        while i < extensions.len()
            invariant
                i <= extensions@.len(),
                exts@.map_values(|e: String| e@) == extensions@.map_values(|e: &str| e@).take(
                    i as int,
                ),
            decreases extensions.len() - i,
        {
            let ghost before = exts@;
            let x = extensions[i].to_owned();
            assert(x@ == extensions@[i as int]@);
            exts.push(x);
            assert(exts@ == before.push(x));
            assert(exts@.map_values(|e: String| e@) =~= before.map_values(|e: String| e@).push(x@));
            assert(extensions@.map_values(|e: &str| e@).take(i + 1) =~= extensions@.map_values(
                |e: &str| e@,
            ).take(i as int).push(x@));
            i = i + 1;
        }
        assert(extensions@.map_values(|e: &str| e@).take(extensions@.len() as int)
            =~= extensions@.map_values(|e: &str| e@));
        CodebaseAnalyzer { root_path: root_path.to_owned(), extensions: exts, include_hidden }
    }

    pub closed spec fn root_path_view(&self) -> Seq<char> {
        self.root_path@
    }

    pub closed spec fn extensions_view(&self) -> Seq<Seq<char>> {
        self.extensions@.map_values(|e: String| e@)
    }

    pub closed spec fn include_hidden_flag(&self) -> bool {
        self.include_hidden
    }

    /// The project root.
    pub fn root_path(&self) -> (r: &str)
        ensures
            r@ == self.root_path_view(),
    {
        self.root_path.as_str()
    }

    /// Whether hidden files are walked too.
    pub fn include_hidden(&self) -> (r: bool)
        ensures
            r == self.include_hidden_flag(),
    {
        self.include_hidden
    }

    /// Whether files with extension `ext` are analyzed.
    pub fn accepts_extension(&self, ext: &str) -> (r: bool)
        ensures
            r == self.extensions_view().contains(ext@),
    {
        let e = to_chars(ext);
        let mut i: usize = 0;
        while i < self.extensions.len()
            invariant
                i <= self.extensions@.len(),
                e@ == ext@,
                forall|k: int| 0 <= k < i ==> self.extensions_view()[k] != ext@,
            decreases self.extensions.len() - i,
        {
            if chars_eq(&to_chars(self.extensions[i].as_str()), &e) {
                assert(self.extensions_view()[i as int] == ext@);
                return true;
            }
            i = i + 1;
        }
        false
    }

    /// Analyze the given source files: line statistics per language and in
    /// total, the issues of each file in order, and the complexity report.
    pub fn analyze_sources(files: &Vec<SourceFile>) -> (r: AnalyzedSources)
        requires
            forall|i: int| 0 <= i < files@.len() ==> (#[trigger] files@[i]).content@.len() < usize::MAX,
        ensures
            table_views(r.file_stats@) == language_table(source_views(files@)),
            table_keys_distinct(table_views(r.file_stats@)),
            r.total_stats == totals(source_views(files@)),
            views(r.issues@) == all_issues(source_views(files@)),
            ({
                let es = entries(complexity_views(source_views(files@)));
                &&& r.complexity.files_analyzed == files@.len()
                &&& r.complexity.total_functions == sat(es.len())
                &&& r.complexity.complexity_sum == sat(crate::complexity::cc_total(es))
                &&& r.complexity.max_complexity == crate::complexity::max_cc(es)
                &&& crate::regex_support::opt_string(r.complexity.max_complexity_function)
                    == crate::complexity::max_location(es)
                &&& crate::complexity::string_views(r.complexity.long_functions@)
                    == crate::complexity::long_locations(es)
                &&& crate::complexity::string_views(r.complexity.deeply_nested@)
                    == crate::complexity::nested_locations(es)
            }),
    {
        let ghost fs = source_views(files@);
        let mut table: Vec<(String, LanguageStats)> = Vec::new();
        let mut total = TotalStats::default();
        let mut all: Vec<Issue> = Vec::new();
        let mut complexity_data: Vec<FileComplexity> = Vec::new();
        let mut i: usize = 0;
        while i < files.len()
            invariant
                i <= files@.len(),
                fs == source_views(files@),
                forall|k: int| 0 <= k < files@.len() ==> (#[trigger] files@[k]).content@.len() < usize::MAX,
                table_views(table@) == language_table(fs.take(i as int)),
                table_keys_distinct(table_views(table@)),
                total == totals(fs.take(i as int)),
                views(all@) == all_issues(fs.take(i as int)),
                complexity_data@.map_values(|f: FileComplexity| file_view(f)) == complexity_views(
                    fs.take(i as int),
                ),
            decreases files.len() - i,
        {
            let f = &files[i];
            let ghost fv = fs[i as int];
            proof {
                assert(fv == f@);
                assert(fs.take(i + 1).drop_last() =~= fs.take(i as int));
                assert(fs.take(i + 1).last() == fv);
            }
            let stats = FileStats::calculate(f.content.as_str(), f.extension.as_str());
            assert(stats == stats_of(fv.content, fv.extension));
            Self::add_language(&mut table, &f.extension, &stats);
            Self::add_totals(&mut total, f, &stats);
            let file_issues = IssueDetector::detect(f.path.as_str(), f.content.as_str(), f.extension.as_str());
            let ghost before_issues = all@;
            let mut fi = file_issues;
            all.append(&mut fi);
            proof {
                assert(views(before_issues + file_issues@) =~= views(before_issues) + views(file_issues@));
            }
            let fc = ComplexityAnalyzer::analyze(f.path.as_str(), f.content.as_str(), f.extension.as_str());
            let ghost before_c = complexity_data@;
            proof {
                assert(fc.functions@.len() == functions_of(fv.content, fv.extension).len()) by {
                    assert(crate::complexity::fn_views(fc.functions@).len() == fc.functions@.len());
                }
            }
            assert(file_view(fc) == FileView {
                path: fv.path,
                functions: functions_of(fv.content, fv.extension),
            });
            complexity_data.push(fc);
            proof {
                assert(complexity_data@ == before_c.push(fc));
                assert(complexity_data@.map_values(|f: FileComplexity| file_view(f)) =~= before_c.map_values(
                    |f: FileComplexity| file_view(f),
                ).push(file_view(fc)));
                assert(complexity_views(fs.take(i + 1)) =~= complexity_views(fs.take(i as int)).push(
                    FileView { path: fv.path, functions: functions_of(fv.content, fv.extension) },
                ));
            }
            i = i + 1;
        }
        assert(fs.take(files@.len() as int) =~= fs);
        let complexity = ComplexityReport::aggregate(&complexity_data);
        AnalyzedSources { file_stats: table, total_stats: total, issues: all, complexity }
    }

    fn add_language(table: &mut Vec<(String, LanguageStats)>, ext: &String, stats: &FileStats)
        requires
            table_keys_distinct(table_views(old(table)@)),
        ensures
            table_views(final(table)@) == table_add(table_views(old(table)@), ext@, *stats),
            table_keys_distinct(table_views(final(table)@)),
    {
        let ghost t = table_views(table@);
        let e = to_chars(ext.as_str());
        let mut i: usize = 0;
        while i < table.len()
            invariant
                i <= table@.len(),
                t == table_views(table@),
                t == table_views(old(table)@),
                table_keys_distinct(t),
                e@ == ext@,
                forall|k: int| 0 <= k < i ==> t[k].0 != ext@,
            decreases table.len() - i,
        {
            if chars_eq(&to_chars(table[i].0.as_str()), &e) {
                proof {
                    lemma_table_add_found(t, ext@, *stats, i as int);
                }
                let old_stats = table[i].1;
                let updated = LanguageStats {
                    file_count: old_stats.file_count.saturating_add(1),
                    total_lines: old_stats.total_lines.saturating_add(stats.total_lines),
                    code_lines: old_stats.code_lines.saturating_add(stats.code_lines),
                    comment_lines: old_stats.comment_lines.saturating_add(stats.comment_lines),
                    blank_lines: old_stats.blank_lines.saturating_add(stats.blank_lines),
                };
                let key = ext.clone();
                let ghost before = table@;
                table.set(i, (key, updated));
                proof {
                    assert(table@ == before.update(i as int, (key, updated)));
                    assert(updated == t[i as int].1.add(*stats));
                    assert(table_views(table@) =~= t.update(i as int, (ext@, t[i as int].1.add(*stats))));
                    assert(table_keys_distinct(table_views(table@))) by {
                        assert forall|a: int, b: int| 0 <= a < b < table_views(table@).len() implies
                            #[trigger] table_views(table@)[a].0 != #[trigger] table_views(table@)[b].0 by {
                            assert(t[a].0 != t[b].0);
                        }
                    }
                }
                return;
            }
            i = i + 1;
        }
        proof {
            lemma_table_add_new(t, ext@, *stats);
        }
        let s = LanguageStats {
            file_count: 1,
            total_lines: stats.total_lines,
            code_lines: stats.code_lines,
            comment_lines: stats.comment_lines,
            blank_lines: stats.blank_lines,
        };
        let ghost before = table@;
        let key = ext.clone();
        table.push((key, s));
        proof {
            assert(table@ == before.push((key, s)));
            assert(s == LanguageStats::zero().add(*stats));
            assert(table_views(table@) =~= t.push((ext@, LanguageStats::zero().add(*stats))));
            assert(table_keys_distinct(table_views(table@))) by {
                assert forall|a: int, b: int| 0 <= a < b < table_views(table@).len() implies
                    #[trigger] table_views(table@)[a].0 != #[trigger] table_views(table@)[b].0 by {
                    if b < t.len() {
                        assert(t[a].0 != t[b].0);
                    } else {
                        assert(t[a].0 != ext@);
                    }
                }
            }
        }
    }

    fn add_totals(total: &mut TotalStats, f: &SourceFile, stats: &FileStats)
        requires
            *stats == stats_of(f.content@, f.extension@),
        ensures
            *final(total) == old(total).add(f@),
    {
        total.total_files = total.total_files.saturating_add(1);
        total.total_lines = total.total_lines.saturating_add(stats.total_lines);
        total.code_lines = total.code_lines.saturating_add(stats.code_lines);
        total.comment_lines = total.comment_lines.saturating_add(stats.comment_lines);
        total.blank_lines = total.blank_lines.saturating_add(stats.blank_lines);
        let lower = to_chars(to_lowercase(f.path.as_str()).as_str());
        if contains_str(&lower, "test") || contains_str(&lower, "spec") {
            total.test_files = total.test_files.saturating_add(1);
        }
        if chars_eq(&to_chars(f.extension.as_str()), &to_chars("md")) || contains_str(&lower, "doc") {
            total.doc_files = total.doc_files.saturating_add(1);
        }
    }
}


/// Complete analysis result for a codebase. `root_path` and `analyzed_at`
/// are the displayed project root and analysis time; `health_score` is in
/// 0..=100.
#[derive(Debug)]
pub struct CodebaseAnalysis {
    pub root_path: String,
    pub analyzed_at: String,
    pub file_stats: Vec<(String, LanguageStats)>,
    pub total_stats: TotalStats,
    pub issues: Vec<Issue>,
    pub complexity: ComplexityReport,
    pub health_score: u8,
}

/// A health score's symbol: 🌟 from 90, ✅ from 70, ⚠️ from 50, 🟠 from 30,
/// else 🔴.
pub open spec fn score_symbol(score: u8) -> Seq<char> {
    if 90 <= score <= 100 {
        "🌟"@
    } else if 70 <= score <= 89 {
        "✅"@
    } else if 50 <= score <= 69 {
        "⚠️"@
    } else if 30 <= score <= 49 {
        "🟠"@
    } else {
        "🔴"@
    }
}

/// The symbol shown next to a health score.
pub fn score_emoji(score: u8) -> (r: &'static str)
    ensures
        r@ == score_symbol(score),
{
    if 90 <= score && score <= 100 {
        "🌟"
    } else if 70 <= score && score <= 89 {
        "✅"
    } else if 50 <= score && score <= 69 {
        "⚠️"
    } else if 30 <= score && score <= 49 {
        "🟠"
    } else {
        "🔴"
    }
}

/// The number of issues of severity `s` among the first `n`.
pub open spec fn severity_count(v: Seq<IssueView>, s: Severity, n: int) -> nat
    decreases n,
{
    if n <= 0 {
        0
    } else {
        severity_count(v, s, n - 1) + if v[n - 1].severity == s {
            1nat
        } else {
            0nat
        }
    }
}

/// The number of issues of severity `s`.
pub fn count_severity(issues: &Vec<Issue>, s: Severity) -> (n: usize)
    ensures
        n == severity_count(views(issues@), s, issues@.len() as int),
{
    let mut n: usize = 0;
    let mut i: usize = 0;
    while i < issues.len()
        invariant
            i <= issues@.len(),
            n == severity_count(views(issues@), s, i as int),
            n <= i,
        decreases issues.len() - i,
    {
        if issues[i].severity == s {
            n = n + 1;
        }
        i = i + 1;
    }
    n
}

} // verus!
