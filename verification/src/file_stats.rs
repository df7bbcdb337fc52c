//! Per-file line statistics: total, code, comment and blank lines.

use vstd::prelude::*;
use crate::text::{opt_chars, chars_eq, contains, has_prefix, has_sub, lines, split_lines, starts_with, to_chars, trim, trimmed};

verus! {

/// Statistics for a single file.
#[derive(Debug, Clone, Copy, PartialEq, Eq)]
pub struct FileStats {
    pub total_lines: usize,
    pub code_lines: usize,
    pub comment_lines: usize,
    pub blank_lines: usize,
}

impl Default for FileStats {
    fn default() -> (r: Self)
        ensures
            r == FileStats::zero(),
    {
        FileStats { total_lines: 0, code_lines: 0, comment_lines: 0, blank_lines: 0 }
    }
}

/// How one line of a file is counted.
#[derive(Debug, Clone, Copy, PartialEq, Eq)]
pub enum LineKind {
    Blank,
    Comment,
    Code,
}

/// The comment markers of a language: the line-comment marker and the
/// block-comment start and end markers.
pub type Markers = (Option<Seq<char>>, Option<Seq<char>>, Option<Seq<char>>);

/// The comment markers used for a file extension.
pub open spec fn markers_for(ext: Seq<char>) -> Markers {
    if ext == "rs"@ || ext == "go"@ || ext == "java"@ || ext == "ts"@ || ext == "tsx"@ || ext
        == "js"@ || ext == "jsx"@ || ext == "c"@ || ext == "cpp"@ || ext == "h"@ || ext
        == "hpp"@ {
        (Some("//"@), Some("/*"@), Some("*/"@))
    } else if ext == "py"@ {
        (Some("#"@), Some("\"\"\""@), Some("\"\"\""@))
    } else if ext == "rb"@ {
        (Some("#"@), Some("=begin"@), Some("=end"@))
    } else if ext == "sh"@ || ext == "bash"@ || ext == "zsh"@ {
        (Some("#"@), None, None)
    } else if ext == "html"@ || ext == "xml"@ {
        (None, Some("<!--"@), Some("-->"@))
    } else if ext == "css"@ || ext == "scss"@ || ext == "less"@ {
        (None, Some("/*"@), Some("*/"@))
    } else {
        (Some("//"@), Some("/*"@), Some("*/"@))
    }
}

/// How a trimmed line is counted, and whether a block comment is open after
/// it, given whether one was open before it.
pub open spec fn classify(m: Markers, in_block: bool, t: Seq<char>) -> (LineKind, bool) {
    if t.len() == 0 {
        (LineKind::Blank, in_block)
    } else if m.1 is Some && m.2 is Some && in_block {
        (LineKind::Comment, !has_sub(t, m.2->0))
    } else if m.1 is Some && m.2 is Some && has_prefix(t, m.1->0) {
        (LineKind::Comment, !has_sub(t, m.2->0))
    } else if m.0 is Some && has_prefix(t, m.0->0) {
        (LineKind::Comment, in_block)
    } else {
        (LineKind::Code, in_block)
    }
}

/// The markers of a language, by language family.
proof fn lemma_markers_of(ext: Seq<char>)
    ensures
        (ext == "css"@ || ext == "scss"@ || ext == "less"@) ==> markers_for(ext) == (
            None::<Seq<char>>,
            Some("/*"@),
            Some("*/"@),
        ),
        (ext == "html"@ || ext == "xml"@) ==> markers_for(ext) == (
            None::<Seq<char>>,
            Some("<!--"@),
            Some("-->"@),
        ),
        ext == "py"@ ==> markers_for(ext).0 == Some("#"@),
        (ext == "rb"@ || ext == "sh"@ || ext == "bash"@ || ext == "zsh"@) ==> markers_for(ext).0
            == Some("#"@),
        !(ext == "css"@ || ext == "scss"@ || ext == "less"@ || ext == "html"@ || ext == "xml"@
            || ext == "py"@ || ext == "rb"@ || ext == "sh"@ || ext == "bash"@ || ext == "zsh"@)
            ==> markers_for(ext) == (Some("//"@), Some("/*"@), Some("*/"@)),
{
    reveal_strlit("rs");
    reveal_strlit("go");
    reveal_strlit("java");
    reveal_strlit("ts");
    reveal_strlit("tsx");
    reveal_strlit("js");
    reveal_strlit("jsx");
    reveal_strlit("c");
    reveal_strlit("cpp");
    reveal_strlit("h");
    reveal_strlit("hpp");
    reveal_strlit("py");
    reveal_strlit("rb");
    reveal_strlit("sh");
    reveal_strlit("bash");
    reveal_strlit("zsh");
    reveal_strlit("html");
    reveal_strlit("xml");
    reveal_strlit("css");
    reveal_strlit("scss");
    reveal_strlit("less");
    assert("py"@[0] != "rs"@[0]);
    assert("py"@[0] != "go"@[0]);
    assert("py"@.len() != "java"@.len());
    assert("py"@[0] != "ts"@[0]);
    assert("py"@.len() != "tsx"@.len());
    assert("py"@[0] != "js"@[0]);
    assert("py"@.len() != "jsx"@.len());
    assert("py"@.len() != "c"@.len());
    assert("py"@.len() != "cpp"@.len());
    assert("py"@.len() != "h"@.len());
    assert("py"@.len() != "hpp"@.len());
    assert("rb"@[1] != "rs"@[1]);
    assert("rb"@[0] != "go"@[0]);
    assert("rb"@.len() != "java"@.len());
    assert("rb"@[0] != "ts"@[0]);
    assert("rb"@.len() != "tsx"@.len());
    assert("rb"@[0] != "js"@[0]);
    assert("rb"@.len() != "jsx"@.len());
    assert("rb"@.len() != "c"@.len());
    assert("rb"@.len() != "cpp"@.len());
    assert("rb"@.len() != "h"@.len());
    assert("rb"@.len() != "hpp"@.len());
    assert("rb"@[0] != "py"@[0]);
    assert("sh"@[0] != "rs"@[0]);
    assert("sh"@[0] != "go"@[0]);
    assert("sh"@.len() != "java"@.len());
    assert("sh"@[0] != "ts"@[0]);
    assert("sh"@.len() != "tsx"@.len());
    assert("sh"@[0] != "js"@[0]);
    assert("sh"@.len() != "jsx"@.len());
    assert("sh"@.len() != "c"@.len());
    assert("sh"@.len() != "cpp"@.len());
    assert("sh"@.len() != "h"@.len());
    assert("sh"@.len() != "hpp"@.len());
    assert("sh"@[0] != "py"@[0]);
    assert("sh"@[0] != "rb"@[0]);
    assert("bash"@.len() != "rs"@.len());
    assert("bash"@.len() != "go"@.len());
    assert("bash"@[0] != "java"@[0]);
    assert("bash"@.len() != "ts"@.len());
    assert("bash"@.len() != "tsx"@.len());
    assert("bash"@.len() != "js"@.len());
    assert("bash"@.len() != "jsx"@.len());
    assert("bash"@.len() != "c"@.len());
    assert("bash"@.len() != "cpp"@.len());
    assert("bash"@.len() != "h"@.len());
    assert("bash"@.len() != "hpp"@.len());
    assert("bash"@.len() != "py"@.len());
    assert("bash"@.len() != "rb"@.len());
    assert("bash"@.len() != "sh"@.len());
    assert("zsh"@.len() != "rs"@.len());
    assert("zsh"@.len() != "go"@.len());
    assert("zsh"@.len() != "java"@.len());
    assert("zsh"@.len() != "ts"@.len());
    assert("zsh"@[0] != "tsx"@[0]);
    assert("zsh"@.len() != "js"@.len());
    assert("zsh"@[0] != "jsx"@[0]);
    assert("zsh"@.len() != "c"@.len());
    assert("zsh"@[0] != "cpp"@[0]);
    assert("zsh"@.len() != "h"@.len());
    assert("zsh"@[0] != "hpp"@[0]);
    assert("zsh"@.len() != "py"@.len());
    assert("zsh"@.len() != "rb"@.len());
    assert("zsh"@.len() != "sh"@.len());
    assert("zsh"@.len() != "bash"@.len());
    assert("css"@.len() != "rs"@.len());
    assert("css"@.len() != "go"@.len());
    assert("css"@.len() != "java"@.len());
    assert("css"@.len() != "ts"@.len());
    assert("css"@.len() != "js"@.len());
    assert("css"@.len() != "c"@.len());
    assert("css"@.len() != "h"@.len());
    assert("css"@.len() != "py"@.len());
    assert("css"@.len() != "rb"@.len());
    assert("css"@.len() != "sh"@.len());
    assert("css"@.len() != "bash"@.len());
    assert("css"@.len() != "html"@.len());
    assert("scss"@.len() != "rs"@.len());
    assert("scss"@.len() != "go"@.len());
    assert("scss"@.len() != "ts"@.len());
    assert("scss"@.len() != "tsx"@.len());
    assert("scss"@.len() != "js"@.len());
    assert("scss"@.len() != "jsx"@.len());
    assert("scss"@.len() != "c"@.len());
    assert("scss"@.len() != "cpp"@.len());
    assert("scss"@.len() != "h"@.len());
    assert("scss"@.len() != "hpp"@.len());
    assert("scss"@.len() != "py"@.len());
    assert("scss"@.len() != "rb"@.len());
    assert("scss"@.len() != "sh"@.len());
    assert("scss"@.len() != "zsh"@.len());
    assert("scss"@.len() != "xml"@.len());
    assert("scss"@.len() != "css"@.len());
    assert("less"@.len() != "rs"@.len());
    assert("less"@.len() != "go"@.len());
    assert("less"@.len() != "ts"@.len());
    assert("less"@.len() != "tsx"@.len());
    assert("less"@.len() != "js"@.len());
    assert("less"@.len() != "jsx"@.len());
    assert("less"@.len() != "c"@.len());
    assert("less"@.len() != "cpp"@.len());
    assert("less"@.len() != "h"@.len());
    assert("less"@.len() != "hpp"@.len());
    assert("less"@.len() != "py"@.len());
    assert("less"@.len() != "rb"@.len());
    assert("less"@.len() != "sh"@.len());
    assert("less"@.len() != "zsh"@.len());
    assert("less"@.len() != "xml"@.len());
    assert("less"@.len() != "css"@.len());
    assert("html"@.len() != "rs"@.len());
    assert("html"@.len() != "go"@.len());
    assert("html"@.len() != "ts"@.len());
    assert("html"@.len() != "tsx"@.len());
    assert("html"@.len() != "js"@.len());
    assert("html"@.len() != "jsx"@.len());
    assert("html"@.len() != "c"@.len());
    assert("html"@.len() != "cpp"@.len());
    assert("html"@.len() != "h"@.len());
    assert("html"@.len() != "hpp"@.len());
    assert("html"@.len() != "py"@.len());
    assert("html"@.len() != "rb"@.len());
    assert("html"@.len() != "sh"@.len());
    assert("html"@.len() != "zsh"@.len());
    assert("xml"@.len() != "rs"@.len());
    assert("xml"@.len() != "go"@.len());
    assert("xml"@.len() != "java"@.len());
    assert("xml"@.len() != "ts"@.len());
    assert("xml"@.len() != "js"@.len());
    assert("xml"@.len() != "c"@.len());
    assert("xml"@.len() != "h"@.len());
    assert("xml"@.len() != "py"@.len());
    assert("xml"@.len() != "rb"@.len());
    assert("xml"@.len() != "sh"@.len());
    assert("xml"@.len() != "bash"@.len());
    assert("xml"@.len() != "html"@.len());
    assert("css"@[0] != "tsx"@[0]);
    assert("css"@[0] != "jsx"@[0]);
    assert("css"@[1] != "cpp"@[1]);
    assert("css"@[0] != "hpp"@[0]);
    assert("css"@[0] != "zsh"@[0]);
    assert("css"@[0] != "xml"@[0]);
    assert("scss"@[0] != "java"@[0]);
    assert("scss"@[0] != "bash"@[0]);
    assert("scss"@[0] != "html"@[0]);
    assert("less"@[0] != "java"@[0]);
    assert("less"@[0] != "bash"@[0]);
    assert("less"@[0] != "html"@[0]);
    assert("less"@[0] != "scss"@[0]);
    assert("html"@[0] != "java"@[0]);
    assert("html"@[0] != "bash"@[0]);
    assert("xml"@[0] != "tsx"@[0]);
    assert("xml"@[0] != "jsx"@[0]);
    assert("xml"@[0] != "cpp"@[0]);
    assert("xml"@[0] != "hpp"@[0]);
    assert("xml"@[0] != "zsh"@[0]);
}

/// How comments are recognised in each language: a line whose trimmed text
/// starts with the language's block-comment opener (`/*` for the C family
/// and for CSS, SCSS and Less; `<!--` for HTML and XML) is a comment line;
/// in the C family (and any other language not listed) so is one starting
/// with `//`, and in Python and shell scripts one starting with `#`; in
/// CSS, SCSS and Less a line starting with `//` outside a block comment is
/// code.
pub proof fn lemma_comment_markers(ext: Seq<char>, ls: Seq<Seq<char>>, i: int)
    requires
        0 <= i < ls.len(),
    ensures
        ({
            let t = trim(ls[i]);
            let k = kind_at(markers_for(ext), ls, i);
            let css = ext == "css"@ || ext == "scss"@ || ext == "less"@;
            let markup = ext == "html"@ || ext == "xml"@;
            let hash = ext == "py"@ || ext == "rb"@ || ext == "sh"@ || ext == "bash"@ || ext
                == "zsh"@;
            &&& css && has_prefix(t, "/*"@) ==> k == LineKind::Comment
            &&& markup && has_prefix(t, "<!--"@) ==> k == LineKind::Comment
            &&& !css && !markup && !hash && (has_prefix(t, "//"@) || has_prefix(t, "/*"@)) ==> k
                == LineKind::Comment
            &&& hash && has_prefix(t, "#"@) ==> k == LineKind::Comment
            &&& css && !block_open_after(markers_for(ext), ls.take(i)) && has_prefix(t, "//"@)
                && !has_prefix(t, "/*"@) ==> k == LineKind::Code
        }),
{
    let t = trim(ls[i]);
    lemma_markers_of(ext);
    reveal_strlit("/*");
    reveal_strlit("//");
    reveal_strlit("<!--");
    reveal_strlit("#");
    if t.len() == 0 {
        assert(!has_prefix(t, "/*"@) && !has_prefix(t, "//"@) && !has_prefix(t, "<!--"@)
            && !has_prefix(t, "#"@));
    }
}

/// Whether a block comment is open after the lines `ls`.
pub open spec fn block_open_after(m: Markers, ls: Seq<Seq<char>>) -> bool
    decreases ls.len(),
{
    if ls.len() == 0 {
        false
    } else {
        classify(m, block_open_after(m, ls.drop_last()), trim(ls.last())).1
    }
}

/// The kind of the line `ls[i]`, read after the lines before it.
pub open spec fn kind_at(m: Markers, ls: Seq<Seq<char>>, i: int) -> LineKind {
    classify(m, block_open_after(m, ls.take(i)), trim(ls[i])).0
}

/// The number of lines among the first `n` of `ls` that are of kind `k`.
pub open spec fn count_kind(m: Markers, ls: Seq<Seq<char>>, n: int, k: LineKind) -> nat
    decreases n,
{
    if n <= 0 {
        0
    } else {
        count_kind(m, ls, n - 1, k) + if kind_at(m, ls, n - 1) == k {
            1nat
        } else {
            0nat
        }
    }
}

impl FileStats {
    /// All counts zero.
    pub open spec fn zero() -> FileStats {
        FileStats { total_lines: 0, code_lines: 0, comment_lines: 0, blank_lines: 0 }
    }

    /// The number of lines of kind `k` in a file with content `c` and
    /// extension `ext`.
    pub open spec fn count_of(c: Seq<char>, ext: Seq<char>, k: LineKind) -> nat {
        count_kind(markers_for(ext), lines(c), lines(c).len() as int, k)
    }

    /// Calculate statistics for file content.
    pub fn calculate(content: &str, extension: &str) -> (r: Self)
        ensures
            r.total_lines == lines(content@).len(),
            r.code_lines == FileStats::count_of(content@, extension@, LineKind::Code),
            r.comment_lines == FileStats::count_of(content@, extension@, LineKind::Comment),
            r.blank_lines == FileStats::count_of(content@, extension@, LineKind::Blank),
    {
        let mut stats = FileStats::default();
        let mut in_block_comment = false;
        let (line_comment, block_start, block_end) = Self::comment_markers(extension);
        let ghost m = markers_for(extension@);
        let cs = to_chars(content);
        let ls = split_lines(&cs);
        let ghost sl = lines(cs@);
        let mut i: usize = 0;
        while i < ls.len()
            invariant
                i <= ls@.len(),
                ls@.len() == sl.len(),
                forall|k: int| 0 <= k < ls@.len() ==> #[trigger] ls@[k]@ == sl[k],
                m == (opt_chars(line_comment), opt_chars(block_start), opt_chars(block_end)),
                in_block_comment == block_open_after(m, sl.take(i as int)),
                stats.total_lines == i,
                stats.code_lines == count_kind(m, sl, i as int, LineKind::Code),
                stats.comment_lines == count_kind(m, sl, i as int, LineKind::Comment),
                stats.blank_lines == count_kind(m, sl, i as int, LineKind::Blank),
                stats.code_lines + stats.comment_lines + stats.blank_lines == i,
            decreases ls.len() - i,
        {
            let trimmed = trimmed(&ls[i]);
            let ghost before = in_block_comment;
            proof {
                assert(sl.take(i + 1).drop_last() =~= sl.take(i as int));
                assert(sl.take(i + 1).last() == sl[i as int]);
                assert(sl.take(i as int) == sl.take(i as int));
            }
            let kind;
            if trimmed.len() == 0 {
                kind = LineKind::Blank;
            } else {
                let mut decided = false;
                let mut k = LineKind::Code;
                match (&block_start, &block_end) {
                    (Some(start), Some(end)) => {
                        if in_block_comment {
                            if contains(&trimmed, end) {
                                in_block_comment = false;
                            }
                            k = LineKind::Comment;
                            decided = true;
                        } else if starts_with(&trimmed, start) {
                            in_block_comment = true;
                            if contains(&trimmed, end) {
                                in_block_comment = false;
                            }
                            k = LineKind::Comment;
                            decided = true;
                        }
                    },
                    _ => {},
                }
                if !decided {
                    match &line_comment {
                        Some(marker) => {
                            if starts_with(&trimmed, marker) {
                                k = LineKind::Comment;
                            }
                        },
                        None => {},
                    }
                }
                kind = k;
            }
            proof {
                assert(kind_at(m, sl, i as int) == kind);
                assert(block_open_after(m, sl.take(i + 1)) == in_block_comment);
            }
            stats.total_lines = stats.total_lines + 1;
            match kind {
                LineKind::Blank => {
                    stats.blank_lines = stats.blank_lines + 1;
                },
                LineKind::Comment => {
                    stats.comment_lines = stats.comment_lines + 1;
                },
                LineKind::Code => {
                    stats.code_lines = stats.code_lines + 1;
                },
            }
            i = i + 1;
        }
        stats
    }

    /// Get comment markers for a language extension.
    fn comment_markers(extension: &str) -> (r: (Option<Vec<char>>, Option<Vec<char>>, Option<Vec<char>>))
        ensures
            (opt_chars(r.0), opt_chars(r.1), opt_chars(r.2)) == markers_for(extension@),
    {
        let e = to_chars(extension);
        if chars_eq(&e, &to_chars("rs")) || chars_eq(&e, &to_chars("go")) || chars_eq(
            &e,
            &to_chars("java"),
        ) || chars_eq(&e, &to_chars("ts")) || chars_eq(&e, &to_chars("tsx")) || chars_eq(
            &e,
            &to_chars("js"),
        ) || chars_eq(&e, &to_chars("jsx")) || chars_eq(&e, &to_chars("c")) || chars_eq(
            &e,
            &to_chars("cpp"),
        ) || chars_eq(&e, &to_chars("h")) || chars_eq(&e, &to_chars("hpp")) {
            (Some(to_chars("//")), Some(to_chars("/*")), Some(to_chars("*/")))
        } else if chars_eq(&e, &to_chars("py")) {
            (Some(to_chars("#")), Some(to_chars("\"\"\"")), Some(to_chars("\"\"\"")))
        } else if chars_eq(&e, &to_chars("rb")) {
            (Some(to_chars("#")), Some(to_chars("=begin")), Some(to_chars("=end")))
        } else if chars_eq(&e, &to_chars("sh")) || chars_eq(&e, &to_chars("bash")) || chars_eq(
            &e,
            &to_chars("zsh"),
        ) {
            (Some(to_chars("#")), None, None)
        } else if chars_eq(&e, &to_chars("html")) || chars_eq(&e, &to_chars("xml")) {
            (None, Some(to_chars("<!--")), Some(to_chars("-->")))
        } else if chars_eq(&e, &to_chars("css")) || chars_eq(&e, &to_chars("scss")) || chars_eq(
            &e,
            &to_chars("less"),
        ) {
            (None, Some(to_chars("/*")), Some(to_chars("*/")))
        } else {
            (Some(to_chars("//")), Some(to_chars("/*")), Some(to_chars("*/")))
        }
    }
}

/// Every line of a file is counted exactly once: as code, comment or blank.
pub proof fn lemma_line_kinds_partition(content: Seq<char>, ext: Seq<char>)
    ensures
        FileStats::count_of(content, ext, LineKind::Code) + FileStats::count_of(
            content,
            ext,
            LineKind::Comment,
        ) + FileStats::count_of(content, ext, LineKind::Blank) == lines(content).len(),
{
    lemma_count_kinds_sum(markers_for(ext), lines(content), lines(content).len() as int);
}

proof fn lemma_count_kinds_sum(m: Markers, ls: Seq<Seq<char>>, n: int)
    requires
        0 <= n,
    ensures
        count_kind(m, ls, n, LineKind::Code) + count_kind(m, ls, n, LineKind::Comment)
            + count_kind(m, ls, n, LineKind::Blank) == n,
    decreases n,
{
    if n > 0 {
        lemma_count_kinds_sum(m, ls, n - 1);
    }
}

} // verus!
