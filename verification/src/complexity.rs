//! Complexity analysis: function extraction, cyclomatic complexity, nesting
//! depth, and the aggregated complexity report.

use vstd::prelude::*;
use crate::regex_support::{
    captures_all, opt_string, find_count_each, groups_view, regex_captures_all, regex_compiles,
    regex_find_count,
};
use crate::text::{
    byte_len, char_index_at, char_index_of, char_len_utf8, chars_eq, decimal, extend_chars,
    extend_str, from_chars, is_char_boundary, is_whitespace, lemma_lines_len, lemma_utf8_len_add,
    lemma_utf8_len_bound, lines, push_decimal, slice, split_lines, to_chars, trim, trim_start,
    trimmed, utf8_len, char_width, is_ws,
};

verus! {

/// Complexity metrics for a function.
#[derive(Debug)]
pub struct FunctionComplexity {
    pub name: String,
    pub line_start: usize,
    pub line_count: usize,
    pub cyclomatic_complexity: usize,
    pub nesting_depth: usize,
}

/// Complexity metrics for a single file.
#[derive(Debug)]
pub struct FileComplexity {
    pub path: String,
    pub functions: Vec<FunctionComplexity>,
    pub total_complexity: usize,
    pub max_nesting: usize,
    pub long_functions: usize,
}

/// The mathematical content of a [`FunctionComplexity`].
pub struct FunctionView {
    pub name: Seq<char>,
    pub line_start: usize,
    pub line_count: usize,
    pub cyclomatic_complexity: usize,
    pub nesting_depth: usize,
}

impl View for FunctionComplexity {
    type V = FunctionView;

    open spec fn view(&self) -> FunctionView {
        FunctionView {
            name: self.name@,
            line_start: self.line_start,
            line_count: self.line_count,
            cyclomatic_complexity: self.cyclomatic_complexity,
            nesting_depth: self.nesting_depth,
        }
    }
}

/// The views of a sequence of function metrics.
pub open spec fn fn_views(v: Seq<FunctionComplexity>) -> Seq<FunctionView> {
    v.map_values(|f: FunctionComplexity| f@)
}

proof fn lemma_fn_views_push(v: Seq<FunctionComplexity>, x: FunctionComplexity)
    ensures
        fn_views(v.push(x)) == fn_views(v).push(x@),
{
    assert(fn_views(v.push(x)) =~= fn_views(v).push(x@));
}

/// `x` capped at `usize::MAX`: sums that would not fit saturate.
pub open spec fn sat(x: nat) -> usize {
    if x > usize::MAX {
        usize::MAX
    } else {
        x as usize
    }
}

proof fn lemma_sat_add(x: nat, y: nat, a: usize)
    requires
        a == sat(x),
    ensures
        a.saturating_add(y as usize) == sat(x + y) || y > usize::MAX,
{
}

// ---------------------------------------------------------------------------
// Function extraction
// ---------------------------------------------------------------------------

/// The pattern that finds function definitions in files with extension `ext`.
pub open spec fn fn_pattern(ext: Seq<char>) -> Option<Seq<char>> {
    if ext == "rs"@ {
        Some(RS_FN_PATTERN@)
    } else if ext == "ts"@ || ext == "tsx"@ || ext == "js"@ || ext == "jsx"@ {
        Some(JS_FN_PATTERN@)
    } else if ext == "py"@ {
        Some(PY_FN_PATTERN@)
    } else if ext == "go"@ {
        Some(GO_FN_PATTERN@)
    } else if ext == "java"@ {
        Some(JAVA_FN_PATTERN@)
    } else {
        None
    }
}

pub const RS_FN_PATTERN: &'static str = r"(?m)^\s*(?:pub\s+)?(?:async\s+)?fn\s+(\w+)";

pub const JS_FN_PATTERN: &'static str = r"(?m)(?:function\s+(\w+)|(?:const|let|var)\s+(\w+)\s*=\s*(?:async\s*)?\()";

pub const PY_FN_PATTERN: &'static str = r"(?m)^\s*def\s+(\w+)";

pub const GO_FN_PATTERN: &'static str = r"(?m)^func\s+(?:\([^)]+\)\s+)?(\w+)";

pub const JAVA_FN_PATTERN: &'static str = r"(?m)(?:public|private|protected)?\s*(?:static\s+)?(?:\w+\s+)+(\w+)\s*\(";

/// The first capture group after group 0 that took part in the match.
pub open spec fn first_group(g: Seq<Option<Seq<char>>>, i: int) -> Option<Seq<char>>
    decreases g.len() - i,
{
    if i >= g.len() || i < 1 {
        None
    } else if g[i] is Some {
        g[i]
    } else {
        first_group(g, i + 1)
    }
}

/// The name of a captured function: the first participating group, or
/// `anonymous`.
pub open spec fn capture_name(g: Seq<Option<Seq<char>>>) -> Seq<char> {
    match first_group(g, 1) {
        Some(n) => n,
        None => "anonymous"@,
    }
}

/// The leading-whitespace width of a line, in UTF-8 bytes.
pub open spec fn indent(l: Seq<char>) -> int {
    utf8_len(l) - utf8_len(trim_start(l))
}

/// The first line at or after `i` that is not blank and is indented no more
/// than `first`.
pub open spec fn py_scan(ls: Seq<Seq<char>>, first: int, i: int) -> Option<int>
    decreases ls.len() - i,
{
    if i < 0 || i >= ls.len() {
        None
    } else if trim(ls[i]).len() > 0 && indent(ls[i]) <= first {
        Some(i)
    } else {
        py_scan(ls, first, i + 1)
    }
}

/// The byte length of the first `i` lines joined with `'\n'`.
pub open spec fn joined_len(ls: Seq<Seq<char>>, i: int) -> nat
    decreases i,
{
    if i <= 0 {
        0
    } else if i == 1 {
        utf8_len(ls[0])
    } else {
        joined_len(ls, i - 1) + 1 + utf8_len(ls[i - 1])
    }
}


proof fn lemma_joined_front(x: Seq<char>, r: Seq<Seq<char>>, i: int)
    requires
        1 <= i <= r.len() + 1,
    ensures
        joined_len(seq![x] + r, i) == if i == 1 {
            utf8_len(x)
        } else {
            utf8_len(x) + 1 + joined_len(r, i - 1)
        },
    decreases i,
{
    if i > 1 {
        lemma_joined_front(x, r, i - 1);
        assert((seq![x] + r)[i - 1] == r[i - 2]);
    }
}

/// The first `i` lines of a text, joined with `'\n'`, take at most four
/// bytes per character of the text.
proof fn lemma_joined_bound(s: Seq<char>, i: int)
    requires
        0 <= i <= lines(s).len(),
    ensures
        joined_len(lines(s), i) <= 4 * s.len(),
    decreases s.len(),
{
    if i > 0 && s.len() > 0 {
        let k = crate::text::first_newline(s);
        crate::text::lemma_first_newline(s);
        if k >= s.len() {
            lemma_utf8_len_bound(s);
        } else {
            crate::text::lemma_lines_front(s);
            let x = crate::text::strip_cr(s.take(k));
            let r = lines(s.skip(k + 1));
            lemma_joined_front(x, r, i);
            lemma_utf8_len_bound(x);
            if i > 1 {
                lemma_joined_bound(s.skip(k + 1), i - 1);
            }
        }
    }
}

/// Where a Python function body starts at the front of `s` ends (a byte
/// count): before the next line indented no deeper than the first.
pub open spec fn py_end(s: Seq<char>) -> nat {
    let ls = lines(s);
    if ls.len() == 0 {
        utf8_len(s)
    } else {
        match py_scan(ls, indent(ls[0]), 1) {
            Some(i) => joined_len(ls, i),
            None => utf8_len(s),
        }
    }
}

/// The brace scan from character index `i` with open-brace balance `count`:
/// one past the index of the `}` that closes the first opened brace, else
/// the character count (1 for empty text).
pub open spec fn brace_scan(s: Seq<char>, i: int, count: int, started: bool) -> nat
    decreases s.len() - i,
{
    if i < 0 || i >= s.len() {
        if s.len() == 0 {
            1
        } else {
            s.len()
        }
    } else if s[i] == '{' {
        brace_scan(s, i + 1, count + 1, true)
    } else if s[i] == '}' {
        if started && count - 1 == 0 {
            (i + 1) as nat
        } else {
            brace_scan(s, i + 1, count - 1, started)
        }
    } else {
        brace_scan(s, i + 1, count, started)
    }
}

/// Where the function body at the front of `s` ends, by the heuristic for
/// the language of `ext`.
pub open spec fn function_end(s: Seq<char>, ext: Seq<char>) -> nat {
    if ext == "py"@ {
        py_end(s)
    } else {
        brace_scan(s, 0, 0, false)
    }
}

/// The number of leading characters of `s` whose byte offset is below `e`.
pub open spec fn chars_before(s: Seq<char>, e: int) -> nat
    decreases s.len(),
{
    if s.len() == 0 || e <= 0 {
        0
    } else {
        1 + chars_before(s.drop_first(), e - char_width(s[0]))
    }
}

/// The function body starting at character `k` of `c`.
pub open spec fn body_at(c: Seq<char>, k: int, ext: Seq<char>) -> Seq<char> {
    let rest = c.skip(k);
    rest.take(chars_before(rest, function_end(rest, ext) as int) as int)
}

// ---------------------------------------------------------------------------
// Metrics
// ---------------------------------------------------------------------------

/// The decision-point patterns counted for a language.
pub open spec fn cyclomatic_patterns(ext: Seq<char>) -> Seq<Seq<char>> {
    if ext == "rs"@ {
        seq![r"\bif\b"@, r"\belse\s+if\b"@, r"\bwhile\b"@, r"\bfor\b"@, r"\bloop\b"@, r"\bmatch\b"@, r"\b\?\b"@, r"&&"@, r"\|\|"@]
    } else if ext == "ts"@ || ext == "tsx"@ || ext == "js"@ || ext == "jsx"@ || ext == "java"@ {
        seq![r"\bif\b"@, r"\belse\s+if\b"@, r"\bwhile\b"@, r"\bfor\b"@, r"\bswitch\b"@, r"\bcase\b"@, r"\bcatch\b"@, r"\?"@, r"&&"@, r"\|\|"@]
    } else if ext == "py"@ {
        seq![r"\bif\b"@, r"\belif\b"@, r"\bwhile\b"@, r"\bfor\b"@, r"\bexcept\b"@, r"\band\b"@, r"\bor\b"@]
    } else if ext == "go"@ {
        seq![r"\bif\b"@, r"\belse\s+if\b"@, r"\bfor\b"@, r"\bswitch\b"@, r"\bcase\b"@, r"\bselect\b"@, r"&&"@, r"\|\|"@]
    } else {
        seq![r"\bif\b"@, r"\bwhile\b"@, r"\bfor\b"@, r"&&"@, r"\|\|"@]
    }
}

/// The number of matches of the first `n` patterns in `text` (a pattern
/// that does not compile counts nothing).
pub open spec fn pattern_hits(pats: Seq<Seq<char>>, n: int, text: Seq<char>) -> nat
    decreases n,
{
    if n <= 0 {
        0
    } else {
        pattern_hits(pats, n - 1, text) + if regex_compiles(pats[n - 1]) {
            regex_find_count(pats[n - 1], text)
        } else {
            0
        }
    }
}

/// The cyclomatic complexity of `text`: one plus its decision points.
pub open spec fn cyclomatic(text: Seq<char>, ext: Seq<char>) -> usize {
    let pats = cyclomatic_patterns(ext);
    sat(1 + pattern_hits(pats, pats.len() as int, text))
}

/// The matches of pattern `p` in `text`, when it compiles.
pub open spec fn hits_of(p: Seq<char>, text: Seq<char>) -> nat {
    if regex_compiles(p) {
        regex_find_count(p, text)
    } else {
        0
    }
}

proof fn lemma_hits_monotone(pats: Seq<Seq<char>>, i: int, j: int, text: Seq<char>)
    requires
        0 <= i <= j,
    ensures
        pattern_hits(pats, i, text) <= pattern_hits(pats, j, text),
    decreases j - i,
{
    if i < j {
        lemma_hits_monotone(pats, i, j - 1, text);
    }
}

proof fn lemma_hits_three(pats: Seq<Seq<char>>, a: int, b: int, c: int, n: int, text: Seq<char>)
    requires
        0 <= a < b < c < n,
    ensures
        pattern_hits(pats, n, text) >= hits_of(pats[a], text) + hits_of(pats[b], text) + hits_of(
            pats[c],
            text,
        ),
{
    lemma_hits_monotone(pats, c + 1, n, text);
    lemma_hits_monotone(pats, b + 1, c, text);
    lemma_hits_monotone(pats, a + 1, b, text);
}

proof fn lemma_hits_two(pats: Seq<Seq<char>>, a: int, b: int, n: int, text: Seq<char>)
    requires
        0 <= a < b < n,
    ensures
        pattern_hits(pats, n, text) >= hits_of(pats[a], text) + hits_of(pats[b], text),
{
    lemma_hits_monotone(pats, b + 1, n, text);
    lemma_hits_monotone(pats, a + 1, b, text);
}

/// Every language counts each `if` and each `for` as a decision point, and
/// every language but Go each `while` too (Go has no `while`): the
/// cyclomatic complexity is at least one plus their matches (capped at
/// `usize::MAX`), and never below one.
pub proof fn lemma_cyclomatic_counts_loops(text: Seq<char>, ext: Seq<char>)
    ensures
        cyclomatic(text, ext) >= 1,
        cyclomatic(text, ext) >= sat(
            1 + hits_of(r"\bif\b"@, text) + hits_of(r"\bfor\b"@, text) + if ext == "go"@ {
                0
            } else {
                hits_of(r"\bwhile\b"@, text)
            },
        ),
{
    let pats = cyclomatic_patterns(ext);
    let n = pats.len() as int;
    if ext == "rs"@ {
        lemma_hits_three(pats, 0, 2, 3, n, text);
    } else if ext == "ts"@ || ext == "tsx"@ || ext == "js"@ || ext == "jsx"@ || ext == "java"@ {
        lemma_hits_three(pats, 0, 2, 3, n, text);
    } else if ext == "py"@ {
        lemma_hits_three(pats, 0, 2, 3, n, text);
    } else if ext == "go"@ {
        lemma_hits_two(pats, 0, 2, n, text);
    } else {
        lemma_hits_three(pats, 0, 1, 2, n, text);
    }
}

proof fn lemma_hits_one(pats: Seq<Seq<char>>, a: int, n: int, text: Seq<char>)
    requires
        0 <= a < n,
    ensures
        pattern_hits(pats, n, text) >= hits_of(pats[a], text),
{
    lemma_hits_monotone(pats, a + 1, n, text);
}

/// Each decision point of a language adds its matches to the cyclomatic
/// complexity: for Rust `if`, `else if`, `while`, `for`, `loop`, `match`,
/// `?`, `&&` and `||`; for JavaScript, TypeScript and Java also `switch`,
/// `case` and `catch` (and `?` and the two operators, but no `loop` or
/// `match`); for Python `elif`, `except`, `and` and `or`; for Go `switch`,
/// `case` and `select`; for other languages `if`, `while`, `for`, `&&` and
/// `||`.
pub proof fn lemma_cyclomatic_counts_each(text: Seq<char>, ext: Seq<char>, p: Seq<char>)
    requires
        ext == "rs"@ ==> seq![r"\bif\b"@, r"\belse\s+if\b"@, r"\bwhile\b"@, r"\bfor\b"@, r"\bloop\b"@, r"\bmatch\b"@, r"\b\?\b"@, r"&&"@, r"\|\|"@].contains(p),
        (ext == "ts"@ || ext == "tsx"@ || ext == "js"@ || ext == "jsx"@ || ext == "java"@) ==> seq![r"\bif\b"@, r"\belse\s+if\b"@, r"\bwhile\b"@, r"\bfor\b"@, r"\bswitch\b"@, r"\bcase\b"@, r"\bcatch\b"@, r"\?"@, r"&&"@, r"\|\|"@].contains(p),
        ext == "py"@ ==> seq![r"\bif\b"@, r"\belif\b"@, r"\bwhile\b"@, r"\bfor\b"@, r"\bexcept\b"@, r"\band\b"@, r"\bor\b"@].contains(p),
        ext == "go"@ ==> seq![r"\bif\b"@, r"\belse\s+if\b"@, r"\bfor\b"@, r"\bswitch\b"@, r"\bcase\b"@, r"\bselect\b"@, r"&&"@, r"\|\|"@].contains(p),
        !(ext == "rs"@ || ext == "ts"@ || ext == "tsx"@ || ext == "js"@ || ext == "jsx"@ || ext == "java"@ || ext == "py"@ || ext == "go"@) ==> seq![r"\bif\b"@, r"\bwhile\b"@, r"\bfor\b"@, r"&&"@, r"\|\|"@].contains(p),
    ensures
        cyclomatic(text, ext) >= sat(1 + hits_of(p, text)),
{
    let pats = cyclomatic_patterns(ext);
    let j = choose|j: int| 0 <= j < pats.len() && pats[j] == p;
    lemma_hits_one(pats, j, pats.len() as int, text);
}

/// The bracket depth after `s`, and the greatest depth reached along `s`;
/// `{` and `(` open, `}` and `)` close (never below zero).
pub open spec fn nesting(s: Seq<char>) -> (nat, nat)
    decreases s.len(),
{
    if s.len() == 0 {
        (0, 0)
    } else {
        let (d, m) = nesting(s.drop_last());
        let c = s.last();
        if c == '{' || c == '(' {
            (d + 1, if m > d + 1 {
                m
            } else {
                d + 1
            })
        } else if c == '}' || c == ')' {
            (if d > 0 {
                (d - 1) as nat
            } else {
                0
            }, m)
        } else {
            (d, m)
        }
    }
}

/// The number of opening brackets in `s`.
pub open spec fn openers(s: Seq<char>) -> nat
    decreases s.len(),
{
    if s.len() == 0 {
        0
    } else {
        openers(s.drop_last()) + if s.last() == '{' || s.last() == '(' {
            1nat
        } else {
            0nat
        }
    }
}

/// The nesting depth never exceeds the number of opening brackets.
pub proof fn lemma_nesting_bounded_by_openers(s: Seq<char>)
    ensures
        nesting(s).0 <= nesting(s).1 <= openers(s),
        openers(s) <= s.len(),
    decreases s.len(),
{
    if s.len() > 0 {
        lemma_nesting_bounded_by_openers(s.drop_last());
    }
}

/// The metrics of the function whose match starts at byte offset `off` with
/// capture groups `g`, in file content `c` of extension `ext`.
pub open spec fn function_view(
    c: Seq<char>,
    ext: Seq<char>,
    off: nat,
    g: Seq<Option<Seq<char>>>,
) -> FunctionView {
    let k = char_index_of(c, off);
    let body = body_at(c, k, ext);
    FunctionView {
        name: capture_name(g),
        line_start: (lines(c.take(k)).len() + 1) as usize,
        line_count: lines(body).len() as usize,
        cyclomatic_complexity: cyclomatic(body, ext),
        nesting_depth: nesting(body).1 as usize,
    }
}

/// The functions found in file content `c` of extension `ext`, in order.
pub open spec fn functions_of(c: Seq<char>, ext: Seq<char>) -> Seq<FunctionView> {
    match fn_pattern(ext) {
        Some(p) => if regex_compiles(p) {
            let caps = regex_captures_all(p, c);
            Seq::new(caps.len(), |i: int| function_view(c, ext, caps[i].0, caps[i].1))
        } else {
            Seq::empty()
        },
        None => Seq::empty(),
    }
}

/// The sum of the cyclomatic complexities of the first `n` functions.
pub open spec fn complexity_sum(fs: Seq<FunctionView>, n: int) -> nat
    decreases n,
{
    if n <= 0 {
        0
    } else {
        complexity_sum(fs, n - 1) + fs[n - 1].cyclomatic_complexity as nat
    }
}

/// The greatest nesting depth among the first `n` functions.
pub open spec fn max_nesting_of(fs: Seq<FunctionView>, n: int) -> usize
    decreases n,
{
    if n <= 0 {
        0
    } else {
        let m = max_nesting_of(fs, n - 1);
        if fs[n - 1].nesting_depth > m {
            fs[n - 1].nesting_depth
        } else {
            m
        }
    }
}

/// The number of functions longer than 50 lines among the first `n`.
pub open spec fn long_count(fs: Seq<FunctionView>, n: int) -> nat
    decreases n,
{
    if n <= 0 {
        0
    } else {
        long_count(fs, n - 1) + if fs[n - 1].line_count > 50 {
            1nat
        } else {
            0nat
        }
    }
}

/// The greatest nesting depth is the nesting depth of some function, and no
/// function nests deeper.
pub proof fn lemma_max_nesting(fs: Seq<FunctionView>, n: int)
    requires
        0 <= n <= fs.len(),
    ensures
        forall|i: int| 0 <= i < n ==> fs[i].nesting_depth <= max_nesting_of(fs, n),
        n > 0 ==> exists|i: int| 0 <= i < n && fs[i].nesting_depth == max_nesting_of(fs, n),
    decreases n,
{
    if n > 0 {
        lemma_max_nesting(fs, n - 1);
        if n > 1 && fs[n - 1].nesting_depth <= max_nesting_of(fs, n - 1) {
            let i = choose|i: int| 0 <= i < n - 1 && fs[i].nesting_depth == max_nesting_of(fs, n - 1);
            assert(fs[i].nesting_depth == max_nesting_of(fs, n));
        }
    }
}

pub struct ComplexityAnalyzer;

impl ComplexityAnalyzer {
    /// Analyze a file's complexity. `path` is the file's path as displayed.
    pub fn analyze(path: &str, content: &str, extension: &str) -> (r: FileComplexity)
        requires
            content@.len() < usize::MAX,
        ensures
            r.path@ == path@,
            fn_views(r.functions@) == functions_of(content@, extension@),
            r.total_complexity == sat(
                complexity_sum(functions_of(content@, extension@), r.functions@.len() as int),
            ),
            r.max_nesting == max_nesting_of(
                functions_of(content@, extension@),
                r.functions@.len() as int,
            ),
            r.long_functions == long_count(
                functions_of(content@, extension@),
                r.functions@.len() as int,
            ),
            forall|j: int|
                0 <= j < r.functions@.len() ==> (#[trigger] r.functions@[j]).line_start >= 1
                    && r.functions@[j].cyclomatic_complexity >= 1,
    {
        let functions = Self::extract_functions(content, extension);
        let ghost fs = functions_of(content@, extension@);
        let mut result: Vec<FunctionComplexity> = Vec::new();
        let mut total: usize = 0;
        let mut max_nesting: usize = 0;
        let mut long_functions: usize = 0;
        let mut i: usize = 0;
        let n = functions.len();
        while i < n
            invariant
                n == functions@.len(),
                fs == functions_of(content@, extension@),
                fn_views(functions@) == fs,
                i <= n,
                fn_views(result@) == fs.take(i as int),
                total == sat(complexity_sum(fs, i as int)),
                max_nesting == max_nesting_of(fs, i as int),
                long_functions == long_count(fs, i as int),
                long_functions <= i,
                forall|j: int|
                    0 <= j < functions@.len() ==> (#[trigger] functions@[j]).line_start >= 1
                        && functions@[j].cyclomatic_complexity >= 1,
                forall|j: int|
                    0 <= j < result@.len() ==> (#[trigger] result@[j]).line_start >= 1
                        && result@[j].cyclomatic_complexity >= 1,
            decreases n - i,
        {
            let f = &functions[i];
            proof {
                assert(fn_views(functions@)[i as int] == functions@[i as int]@);
            }
            if f.line_count > 50 {
                long_functions = long_functions + 1;
            }
            total = total.saturating_add(f.cyclomatic_complexity);
            if f.nesting_depth > max_nesting {
                max_nesting = f.nesting_depth;
            }
            let copy = FunctionComplexity {
                name: f.name.clone(),
                line_start: f.line_start,
                line_count: f.line_count,
                cyclomatic_complexity: f.cyclomatic_complexity,
                nesting_depth: f.nesting_depth,
            };
            let ghost before = result@;
            assert(copy@ == fs[i as int]);
            result.push(copy);
            proof {
                lemma_fn_views_push(before, copy);
                assert(fs.take(i + 1) =~= fs.take(i as int).push(fs[i as int]));
            }
            i = i + 1;
        }
        proof {
            assert(fs.take(n as int) =~= fs);
        }
        FileComplexity {
            path: path.to_owned(),
            functions: result,
            total_complexity: total,
            max_nesting,
            long_functions,
        }
    }

    fn fn_pattern_for(extension: &str) -> (r: Option<&'static str>)
        ensures
            match r {
                Some(p) => fn_pattern(extension@) == Some(p@),
                None => fn_pattern(extension@) is None,
            },
    {
        let e = to_chars(extension);
        if chars_eq(&e, &to_chars("rs")) {
            Some(RS_FN_PATTERN)
        } else if chars_eq(&e, &to_chars("ts")) || chars_eq(&e, &to_chars("tsx")) || chars_eq(
            &e,
            &to_chars("js"),
        ) || chars_eq(&e, &to_chars("jsx")) {
            Some(JS_FN_PATTERN)
        } else if chars_eq(&e, &to_chars("py")) {
            Some(PY_FN_PATTERN)
        } else if chars_eq(&e, &to_chars("go")) {
            Some(GO_FN_PATTERN)
        } else if chars_eq(&e, &to_chars("java")) {
            Some(JAVA_FN_PATTERN)
        } else {
            None
        }
    }

    /// Extract the functions of a file with their metrics.
    fn extract_functions(content: &str, extension: &str) -> (r: Vec<FunctionComplexity>)
        requires
            content@.len() < usize::MAX,
        ensures
            fn_views(r@) == functions_of(content@, extension@),
            forall|j: int|
                0 <= j < r@.len() ==> (#[trigger] r@[j]).line_start >= 1
                    && r@[j].cyclomatic_complexity >= 1,
    {
        let mut functions: Vec<FunctionComplexity> = Vec::new();
        let pattern = match Self::fn_pattern_for(extension) {
            Some(p) => p,
            None => {
                assert(fn_views(functions@) =~= Seq::<FunctionView>::empty());
                return functions;
            },
        };
        let caps = match captures_all(pattern, content) {
            Some(c) => c,
            None => {
                assert(fn_views(functions@) =~= Seq::<FunctionView>::empty());
                return functions;
            },
        };
        let cs = to_chars(content);
        let ghost all = regex_captures_all(pattern@, content@);
        let ghost expected = functions_of(content@, extension@);
        assert(expected =~= Seq::new(
            all.len(),
            |i: int| function_view(content@, extension@, all[i].0, all[i].1),
        ));
        let mut i: usize = 0;
        while i < caps.len()
            invariant
                i <= caps@.len(),
                cs@ == content@,
                cs@.len() < usize::MAX,
                all == regex_captures_all(pattern@, content@),
                caps@.len() == all.len(),
                forall|j: int|
                    0 <= j < caps@.len() ==> (#[trigger] caps@[j]).0 == all[j].0 && groups_view(
                        Some(caps@[j].1),
                    ) == Some(all[j].1),
                forall|j: int|
                    0 <= j < caps@.len() ==> is_char_boundary(content@, (#[trigger] caps@[j]).0 as nat),
                expected == Seq::new(
                    all.len(),
                    |j: int| function_view(content@, extension@, all[j].0, all[j].1),
                ),
                fn_views(functions@) == expected.take(i as int),
                forall|j: int|
                    0 <= j < functions@.len() ==> (#[trigger] functions@[j]).line_start >= 1
                        && functions@[j].cyclomatic_complexity >= 1,
            decreases caps.len() - i,
        {
            let (off, groups) = (&caps[i].0, &caps[i].1);
            proof {
                let _ = caps@[i as int];
            }
            let f = Self::function_at(&cs, *off, groups, extension);
            proof {
                assert(f@ == function_view(content@, extension@, all[i as int].0, all[i as int].1));
            }
            let ghost before = functions@;
            functions.push(f);
            proof {
                lemma_fn_views_push(before, f);
                assert(expected.take(i + 1) =~= expected.take(i as int).push(expected[i as int]));
            }
            i = i + 1;
        }
        assert(expected.take(caps@.len() as int) =~= expected);
        functions
    }

    /// The metrics of the function whose match starts at byte offset `off`.
    fn function_at(cs: &Vec<char>, off: usize, groups: &Vec<Option<String>>, extension: &str) -> (r:
        FunctionComplexity)
        requires
            cs@.len() < usize::MAX,
            is_char_boundary(cs@, off as nat),
        ensures
            r@ == function_view(cs@, extension@, off as nat, groups_view(Some(*groups))->0),
            r.line_start >= 1,
            r.cyclomatic_complexity >= 1,
    {
        let name = Self::capture_name(groups);
        let k = char_index_at(cs, off);
        let before = slice(cs, 0, k);
        assert(before@ =~= cs@.take(k as int));
        let before_lines = split_lines(&before);
        proof {
            lemma_lines_len(before@);
        }
        let line_num = before_lines.len() + 1;
        let rest = slice(cs, k, cs.len());
        assert(rest@ =~= cs@.skip(k as int));
        let body_end = Self::find_function_end(&rest, extension);
        let t = Self::count_chars_before(&rest, body_end);
        let body = slice(&rest, 0, t);
        assert(body@ =~= rest@.take(t as int));
        let body_lines = split_lines(&body);
        let cyclomatic = Self::calculate_cyclomatic(&body, extension);
        let nesting = Self::calculate_max_nesting(&body, extension);
        FunctionComplexity {
            name,
            line_start: line_num,
            line_count: body_lines.len(),
            cyclomatic_complexity: cyclomatic,
            nesting_depth: nesting,
        }
    }

    /// The first participating capture group after group 0, or `anonymous`.
    fn capture_name(groups: &Vec<Option<String>>) -> (r: String)
        ensures
            r@ == capture_name(groups_view(Some(*groups))->0),
    {
        let ghost g = groups_view(Some(*groups))->0;
        let mut i: usize = 1;
        while i < groups.len()
            invariant
                1 <= i,
                g == groups_view(Some(*groups))->0,
                g.len() == groups@.len(),
                first_group(g, 1) == first_group(g, i as int),
            decreases groups.len() - i,
        {
            match &groups[i] {
                Some(s) => {
                    assert(g[i as int] == Some(s@));
                    return s.clone();
                },
                None => {
                    assert(g[i as int] == opt_string(groups@[i as int]));
                },
            }
            i = i + 1;
        }
        "anonymous".to_owned()
    }

    /// The number of leading characters of `s` whose byte offset is below `e`.
    fn count_chars_before(s: &Vec<char>, e: u128) -> (t: usize)
        ensures
            t == chars_before(s@, e as int),
            t <= s@.len(),
    {
        let mut t: usize = 0;
        let mut off: u128 = 0;
        proof {
            assert(s@.skip(0) =~= s@);
        }
        while t < s.len() && off < e
            invariant
                t <= s@.len(),
                off == utf8_len(s@.take(t as int)),
                off <= 4 * t,
                chars_before(s@, e as int) == t + chars_before(s@.skip(t as int), e - off),
            decreases s.len() - t,
        {
            proof {
                assert(s@.take(t + 1).drop_last() =~= s@.take(t as int));
                assert(s@.skip(t as int).drop_first() =~= s@.skip(t + 1));
            }
            off = off + char_len_utf8(s[t]);
            t = t + 1;
        }
        t
    }

    /// Find the end of a function body (a byte count by the heuristic of the
    /// language).
    fn find_function_end(content: &Vec<char>, extension: &str) -> (r: u128)
        ensures
            r == function_end(content@, extension@),
    {
        let e = to_chars(extension);
        if chars_eq(&e, &to_chars("py")) {
            Self::python_function_end(content)
        } else {
            Self::brace_function_end(content)
        }
    }

    fn brace_function_end(content: &Vec<char>) -> (r: u128)
        ensures
            r == brace_scan(content@, 0, 0, false),
    {
        let mut brace_count: i128 = 0;
        let mut started = false;
        let mut i: usize = 0;
        while i < content.len()
            invariant
                i <= content@.len(),
                -(i as int) <= brace_count <= i,
                brace_scan(content@, 0, 0, false) == brace_scan(
                    content@,
                    i as int,
                    brace_count as int,
                    started,
                ),
            decreases content.len() - i,
        {
            let ch = content[i];
            if ch == '{' {
                brace_count = brace_count + 1;
                started = true;
            } else if ch == '}' {
                brace_count = brace_count - 1;
                if started && brace_count == 0 {
                    return (i + 1) as u128;
                }
            }
            i = i + 1;
        }
        if content.len() == 0 {
            1
        } else {
            content.len() as u128
        }
    }

    /// The leading-whitespace width of a line in bytes.
    fn indent_of(l: &Vec<char>) -> (r: u128)
        ensures
            r == indent(l@),
    {
        let mut k: usize = 0;
        proof {
            assert(l@.skip(0) =~= l@);
        }
        while k < l.len() && is_whitespace(l[k])
            invariant
                k <= l@.len(),
                trim_start(l@) == trim_start(l@.skip(k as int)),
            decreases l.len() - k,
        {
            proof {
                assert(l@.skip(k as int).drop_first() =~= l@.skip(k + 1));
            }
            k = k + 1;
        }
        let lead = slice(l, 0, k);
        let tail = slice(l, k, l.len());
        proof {
            assert(tail@ =~= l@.skip(k as int));
            assert(lead@ + tail@ =~= l@);
            lemma_utf8_len_add(lead@, tail@);
        }
        byte_len(&lead)
    }

    fn python_function_end(content: &Vec<char>) -> (r: u128)
        ensures
            r == py_end(content@),
    {
        let ls = split_lines(content);
        let ghost lv = lines(content@);
        if ls.len() == 0 {
            return byte_len(content);
        }
        proof {
            lemma_lines_len(content@);
        }
        let clen = content.len();
        let first = Self::indent_of(&ls[0]);
        let mut joined: u128 = byte_len(&ls[0]);
        proof {
            lemma_joined_bound(content@, 1);
        }
        let mut i: usize = 1;
        while i < ls.len()
            invariant
                1 <= i <= ls@.len(),
                ls@.len() == lv.len(),
                lv == lines(content@),
                ls@.len() <= content@.len(),
                forall|k: int| 0 <= k < ls@.len() ==> #[trigger] ls@[k]@ == lv[k],
                first == indent(lv[0]),
                joined == joined_len(lv, i as int),
                joined <= 4 * content@.len(),
                clen == content@.len(),
                py_scan(lv, first as int, 1) == py_scan(lv, first as int, i as int),
            decreases ls.len() - i,
        {
            proof {
                let _ = ls@[i as int];
            }
            let t = trimmed(&ls[i]);
            if t.len() > 0 {
                let ind = Self::indent_of(&ls[i]);
                if ind <= first {
                    return joined;
                }
            }
            let b = byte_len(&ls[i]);
            proof {
                lemma_joined_bound(content@, i + 1);
                assert(joined_len(lv, i + 1) == joined + 1 + b);
            }
            joined = joined + 1 + b;
            i = i + 1;
        }
        byte_len(content)
    }

    /// Calculate cyclomatic complexity.
    fn calculate_cyclomatic(content: &Vec<char>, extension: &str) -> (r: usize)
        ensures
            r == cyclomatic(content@, extension@),
    {
        let patterns = Self::cyclomatic_patterns_for(extension);
        let ghost pats = cyclomatic_patterns(extension@);
        let mut texts: Vec<Vec<char>> = Vec::new();
        texts.push(slice(content, 0, content.len()));
        assert(content@.subrange(0, content@.len() as int) =~= content@);
        let mut complexity: usize = 1;
        let mut i: usize = 0;
        while i < patterns.len()
            invariant
                i <= patterns@.len(),
                patterns@.len() == pats.len(),
                forall|k: int| 0 <= k < patterns@.len() ==> #[trigger] patterns@[k]@ == pats[k],
                texts@.len() == 1,
                texts@[0]@ == content@,
                complexity == sat(1 + pattern_hits(pats, i as int, content@)),
            decreases patterns.len() - i,
        {
            proof {
                let _ = patterns@[i as int];
            }
            match find_count_each(patterns[i], &texts) {
                Some(counts) => {
                    complexity = complexity.saturating_add(counts[0]);
                },
                None => {},
            }
            i = i + 1;
        }
        complexity
    }

    fn cyclomatic_patterns_for(extension: &str) -> (r: Vec<&'static str>)
        ensures
            r@.len() == cyclomatic_patterns(extension@).len(),
            forall|k: int| 0 <= k < r@.len() ==> #[trigger] r@[k]@ == cyclomatic_patterns(extension@)[k],
    {
        let e = to_chars(extension);
        let r = if chars_eq(&e, &to_chars("rs")) {
            vec![r"\bif\b", r"\belse\s+if\b", r"\bwhile\b", r"\bfor\b", r"\bloop\b", r"\bmatch\b", r"\b\?\b", r"&&", r"\|\|"]
        } else if chars_eq(&e, &to_chars("ts")) || chars_eq(&e, &to_chars("tsx")) || chars_eq(
            &e,
            &to_chars("js"),
        ) || chars_eq(&e, &to_chars("jsx")) || chars_eq(&e, &to_chars("java")) {
            vec![r"\bif\b", r"\belse\s+if\b", r"\bwhile\b", r"\bfor\b", r"\bswitch\b", r"\bcase\b", r"\bcatch\b", r"\?", r"&&", r"\|\|"]
        } else if chars_eq(&e, &to_chars("py")) {
            vec![r"\bif\b", r"\belif\b", r"\bwhile\b", r"\bfor\b", r"\bexcept\b", r"\band\b", r"\bor\b"]
        } else if chars_eq(&e, &to_chars("go")) {
            vec![r"\bif\b", r"\belse\s+if\b", r"\bfor\b", r"\bswitch\b", r"\bcase\b", r"\bselect\b", r"&&", r"\|\|"]
        } else {
            vec![r"\bif\b", r"\bwhile\b", r"\bfor\b", r"&&", r"\|\|"]
        };
        r
    }

    /// Calculate maximum nesting depth.
    fn calculate_max_nesting(content: &Vec<char>, _extension: &str) -> (r: usize)
        ensures
            r == nesting(content@).1,
    {
        let mut max_depth: usize = 0;
        let mut current_depth: usize = 0;
        let mut i: usize = 0;
        while i < content.len()
            invariant
                i <= content@.len(),
                (current_depth as nat, max_depth as nat) == nesting(content@.take(i as int)),
                current_depth <= i,
                max_depth <= i,
            decreases content.len() - i,
        {
            proof {
                assert(content@.take(i + 1).drop_last() =~= content@.take(i as int));
                crate::complexity::lemma_nesting_bounded_by_openers(content@.take(i as int));
            }
            let ch = content[i];
            if ch == '{' || ch == '(' {
                current_depth = current_depth + 1;
                if current_depth > max_depth {
                    max_depth = current_depth;
                }
            } else if ch == '}' || ch == ')' {
                current_depth = current_depth.saturating_sub(1);
            }
            i = i + 1;
        }
        assert(content@.take(content@.len() as int) =~= content@);
        max_depth
    }
}


// ---------------------------------------------------------------------------
// Aggregated report
// ---------------------------------------------------------------------------

/// Aggregated complexity report. The average complexity is
/// `complexity_sum / total_functions` (0 when there are no functions).
#[derive(Debug)]
pub struct ComplexityReport {
    pub files_analyzed: usize,
    pub total_functions: usize,
    pub complexity_sum: usize,
    pub max_complexity: usize,
    pub max_complexity_function: Option<String>,
    pub long_functions: Vec<String>,
    pub deeply_nested: Vec<String>,
}

/// The mathematical content of a [`FileComplexity`].
pub struct FileView {
    pub path: Seq<char>,
    pub functions: Seq<FunctionView>,
}

/// The view of a file's complexity data.
pub open spec fn file_view(f: FileComplexity) -> FileView {
    FileView { path: f.path@, functions: fn_views(f.functions@) }
}

/// Every function of the files, paired with its file's path, in order.
pub open spec fn entries(files: Seq<FileView>) -> Seq<(Seq<char>, FunctionView)>
    decreases files.len(),
{
    if files.len() == 0 {
        Seq::empty()
    } else {
        let last = files.last();
        entries(files.drop_last()) + last.functions.map_values(
            |f: FunctionView| (last.path, f),
        )
    }
}

/// `path:line (name)` for a function.
pub open spec fn location(e: (Seq<char>, FunctionView)) -> Seq<char> {
    e.0 + ":"@ + decimal(e.1.line_start as nat) + " ("@ + e.1.name + ")"@
}

/// The greatest complexity among the entries (0 when there are none).
pub open spec fn max_cc(es: Seq<(Seq<char>, FunctionView)>) -> nat
    decreases es.len(),
{
    if es.len() == 0 {
        0
    } else {
        let m = max_cc(es.drop_last());
        if es.last().1.cyclomatic_complexity > m {
            es.last().1.cyclomatic_complexity as nat
        } else {
            m
        }
    }
}

/// The location of the first entry that reaches the greatest complexity,
/// when that complexity is above 0.
pub open spec fn max_location(es: Seq<(Seq<char>, FunctionView)>) -> Option<Seq<char>>
    decreases es.len(),
{
    if es.len() == 0 {
        None
    } else if es.last().1.cyclomatic_complexity > max_cc(es.drop_last()) {
        Some(location(es.last()))
    } else {
        max_location(es.drop_last())
    }
}

/// The sum of the complexities of the entries.
pub open spec fn cc_total(es: Seq<(Seq<char>, FunctionView)>) -> nat
    decreases es.len(),
{
    if es.len() == 0 {
        0
    } else {
        cc_total(es.drop_last()) + es.last().1.cyclomatic_complexity as nat
    }
}

/// `location - N lines` for each entry longer than 50 lines.
pub open spec fn long_locations(es: Seq<(Seq<char>, FunctionView)>) -> Seq<Seq<char>>
    decreases es.len(),
{
    if es.len() == 0 {
        Seq::empty()
    } else {
        long_locations(es.drop_last()) + if es.last().1.line_count > 50 {
            seq![location(es.last()) + " - "@ + decimal(es.last().1.line_count as nat) + " lines"@]
        } else {
            Seq::empty()
        }
    }
}

/// `location - N levels` for each entry nested deeper than 4 levels.
pub open spec fn nested_locations(es: Seq<(Seq<char>, FunctionView)>) -> Seq<Seq<char>>
    decreases es.len(),
{
    if es.len() == 0 {
        Seq::empty()
    } else {
        nested_locations(es.drop_last()) + if es.last().1.nesting_depth > 4 {
            seq![location(es.last()) + " - "@ + decimal(es.last().1.nesting_depth as nat) + " levels"@]
        } else {
            Seq::empty()
        }
    }
}

/// The views of a sequence of strings.
pub open spec fn string_views(v: Seq<String>) -> Seq<Seq<char>> {
    v.map_values(|s: String| s@)
}

/// No function is more complex than the reported maximum, and a positive
/// maximum is reached by the function at the reported location.
pub proof fn lemma_max_complexity(es: Seq<(Seq<char>, FunctionView)>)
    ensures
        forall|i: int| 0 <= i < es.len() ==> es[i].1.cyclomatic_complexity <= max_cc(es),
        max_cc(es) > 0 ==> exists|i: int|
            0 <= i < es.len() && es[i].1.cyclomatic_complexity == max_cc(es) && max_location(es)
                == Some(location(es[i])),
        max_cc(es) == 0 ==> max_location(es) is None,
    decreases es.len(),
{
    if es.len() > 0 {
        let p = es.drop_last();
        lemma_max_complexity(p);
        assert forall|i: int| 0 <= i < es.len() implies es[i].1.cyclomatic_complexity <= max_cc(
            es,
        ) by {
            if i < es.len() - 1 {
                assert(es[i] == p[i]);
            }
        }
        if max_cc(es) > 0 && es.last().1.cyclomatic_complexity <= max_cc(p) {
            let i = choose|i: int|
                0 <= i < p.len() && p[i].1.cyclomatic_complexity == max_cc(p) && max_location(p)
                    == Some(location(p[i]));
            assert(es[i] == p[i]);
        }
    }
}

/// Appends `path:line (name)` to `v`.
fn push_location(v: &mut Vec<char>, path: &String, f: &FunctionComplexity)
    ensures
        final(v)@ == old(v)@ + location((path@, f@)),
{
    let ghost start = v@;
    extend_str(v, path.as_str());
    extend_str(v, ":");
    push_decimal(v, f.line_start as u128);
    extend_str(v, " (");
    extend_str(v, f.name.as_str());
    extend_str(v, ")");
    assert(v@ =~= start + location((path@, f@)));
}

proof fn lemma_entries_step(files: Seq<FileView>, i: int, j: int)
    requires
        0 <= i < files.len(),
        0 <= j < files[i].functions.len(),
    ensures
        entries(files.take(i)) + files[i].functions.take(j + 1).map_values(
            |f: FunctionView| (files[i].path, f),
        ) == (entries(files.take(i)) + files[i].functions.take(j).map_values(
            |f: FunctionView| (files[i].path, f),
        )).push((files[i].path, files[i].functions[j])),
{
    assert(files[i].functions.take(j + 1).map_values(|f: FunctionView| (files[i].path, f))
        =~= files[i].functions.take(j).map_values(|f: FunctionView| (files[i].path, f)).push(
        (files[i].path, files[i].functions[j]),
    ));
    assert(entries(files.take(i)) + files[i].functions.take(j + 1).map_values(
        |f: FunctionView| (files[i].path, f),
    ) =~= (entries(files.take(i)) + files[i].functions.take(j).map_values(
        |f: FunctionView| (files[i].path, f),
    )).push((files[i].path, files[i].functions[j])));
}

proof fn lemma_entries_next_file(files: Seq<FileView>, i: int)
    requires
        0 <= i < files.len(),
    ensures
        entries(files.take(i + 1)) == entries(files.take(i)) + files[i].functions.take(
            files[i].functions.len() as int,
        ).map_values(|f: FunctionView| (files[i].path, f)),
{
    assert(files.take(i + 1).drop_last() =~= files.take(i));
    assert(files[i].functions.take(files[i].functions.len() as int) =~= files[i].functions);
}

impl ComplexityReport {
    /// Aggregate complexity data from multiple files.
    pub fn aggregate(file_data: &Vec<FileComplexity>) -> (r: Self)
        ensures
            ({
                let es = entries(file_data@.map_values(|f: FileComplexity| file_view(f)));
                &&& r.files_analyzed == file_data@.len()
                &&& r.total_functions == sat(es.len())
                &&& r.complexity_sum == sat(cc_total(es))
                &&& r.max_complexity == max_cc(es)
                &&& opt_string(r.max_complexity_function) == max_location(es)
                &&& string_views(r.long_functions@) == long_locations(es)
                &&& string_views(r.deeply_nested@) == nested_locations(es)
            }),
    {
        let ghost files = file_data@.map_values(|f: FileComplexity| file_view(f));
        let mut files_analyzed: usize = 0;
        let mut function_count: usize = 0;
        let mut total_complexity: usize = 0;
        let mut max_complexity: usize = 0;
        let mut max_complexity_function: Option<String> = None;
        let mut long_functions: Vec<String> = Vec::new();
        let mut deeply_nested: Vec<String> = Vec::new();
        let mut i: usize = 0;
        assert(files.take(0) =~= Seq::<FileView>::empty());
        while i < file_data.len()
            invariant
                i <= file_data@.len(),
                files == file_data@.map_values(|f: FileComplexity| file_view(f)),
                files_analyzed == i,
                ({
                    let es = entries(files.take(i as int));
                    &&& function_count == sat(es.len())
                    &&& total_complexity == sat(cc_total(es))
                    &&& max_complexity == max_cc(es)
                    &&& opt_string(max_complexity_function) == max_location(es)
                    &&& string_views(long_functions@) == long_locations(es)
                    &&& string_views(deeply_nested@) == nested_locations(es)
                }),
            decreases file_data.len() - i,
        {
            let file = &file_data[i];
            files_analyzed = files_analyzed + 1;
            let ghost fv = files[i as int];
            assert(fv == file_view(*file));
            let mut j: usize = 0;
            assert(fv.functions.take(0).map_values(|f: FunctionView| (fv.path, f))
                =~= Seq::<(Seq<char>, FunctionView)>::empty());
            assert(entries(files.take(i as int)) + Seq::<(Seq<char>, FunctionView)>::empty()
                =~= entries(files.take(i as int)));
            while j < file.functions.len()
                invariant
                    i < file_data@.len(),
                    files == file_data@.map_values(|f: FileComplexity| file_view(f)),
                    *file == file_data@[i as int],
                    fv == files[i as int],
                    fv == file_view(*file),
                    j <= file.functions@.len(),
                    ({
                        let es = entries(files.take(i as int)) + fv.functions.take(
                            j as int,
                        ).map_values(|f: FunctionView| (fv.path, f));
                        &&& function_count == sat(es.len())
                        &&& total_complexity == sat(cc_total(es))
                        &&& max_complexity == max_cc(es)
                        &&& opt_string(max_complexity_function) == max_location(es)
                        &&& string_views(long_functions@) == long_locations(es)
                        &&& string_views(deeply_nested@) == nested_locations(es)
                    }),
                decreases file.functions.len() - j,
            {
                let func = &file.functions[j];
                let ghost es0 = entries(files.take(i as int)) + fv.functions.take(
                    j as int,
                ).map_values(|f: FunctionView| (fv.path, f));
                let ghost e = (fv.path, fv.functions[j as int]);
                proof {
                    lemma_entries_step(files, i as int, j as int);
                    assert(fv.functions[j as int] == func@);
                    assert(es0.push(e).drop_last() =~= es0);
                }
                function_count = function_count.saturating_add(1);
                total_complexity = total_complexity.saturating_add(func.cyclomatic_complexity);
                if func.cyclomatic_complexity > max_complexity {
                    max_complexity = func.cyclomatic_complexity;
                    let mut v: Vec<char> = Vec::new();
                    push_location(&mut v, &file.path, func);
                    max_complexity_function = Some(from_chars(&v));
                }
                if func.line_count > 50 {
                    let mut v: Vec<char> = Vec::new();
                    push_location(&mut v, &file.path, func);
                    extend_str(&mut v, " - ");
                    push_decimal(&mut v, func.line_count as u128);
                    extend_str(&mut v, " lines");
                    let ghost before = long_functions@;
                    long_functions.push(from_chars(&v));
                    assert(string_views(long_functions@) =~= string_views(before) + seq![
                        location(e) + " - "@ + decimal(e.1.line_count as nat) + " lines"@,
                    ]);
                } else {
                    assert(string_views(long_functions@) =~= string_views(long_functions@)
                        + Seq::<Seq<char>>::empty());
                }
                if func.nesting_depth > 4 {
                    let mut v: Vec<char> = Vec::new();
                    push_location(&mut v, &file.path, func);
                    extend_str(&mut v, " - ");
                    push_decimal(&mut v, func.nesting_depth as u128);
                    extend_str(&mut v, " levels");
                    let ghost before = deeply_nested@;
                    deeply_nested.push(from_chars(&v));
                    assert(string_views(deeply_nested@) =~= string_views(before) + seq![
                        location(e) + " - "@ + decimal(e.1.nesting_depth as nat) + " levels"@,
                    ]);
                } else {
                    assert(string_views(deeply_nested@) =~= string_views(deeply_nested@)
                        + Seq::<Seq<char>>::empty());
                }
                j = j + 1;
            }
            proof {
                lemma_entries_next_file(files, i as int);
            }
            i = i + 1;
        }
        assert(files.take(file_data@.len() as int) =~= files);
        ComplexityReport {
            files_analyzed,
            total_functions: function_count,
            complexity_sum: total_complexity,
            max_complexity,
            max_complexity_function,
            long_functions,
            deeply_nested,
        }
    }

    /// Whether the average complexity exceeds `threshold`:
    /// `complexity_sum / total_functions > threshold`, with no functions
    /// giving an average of 0.
    pub fn average_exceeds(&self, threshold: usize) -> (b: bool)
        ensures
            b == (self.total_functions > 0 && self.complexity_sum > threshold * self.total_functions),
    {
        if self.total_functions == 0 {
            return false;
        }
        let t = threshold as u128;
        let n = self.total_functions as u128;
        assert(t * n <= 0xffff_ffff_ffff_ffff_ffff_ffff_ffff_ffff) by (nonlinear_arith)
            requires
                t <= 0xffff_ffff_ffff_ffff,
                n <= 0xffff_ffff_ffff_ffff,
        ;
        (self.complexity_sum as u128) > t * n
    }
}

} // verus!
