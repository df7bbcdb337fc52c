//! Character-sequence helpers shared by the analyzers: line splitting,
//! trimming, substring search and decimal rendering, each with the meaning
//! that the corresponding `str` method documents.

use vstd::prelude::*;

verus! {

// ---------------------------------------------------------------------------
// Conversions between `str`/`String` and character vectors
// ---------------------------------------------------------------------------

/// The characters of `s`, in order.
pub fn to_chars(s: &str) -> (v: Vec<char>)
    ensures
        v@ == s@,
{
    let mut v: Vec<char> = Vec::new();
    for c in it: s.chars()
        invariant
            v@ == it.seq().take(it.index() as int),
    {
        v.push(c);
    }
    v
}

/// The view of an optional character vector.
pub open spec fn opt_chars(o: Option<Vec<char>>) -> Option<Seq<char>> {
    match o {
        Some(v) => Some(v@),
        None => None,
    }
}

/// Appends one character to a `String` (`String::push`).
#[verifier::external_body]
pub(crate) fn push_char(s: &mut String, c: char)
    ensures
        final(s)@ == old(s)@.push(c),
{
    s.push(c);
}

/// Appends all characters of `v` to `s`.
pub fn push_chars(s: &mut String, v: &Vec<char>)
    ensures
        final(s)@ == old(s)@ + v@,
{
    let ghost start = s@;
    let mut i: usize = 0;
    while i < v.len()
        invariant
            i <= v.len(),
            s@ == start + v@.take(i as int),
        decreases v.len() - i,
    {
        push_char(s, v[i]);
        i = i + 1;
        assert(v@.take(i as int) == v@.take((i - 1) as int).push(v@[i - 1]));
    }
    assert(v@.take(v.len() as int) == v@);
}

/// A `String` holding exactly the characters of `v`.
pub fn from_chars(v: &Vec<char>) -> (s: String)
    ensures
        s@ == v@,
{
    let mut s = String::new();
    push_chars(&mut s, v);
    s
}

/// Appends the characters of `t` to the vector `v`.
pub fn extend_chars(v: &mut Vec<char>, t: &Vec<char>)
    ensures
        final(v)@ == old(v)@ + t@,
{
    let ghost start = v@;
    let mut i: usize = 0;
    while i < t.len()
        invariant
            i <= t.len(),
            v@ == start + t@.take(i as int),
        decreases t.len() - i,
    {
        v.push(t[i]);
        i = i + 1;
        assert(t@.take(i as int) == t@.take((i - 1) as int).push(t@[i - 1]));
    }
    assert(t@.take(t.len() as int) == t@);
}

/// Appends the characters of `t` to the vector `v`.
pub fn extend_str(v: &mut Vec<char>, t: &str)
    ensures
        final(v)@ == old(v)@ + t@,
{
    let tc = to_chars(t);
    extend_chars(v, &tc);
}

// ---------------------------------------------------------------------------
// Whitespace and trimming (`char::is_whitespace`, `str::trim`)
// ---------------------------------------------------------------------------

/// The Unicode `White_Space` property, which `char::is_whitespace` tests.
pub open spec fn is_ws(c: char) -> bool {
    let x = c as u32;
    ||| 9 <= x <= 13
    ||| x == 32
    ||| x == 0x85
    ||| x == 0xa0
    ||| x == 0x1680
    ||| 0x2000 <= x <= 0x200a
    ||| x == 0x2028
    ||| x == 0x2029
    ||| x == 0x202f
    ||| x == 0x205f
    ||| x == 0x3000
}

/// Executable form of [`is_ws`].
pub fn is_whitespace(c: char) -> (b: bool)
    ensures
        b == is_ws(c),
{
    let x = c as u32;
    (9 <= x && x <= 13) || x == 32 || x == 0x85 || x == 0xa0 || x == 0x1680 || (0x2000 <= x
        && x <= 0x200a) || x == 0x2028 || x == 0x2029 || x == 0x202f || x == 0x205f || x
        == 0x3000
}

/// `s` without its leading whitespace.
pub open spec fn trim_start(s: Seq<char>) -> Seq<char>
    decreases s.len(),
{
    if s.len() > 0 && is_ws(s[0]) {
        trim_start(s.drop_first())
    } else {
        s
    }
}

/// `s` without its trailing whitespace.
pub open spec fn trim_end(s: Seq<char>) -> Seq<char>
    decreases s.len(),
{
    if s.len() > 0 && is_ws(s.last()) {
        trim_end(s.drop_last())
    } else {
        s
    }
}

/// `s` without leading and trailing whitespace (`str::trim`).
pub open spec fn trim(s: Seq<char>) -> Seq<char> {
    trim_end(trim_start(s))
}

proof fn lemma_trim_start_skip(s: Seq<char>, i: int)
    requires
        0 <= i < s.len(),
        is_ws(s[i]),
    ensures
        trim_start(s.skip(i)) == trim_start(s.skip(i + 1)),
{
    assert(s.skip(i).drop_first() =~= s.skip(i + 1));
}

proof fn lemma_trim_end_take(s: Seq<char>, j: int)
    requires
        0 < j <= s.len(),
        is_ws(s[j - 1]),
    ensures
        trim_end(s.take(j)) == trim_end(s.take(j - 1)),
{
    assert(s.take(j).drop_last() =~= s.take(j - 1));
}

fn skip_ws_forward(s: &Vec<char>, lo: usize, hi: usize) -> (a: usize)
    requires
        lo <= hi <= s.len(),
    ensures
        lo <= a <= hi,
        trim_start(s@.subrange(lo as int, hi as int)) == s@.subrange(a as int, hi as int),
{
    let ghost t = s@.subrange(lo as int, hi as int);
    assert(t.skip(0) =~= t);
    let mut a = lo;
    while a < hi && is_whitespace(s[a])
        invariant
            lo <= a <= hi <= s.len(),
            t == s@.subrange(lo as int, hi as int),
            trim_start(t) == trim_start(t.skip(a - lo)),
        decreases hi - a,
    {
        proof {
            lemma_trim_start_skip(t, a - lo);
        }
        a = a + 1;
    }
    assert(t.skip(a - lo) =~= s@.subrange(a as int, hi as int));
    a
}

fn skip_ws_backward(s: &Vec<char>, a: usize, hi: usize) -> (b: usize)
    requires
        a <= hi <= s.len(),
    ensures
        a <= b <= hi,
        trim_end(s@.subrange(a as int, hi as int)) == s@.subrange(a as int, b as int),
{
    let ghost u = s@.subrange(a as int, hi as int);
    assert(u.take(u.len() as int) =~= u);
    let mut b = hi;
    while b > a && is_whitespace(s[b - 1])
        invariant
            a <= b <= hi <= s.len(),
            u == s@.subrange(a as int, hi as int),
            trim_end(u) == trim_end(u.take(b - a)),
        decreases b - a,
    {
        proof {
            lemma_trim_end_take(u, b - a);
        }
        b = b - 1;
    }
    assert(u.take(b - a) =~= s@.subrange(a as int, b as int));
    b
}

/// The bounds `(a, b)` of the trimmed part of `s[lo..hi]`.
pub fn trim_bounds(s: &Vec<char>, lo: usize, hi: usize) -> (r: (usize, usize))
    requires
        lo <= hi <= s.len(),
    ensures
        lo <= r.0 <= r.1 <= hi,
        s@.subrange(r.0 as int, r.1 as int) == trim(s@.subrange(lo as int, hi as int)),
{
    let a = skip_ws_forward(s, lo, hi);
    let b = skip_ws_backward(s, a, hi);
    (a, b)
}

/// The characters of `s[lo..hi]`.
pub fn slice(s: &Vec<char>, lo: usize, hi: usize) -> (r: Vec<char>)
    requires
        lo <= hi <= s.len(),
    ensures
        r@ == s@.subrange(lo as int, hi as int),
{
    let mut r: Vec<char> = Vec::new();
    let mut i = lo;
    while i < hi
        invariant
            lo <= i <= hi <= s.len(),
            r@ == s@.subrange(lo as int, i as int),
        decreases hi - i,
    {
        r.push(s[i]);
        i = i + 1;
        assert(r@ =~= s@.subrange(lo as int, i as int));
    }
    r
}

/// `s` without leading and trailing whitespace.
pub fn trimmed(s: &Vec<char>) -> (r: Vec<char>)
    ensures
        r@ == trim(s@),
{
    let (a, b) = trim_bounds(s, 0, s.len());
    assert(s@.subrange(0, s.len() as int) =~= s@);
    slice(s, a, b)
}

// ---------------------------------------------------------------------------
// Prefix, suffix and substring tests
// ---------------------------------------------------------------------------

/// `p` occurs in `s` at position `i`.
pub open spec fn occurs_at(s: Seq<char>, p: Seq<char>, i: int) -> bool {
    0 <= i && i + p.len() <= s.len() && s.subrange(i, i + p.len()) == p
}

/// `s` starts with `p` (`str::starts_with`).
pub open spec fn has_prefix(s: Seq<char>, p: Seq<char>) -> bool {
    occurs_at(s, p, 0)
}

/// `s` ends with `p` (`str::ends_with`).
pub open spec fn has_suffix(s: Seq<char>, p: Seq<char>) -> bool {
    occurs_at(s, p, s.len() - p.len())
}

/// `p` occurs somewhere in `s` (`str::contains`).
pub open spec fn has_sub(s: Seq<char>, p: Seq<char>) -> bool {
    exists|i: int| occurs_at(s, p, i)
}

/// Whether `p` occurs in `s` at position `i`.
pub fn matches_at(s: &Vec<char>, p: &Vec<char>, i: usize) -> (b: bool)
    ensures
        b == occurs_at(s@, p@, i as int),
{
    if i > s.len() || p.len() > s.len() - i {
        return false;
    }
    let mut k: usize = 0;
    while k < p.len()
        invariant
            i + p.len() <= s.len(),
            k <= p.len(),
            forall|m: int| 0 <= m < k ==> s@[i + m] == p@[m],
        decreases p.len() - k,
    {
        if s[i + k] != p[k] {
            assert(s@.subrange(i as int, i + p.len())[k as int] != p@[k as int]);
            return false;
        }
        k = k + 1;
    }
    assert(s@.subrange(i as int, i + p.len()) =~= p@);
    true
}

/// Whether `s` starts with `p`.
pub fn starts_with(s: &Vec<char>, p: &Vec<char>) -> (b: bool)
    ensures
        b == has_prefix(s@, p@),
{
    matches_at(s, p, 0)
}

/// Whether `s` ends with `p`.
pub fn ends_with(s: &Vec<char>, p: &Vec<char>) -> (b: bool)
    ensures
        b == has_suffix(s@, p@),
{
    if p.len() > s.len() {
        return false;
    }
    matches_at(s, p, s.len() - p.len())
}

/// The first position at or after `from` where `p` occurs in `s`.
pub fn find_from(s: &Vec<char>, p: &Vec<char>, from: usize) -> (r: Option<usize>)
    ensures
        match r {
            Some(i) => from <= i && occurs_at(s@, p@, i as int) && forall|j: int|
                from <= j < i ==> !occurs_at(s@, p@, j),
            None => forall|j: int| from <= j ==> !occurs_at(s@, p@, j),
        },
{
    if from > s.len() {
        return None;
    }
    let mut i = from;
    loop
        invariant
            from <= i <= s.len(),
            forall|j: int| from <= j < i ==> !occurs_at(s@, p@, j),
        decreases s.len() - i,
    {
        if matches_at(s, p, i) {
            return Some(i);
        }
        if i == s.len() {
            assert forall|j: int| from <= j implies !occurs_at(s@, p@, j) by {
                if j > i {
                    assert(j + p@.len() > s@.len());
                }
            }
            return None;
        }
        i = i + 1;
    }
}

/// The first position where `p` occurs in `s` (`str::find`).
pub fn find(s: &Vec<char>, p: &Vec<char>) -> (r: Option<usize>)
    ensures
        match r {
            Some(i) => occurs_at(s@, p@, i as int) && forall|j: int|
                0 <= j < i ==> !occurs_at(s@, p@, j),
            None => !has_sub(s@, p@),
        },
{
    find_from(s, p, 0)
}

/// Whether `p` occurs in `s`.
pub fn contains(s: &Vec<char>, p: &Vec<char>) -> (b: bool)
    ensures
        b == has_sub(s@, p@),
{
    match find(s, p) {
        Some(_) => true,
        None => false,
    }
}

/// Whether the string slice `p` occurs in `s`.
pub fn contains_str(s: &Vec<char>, p: &str) -> (b: bool)
    ensures
        b == has_sub(s@, p@),
{
    let pc = to_chars(p);
    contains(s, &pc)
}

/// Whether `s` starts with the string slice `p`.
pub fn starts_with_str(s: &Vec<char>, p: &str) -> (b: bool)
    ensures
        b == has_prefix(s@, p@),
{
    let pc = to_chars(p);
    starts_with(s, &pc)
}

/// Whether `s` ends with the string slice `p`.
pub fn ends_with_str(s: &Vec<char>, p: &str) -> (b: bool)
    ensures
        b == has_suffix(s@, p@),
{
    let pc = to_chars(p);
    ends_with(s, &pc)
}

/// Whether the character sequences of `a` and `b` are equal.
pub fn chars_eq(a: &Vec<char>, b: &Vec<char>) -> (r: bool)
    ensures
        r == (a@ == b@),
{
    if a.len() != b.len() {
        return false;
    }
    let r = matches_at(a, b, 0);
    assert(r ==> a@.subrange(0, a@.len() as int) =~= a@);
    if !r {
        assert(a@.subrange(0, b@.len() as int) =~= a@);
    }
    r
}

// ---------------------------------------------------------------------------
// First occurrences (`str::find`, `str::split_once`)
// ---------------------------------------------------------------------------

/// `p` occurs in `s` at `i` and at no earlier position.
pub open spec fn first_at(s: Seq<char>, p: Seq<char>, i: int) -> bool {
    occurs_at(s, p, i) && forall|j: int| 0 <= j < i ==> !occurs_at(s, p, j)
}

/// The position of the first occurrence of `p` in `s`, if any.
pub open spec fn first_index(s: Seq<char>, p: Seq<char>) -> Option<int> {
    if exists|i: int| first_at(s, p, i) {
        Some(choose|i: int| first_at(s, p, i))
    } else {
        None
    }
}

/// The position of the first occurrence of `p` in `s` (`str::find`).
pub fn find_first(s: &Vec<char>, p: &Vec<char>) -> (r: Option<usize>)
    ensures
        match r {
            Some(i) => first_index(s@, p@) == Some(i as int),
            None => first_index(s@, p@) is None,
        },
{
    let r = find(s, p);
    match r {
        Some(i) => {
            assert(first_at(s@, p@, i as int));
            proof {
                let k = choose|k: int| first_at(s@, p@, k);
                assert(k == i) by {
                    if k < i {
                        assert(!occurs_at(s@, p@, k));
                    } else if k > i {
                        assert(!occurs_at(s@, p@, i as int));
                    }
                }
            }
        },
        None => {
            assert(!exists|i: int| first_at(s@, p@, i));
        },
    }
    r
}

/// `s[i]` is one of `stops` and no earlier character is.
pub open spec fn first_stop_at(s: Seq<char>, stops: Seq<char>, i: int) -> bool {
    0 <= i < s.len() && stops.contains(s[i]) && forall|j: int| 0 <= j < i ==> !stops.contains(s[j])
}

/// The position of the first character of `s` that is one of `stops`, or
/// the length of `s` when there is none.
pub open spec fn stop_pos(s: Seq<char>, stops: Seq<char>) -> int {
    if exists|i: int| first_stop_at(s, stops, i) {
        choose|i: int| first_stop_at(s, stops, i)
    } else {
        s.len() as int
    }
}

/// The characters of `s` before the first one that is one of `stops`.
pub open spec fn until_stop(s: Seq<char>, stops: Seq<char>) -> Seq<char> {
    s.take(stop_pos(s, stops))
}

/// Whether `c` is one of `cs`.
pub fn char_in(cs: &Vec<char>, c: char) -> (b: bool)
    ensures
        b == cs@.contains(c),
{
    let mut i: usize = 0;
    while i < cs.len()
        invariant
            i <= cs.len(),
            forall|j: int| 0 <= j < i ==> cs@[j] != c,
        decreases cs.len() - i,
    {
        if cs[i] == c {
            return true;
        }
        i = i + 1;
    }
    false
}

/// The position of the first character of `s` that is one of `stops`, or
/// the length of `s`.
pub fn stop_position(s: &Vec<char>, stops: &Vec<char>) -> (k: usize)
    ensures
        k == stop_pos(s@, stops@),
        k <= s.len(),
{
    let mut i: usize = 0;
    while i < s.len()
        invariant
            i <= s.len(),
            forall|j: int| 0 <= j < i ==> !stops@.contains(s@[j]),
        decreases s.len() - i,
    {
        if char_in(stops, s[i]) {
            assert(first_stop_at(s@, stops@, i as int));
            proof {
                let k = choose|k: int| first_stop_at(s@, stops@, k);
                assert(k == i) by {
                    if k < i {
                        assert(!stops@.contains(s@[k]));
                    } else if k > i {
                        assert(!stops@.contains(s@[i as int]));
                    }
                }
            }
            return i;
        }
        i = i + 1;
    }
    assert(!exists|k: int| first_stop_at(s@, stops@, k));
    i
}

/// What follows the first occurrence of `p` in `s`, if `p` occurs
/// (`str::split_once`, second part).
pub open spec fn after_first(s: Seq<char>, p: Seq<char>) -> Option<Seq<char>> {
    match first_index(s, p) {
        Some(i) => Some(s.skip(i + p.len())),
        None => None,
    }
}

/// What follows the first occurrence of `p` in `s`, if `p` occurs.
pub fn after_first_of(s: &Vec<char>, p: &str) -> (r: Option<Vec<char>>)
    ensures
        opt_chars(r) == after_first(s@, p@),
{
    let pc = to_chars(p);
    match find_first(s, &pc) {
        Some(i) => {
            assert(first_at(s@, pc@, i as int));
            assert(occurs_at(s@, pc@, i as int));
            let plen = pc.len();
            assert(i + plen <= s.len());
            let start: usize = i + plen;
            let rest = sub_chars(s, start, s.len());
            assert(rest@ =~= s@.skip(i + p@.len()));
            Some(rest)
        },
        None => None,
    }
}

/// The characters of `s` before the first one that is one of `stops`.
pub fn until_stop_of(s: &Vec<char>, stops: &Vec<char>) -> (r: Vec<char>)
    ensures
        r@ == until_stop(s@, stops@),
{
    let k = stop_position(s, stops);
    let r = sub_chars(s, 0, k);
    assert(r@ =~= s@.take(k as int));
    r
}

/// The characters of `s` from `lo` to `hi`.
pub fn sub_chars(s: &Vec<char>, lo: usize, hi: usize) -> (r: Vec<char>)
    requires
        lo <= hi <= s.len(),
    ensures
        r@ == s@.subrange(lo as int, hi as int),
{
    let mut r: Vec<char> = Vec::new();
    let mut i: usize = lo;
    while i < hi
        invariant
            lo <= i <= hi <= s.len(),
            r@ == s@.subrange(lo as int, i as int),
        decreases hi - i,
    {
        r.push(s[i]);
        i = i + 1;
        assert(r@ =~= s@.subrange(lo as int, i as int));
    }
    r
}

// ---------------------------------------------------------------------------
// Lines (`str::lines`)
// ---------------------------------------------------------------------------

/// The index of the first `'\n'` in `s`, or `s.len()` when there is none.
pub open spec fn first_newline(s: Seq<char>) -> int
    decreases s.len(),
{
    if s.len() == 0 {
        0
    } else if s[0] == '\n' {
        0
    } else {
        1 + first_newline(s.drop_first())
    }
}

/// A line without the `'\r'` that preceded its `'\n'`.
pub open spec fn strip_cr(l: Seq<char>) -> Seq<char> {
    if l.len() > 0 && l.last() == '\r' {
        l.drop_last()
    } else {
        l
    }
}

/// The lines of `s` as `str::lines` yields them: split at `'\n'`, a `'\r'`
/// right before the `'\n'` removed, no empty line after a final `'\n'`.
pub open spec fn lines(s: Seq<char>) -> Seq<Seq<char>>
    decreases s.len(),
{
    if s.len() == 0 {
        Seq::empty()
    } else {
        let k = first_newline(s);
        proof {
            lemma_first_newline(s);
        }
        if k >= s.len() {
            seq![s]
        } else {
            seq![strip_cr(s.take(k))] + lines(s.skip(k + 1))
        }
    }
}

/// `first_newline` is the position of the first `'\n'` of `s`, or its
/// length when there is none.
pub proof fn lemma_first_newline(s: Seq<char>)
    ensures
        0 <= first_newline(s) <= s.len(),
        forall|j: int| 0 <= j < first_newline(s) ==> s[j] != '\n',
        first_newline(s) < s.len() ==> s[first_newline(s)] == '\n',
    decreases s.len(),
{
    if s.len() > 0 && s[0] != '\n' {
        lemma_first_newline(s.drop_first());
        assert forall|j: int| 0 <= j < first_newline(s) implies s[j] != '\n' by {
            if j > 0 {
                assert(s[j] == s.drop_first()[j - 1]);
            }
        }
    }
}

proof fn lemma_first_newline_at(s: Seq<char>, k: int)
    requires
        0 <= k <= s.len(),
        forall|j: int| 0 <= j < k ==> s[j] != '\n',
        k < s.len() ==> s[k] == '\n',
    ensures
        first_newline(s) == k,
{
    lemma_first_newline(s);
    if first_newline(s) < k {
        assert(s[first_newline(s)] == '\n');
    }
    if first_newline(s) > k {
        assert(s[k] != '\n');
    }
}


/// A text has no more lines than characters.
pub proof fn lemma_lines_len(s: Seq<char>)
    ensures
        lines(s).len() <= s.len(),
    decreases s.len(),
{
    if s.len() > 0 {
        let k = first_newline(s);
        lemma_first_newline(s);
        if k < s.len() {
            lemma_lines_len(s.skip(k + 1));
        }
    }
}

/// A text with at least one line splits into its first line and the lines
/// after the first `'\n'`.
pub proof fn lemma_lines_front(s: Seq<char>)
    requires
        first_newline(s) < s.len(),
    ensures
        lines(s) == seq![strip_cr(s.take(first_newline(s)))] + lines(s.skip(first_newline(s) + 1)),
        strip_cr(s.take(first_newline(s))).len() <= first_newline(s),
{
    lemma_first_newline(s);
}

/// Every line of `s` is free of `'\n'`.
pub proof fn lemma_lines_no_newline(s: Seq<char>)
    ensures
        forall|i: int, j: int|
            0 <= i < lines(s).len() && 0 <= j < lines(s)[i].len() ==> lines(s)[i][j] != '\n',
    decreases s.len(),
{
    if s.len() > 0 {
        let k = first_newline(s);
        lemma_first_newline(s);
        if k < s.len() {
            lemma_lines_no_newline(s.skip(k + 1));
            assert forall|i: int, j: int|
                0 <= i < lines(s).len() && 0 <= j < lines(s)[i].len() implies lines(s)[i][j]
                != '\n' by {
                if i > 0 {
                    assert(lines(s)[i] == lines(s.skip(k + 1))[i - 1]);
                }
            }
        }
    }
}

/// The `(start, end)` character ranges of the lines of `s`.
pub fn line_spans(s: &Vec<char>) -> (r: Vec<(usize, usize)>)
    ensures
        r@.len() == lines(s@).len(),
        forall|i: int| 0 <= i < r@.len() ==> (#[trigger] r@[i]).0 <= r@[i].1 <= s@.len(),
        forall|i: int|
            0 <= i < r@.len() ==> s@.subrange(r@[i].0 as int, r@[i].1 as int) == #[trigger] lines(
                s@,
            )[i],
{
    let mut r: Vec<(usize, usize)> = Vec::new();
    let mut p: usize = 0;
    proof {
        assert(s@.skip(0) =~= s@);
        assert(Seq::new(r@.len() as nat, |i: int| s@.subrange(r@[i].0 as int, r@[i].1 as int))
            + lines(s@) =~= lines(s@));
    }
    while p < s.len()
        invariant
            p <= s.len(),
            lines(s@) == Seq::new(
                r@.len() as nat,
                |i: int| s@.subrange(r@[i].0 as int, r@[i].1 as int),
            ) + lines(s@.skip(p as int)),
            forall|i: int| 0 <= i < r@.len() ==> (#[trigger] r@[i]).0 <= r@[i].1 <= s@.len(),
        decreases s.len() - p,
    {
        let ghost t = s@.skip(p as int);
        let mut q = p;
        while q < s.len() && s[q] != '\n'
            invariant
                p <= q <= s.len(),
                forall|j: int| p <= j < q ==> s@[j] != '\n',
            decreases s.len() - q,
        {
            q = q + 1;
        }
        proof {
            assert forall|j: int| 0 <= j < q - p implies t[j] != '\n' by {
                assert(t[j] == s@[p + j]);
            }
            lemma_first_newline_at(t, q - p);
        }
        let ghost old_r = r@;
        if q < s.len() {
            let e = if q > p && s[q - 1] == '\r' {
                q - 1
            } else {
                q
            };
            r.push((p, e));
            proof {
                assert(t.take(q - p) =~= s@.subrange(p as int, q as int));
                assert(s@.subrange(p as int, e as int) =~= strip_cr(t.take(q - p)));
                assert(t.skip(q - p + 1) =~= s@.skip(q + 1));
                assert(lines(t) == seq![strip_cr(t.take(q - p))] + lines(t.skip(q - p + 1)));
                assert(Seq::new(r@.len() as nat, |i: int| s@.subrange(r@[i].0 as int, r@[i].1 as int))
                    =~= Seq::new(old_r.len() as nat, |i: int| s@.subrange(old_r[i].0 as int, old_r[i].1 as int)).push(
                    s@.subrange(p as int, e as int)));
            }
            p = q + 1;
        } else {
            r.push((p, q));
            proof {
                assert(t =~= s@.subrange(p as int, q as int));
                assert(lines(t) == seq![t]);
                assert(s@.skip(q as int) =~= Seq::<char>::empty());
                assert(Seq::new(r@.len() as nat, |i: int| s@.subrange(r@[i].0 as int, r@[i].1 as int))
                    =~= Seq::new(old_r.len() as nat, |i: int| s@.subrange(old_r[i].0 as int, old_r[i].1 as int)).push(
                    s@.subrange(p as int, q as int)));
            }
            p = q;
        }
    }
    proof {
        assert(s@.skip(p as int) =~= Seq::<char>::empty());
        assert(lines(s@) =~= Seq::new(
            r@.len() as nat,
            |i: int| s@.subrange(r@[i].0 as int, r@[i].1 as int),
        ));
    }
    r
}

/// The lines of `s`, each as its own character vector.
pub fn split_lines(s: &Vec<char>) -> (r: Vec<Vec<char>>)
    ensures
        r@.len() == lines(s@).len(),
        forall|i: int| 0 <= i < r@.len() ==> #[trigger] r@[i]@ == lines(s@)[i],
{
    let spans = line_spans(s);
    let mut r: Vec<Vec<char>> = Vec::new();
    let mut i: usize = 0;
    while i < spans.len()
        invariant
            i <= spans@.len(),
            spans@.len() == lines(s@).len(),
            forall|k: int| 0 <= k < spans@.len() ==> (#[trigger] spans@[k]).0 <= spans@[k].1 <= s@.len(),
            forall|k: int|
                0 <= k < spans@.len() ==> s@.subrange(spans@[k].0 as int, spans@[k].1 as int)
                    == #[trigger] lines(s@)[k],
            r@.len() == i,
            forall|k: int| 0 <= k < i ==> #[trigger] r@[k]@ == lines(s@)[k],
        decreases spans.len() - i,
    {
        let (a, b) = spans[i];
        proof {
            let _ = lines(s@)[i as int];
            let _ = spans@[i as int];
        }
        let l = slice(s, a, b);
        r.push(l);
        i = i + 1;
    }
    r
}


// ---------------------------------------------------------------------------
// UTF-8 length (`str::len`)
// ---------------------------------------------------------------------------

/// The number of bytes of the UTF-8 encoding of `c` (`char::len_utf8`).
pub open spec fn char_width(c: char) -> nat {
    let x = c as u32;
    if x < 0x80 {
        1
    } else if x < 0x800 {
        2
    } else if x < 0x10000 {
        3
    } else {
        4
    }
}

/// The number of bytes of the UTF-8 encoding of `s`.
pub open spec fn utf8_len(s: Seq<char>) -> nat
    decreases s.len(),
{
    if s.len() == 0 {
        0
    } else {
        utf8_len(s.drop_last()) + char_width(s.last())
    }
}

/// Byte offset `off` of the UTF-8 encoding of `s` falls between two
/// characters (or at either end).
pub open spec fn is_char_boundary(s: Seq<char>, off: nat) -> bool {
    exists|k: int| 0 <= k <= s.len() && utf8_len(#[trigger] s.take(k)) == off
}


/// UTF-8 lengths add up over concatenation.
pub proof fn lemma_utf8_len_add(a: Seq<char>, b: Seq<char>)
    ensures
        utf8_len(a + b) == utf8_len(a) + utf8_len(b),
    decreases b.len(),
{
    if b.len() > 0 {
        lemma_utf8_len_add(a, b.drop_last());
        assert((a + b).drop_last() =~= a + b.drop_last());
    } else {
        assert(a + b =~= a);
    }
}

/// The byte offsets of the characters of `s` strictly increase.
pub proof fn lemma_utf8_prefix_strict(s: Seq<char>, i: int, j: int)
    requires
        0 <= i < j <= s.len(),
    ensures
        utf8_len(s.take(i)) < utf8_len(s.take(j)),
    decreases j - i,
{
    assert(s.take(j).drop_last() =~= s.take(j - 1));
    if i < j - 1 {
        lemma_utf8_prefix_strict(s, i, j - 1);
    }
}

/// The character index whose byte offset in `s` is `off`.
pub open spec fn char_index_of(s: Seq<char>, off: nat) -> int {
    choose|k: int| 0 <= k <= s.len() && utf8_len(#[trigger] s.take(k)) == off
}

/// The character index at byte offset `off` of `s`, which lies on a
/// character boundary.
pub fn char_index_at(s: &Vec<char>, off: usize) -> (k: usize)
    requires
        is_char_boundary(s@, off as nat),
    ensures
        k <= s@.len(),
        utf8_len(s@.take(k as int)) == off,
        k == char_index_of(s@, off as nat),
{
    let ghost target = choose|k: int| 0 <= k <= s@.len() && utf8_len(#[trigger] s@.take(k)) == off;
    let mut k: usize = 0;
    let mut acc: u128 = 0;
    assert(s@.take(0) =~= Seq::<char>::empty());
    while k < s.len() && acc < off as u128
        invariant
            k <= s@.len(),
            acc == utf8_len(s@.take(k as int)),
            0 <= target <= s@.len(),
            utf8_len(s@.take(target)) == off,
            k <= target,
        decreases s.len() - k,
    {
        proof {
            assert(s@.take(k + 1).drop_last() =~= s@.take(k as int));
            lemma_utf8_len_bound(s@.take(k as int));
            if k + 1 > target {
                lemma_utf8_prefix_strict(s@, target, k as int);
            }
        }
        acc = acc + char_len_utf8(s[k]);
        k = k + 1;
    }
    proof {
        if k < target {
            lemma_utf8_prefix_strict(s@, k as int, target);
        }
    }
    k
}

/// Executable form of [`char_width`].
pub fn char_len_utf8(c: char) -> (n: u128)
    ensures
        n == char_width(c),
{
    let x = c as u32;
    if x < 0x80 {
        1
    } else if x < 0x800 {
        2
    } else if x < 0x10000 {
        3
    } else {
        4
    }
}

/// The number of UTF-8 bytes of `s[0..k]`, for every `k`, is at most `4 * k`.
pub proof fn lemma_utf8_len_bound(s: Seq<char>)
    ensures
        utf8_len(s) <= 4 * s.len(),
    decreases s.len(),
{
    if s.len() > 0 {
        lemma_utf8_len_bound(s.drop_last());
    }
}

/// The number of UTF-8 bytes of `s`.
pub fn byte_len(s: &Vec<char>) -> (n: u128)
    ensures
        n == utf8_len(s@),
{
    let mut n: u128 = 0;
    let mut i: usize = 0;
    while i < s.len()
        invariant
            i <= s.len(),
            n == utf8_len(s@.take(i as int)),
            n <= 4 * i,
        decreases s.len() - i,
    {
        proof {
            assert(s@.take(i + 1).drop_last() =~= s@.take(i as int));
        }
        n = n + char_len_utf8(s[i]);
        i = i + 1;
    }
    assert(s@.take(s.len() as int) =~= s@);
    n
}

// ---------------------------------------------------------------------------
// Decimal rendering (`Display` for unsigned integers)
// ---------------------------------------------------------------------------

/// The ASCII digit for `d < 10`.
pub open spec fn digit(d: nat) -> char {
    if d == 0 { '0' } else if d == 1 { '1' } else if d == 2 { '2' } else if d == 3 { '3' }
    else if d == 4 { '4' } else if d == 5 { '5' } else if d == 6 { '6' } else if d == 7 { '7' }
    else if d == 8 { '8' } else { '9' }
}

/// The decimal representation of `n`, without leading zeros.
pub open spec fn decimal(n: nat) -> Seq<char>
    decreases n,
{
    if n < 10 {
        seq![digit(n)]
    } else {
        decimal(n / 10).push(digit(n % 10))
    }
}

fn digit_char(d: u128) -> (c: char)
    requires
        d < 10,
    ensures
        c == digit(d as nat),
{
    if d == 0 { '0' } else if d == 1 { '1' } else if d == 2 { '2' } else if d == 3 { '3' }
    else if d == 4 { '4' } else if d == 5 { '5' } else if d == 6 { '6' } else if d == 7 { '7' }
    else if d == 8 { '8' } else { '9' }
}

/// The decimal representation of `n`.
pub fn decimal_chars(n: u128) -> (r: Vec<char>)
    ensures
        r@ == decimal(n as nat),
    decreases n,
{
    if n < 10 {
        let mut v: Vec<char> = Vec::new();
        v.push(digit_char(n));
        v
    } else {
        let mut v = decimal_chars(n / 10);
        v.push(digit_char(n % 10));
        v
    }
}

/// Appends the decimal representation of `n` to `v`.
pub fn push_decimal(v: &mut Vec<char>, n: u128)
    ensures
        final(v)@ == old(v)@ + decimal(n as nat),
{
    let d = decimal_chars(n);
    extend_chars(v, &d);
}

/// `s` padded on the left with `'0'` up to `width` characters.
pub open spec fn zero_pad(s: Seq<char>, width: nat) -> Seq<char> {
    if s.len() >= width {
        s
    } else {
        Seq::new((width - s.len()) as nat, |i: int| '0') + s
    }
}

/// Appends `n` rendered in decimal and zero-padded to `width` characters
/// (the `{:0width$}` format of an unsigned integer).
pub fn push_padded(v: &mut Vec<char>, n: u128, width: usize)
    ensures
        final(v)@ == old(v)@ + zero_pad(decimal(n as nat), width as nat),
{
    let d = decimal_chars(n);
    let ghost start = v@;
    let mut k = d.len();
    while k < width
        invariant
            d.len() <= k <= width || (k == d.len() && k >= width),
            v@ == start + Seq::new((k - d.len()) as nat, |i: int| '0'),
        decreases width - k,
    {
        v.push('0');
        k = k + 1;
        assert(v@ =~= start + Seq::new((k - d.len()) as nat, |i: int| '0'));
    }
    extend_chars(v, &d);
    if d.len() >= width {
        assert(v@ =~= start + d@);
    } else {
        assert(v@ =~= start + zero_pad(d@, width as nat));
    }
}

// ---------------------------------------------------------------------------
// Integers in text (`FromStr` for integers, signed `{:0w}` formatting)
// ---------------------------------------------------------------------------

/// `c` is an ASCII decimal digit.
pub open spec fn is_digit(c: char) -> bool {
    '0' <= c <= '9'
}

/// Every character of `s` is an ASCII decimal digit.
pub open spec fn all_digits(s: Seq<char>) -> bool {
    forall|i: int| 0 <= i < s.len() ==> is_digit(#[trigger] s[i])
}

/// The value of the decimal digits `s`.
pub open spec fn digits_value(s: Seq<char>) -> int
    decreases s.len(),
{
    if s.len() == 0 {
        0
    } else {
        digits_value(s.drop_last()) * 10 + (s.last() as int - '0' as int)
    }
}

/// The integer written in `s`: an optional `+` or `-`, then one or more
/// ASCII digits (the grammar of `FromStr` for integer types).
pub open spec fn int_text_value(s: Seq<char>) -> Option<int> {
    if s.len() > 0 && (s[0] == '-' || s[0] == '+') {
        let d = s.drop_first();
        if d.len() > 0 && all_digits(d) {
            Some(if s[0] == '-' { -digits_value(d) } else { digits_value(d) })
        } else {
            None
        }
    } else if s.len() > 0 && all_digits(s) {
        Some(digits_value(s))
    } else {
        None
    }
}

/// A prefix of a digit string has at most the value of the whole.
pub proof fn lemma_digits_prefix(s: Seq<char>, k: int)
    requires
        all_digits(s),
        0 <= k <= s.len(),
    ensures
        0 <= digits_value(s.take(k)) <= digits_value(s),
    decreases s.len(),
{
    if s.len() > 0 {
        assert(all_digits(s.drop_last()));
        if k < s.len() {
            lemma_digits_prefix(s.drop_last(), k);
            assert(s.drop_last().take(k) =~= s.take(k));
        } else {
            assert(s.take(k) =~= s);
            lemma_digits_prefix(s.drop_last(), s.len() - 1);
            assert(s.drop_last().take(s.len() - 1) =~= s.drop_last());
        }
        assert(is_digit(s[s.len() - 1]));
    } else {
        assert(s.take(k) =~= s);
    }
}

/// The value of the digits `d`, or `None` when it exceeds `bound`.
fn digits_up_to(d: &Vec<char>, start: usize, bound: i128) -> (r: Option<i128>)
    requires
        start <= d.len(),
        0 <= bound <= 0x1_0000_0000_0000_0000,
        all_digits(d@.skip(start as int)),
    ensures
        match r {
            Some(v) => v == digits_value(d@.skip(start as int)) && 0 <= v <= bound,
            None => digits_value(d@.skip(start as int)) > bound,
        },
{
    let ghost t = d@.skip(start as int);
    let mut acc: i128 = 0;
    let mut i: usize = start;
    assert(t.take(0) =~= Seq::<char>::empty());
    while i < d.len()
        invariant
            start <= i <= d.len(),
            t == d@.skip(start as int),
            all_digits(t),
            0 <= bound <= 0x1_0000_0000_0000_0000,
            acc == digits_value(t.take(i - start)),
            0 <= acc <= bound,
        decreases d.len() - i,
    {
        assert(t.take(i - start + 1).drop_last() =~= t.take(i - start));
        assert(t.take(i - start + 1).last() == d@[i as int]);
        assert(is_digit(t[i - start]));
        let digit = (d[i] as u32 - '0' as u32) as i128;
        acc = acc * 10 + digit;
        i = i + 1;
        if acc > bound {
            proof {
                lemma_digits_prefix(t, i - start);
            }
            return None;
        }
    }
    assert(t.take(i - start) =~= t);
    Some(acc)
}

/// The integer written in `s` when it lies in `lo..=hi` (`str::parse` for an
/// integer type with that range).
pub fn parse_int_in(s: &Vec<char>, lo: i128, hi: i128) -> (r: Option<i128>)
    requires
        -0x1_0000_0000_0000_0000 <= lo <= 0 <= hi <= 0x1_0000_0000_0000_0000,
    ensures
        match r {
            Some(v) => int_text_value(s@) == Some(v as int) && lo <= v <= hi,
            None => match int_text_value(s@) {
                Some(v) => v < lo || v > hi,
                None => true,
            },
        },
{
    if s.len() == 0 {
        return None;
    }
    let signed = s[0] == '-' || s[0] == '+';
    let start: usize = if signed { 1 } else { 0 };
    if start >= s.len() {
        return None;
    }
    let mut i: usize = start;
    while i < s.len()
        invariant
            start <= i <= s.len(),
            start < s.len(),
            signed == (s@[0] == '-' || s@[0] == '+'),
            start == (if signed { 1usize } else { 0usize }),
            -0x1_0000_0000_0000_0000 <= lo <= 0 <= hi <= 0x1_0000_0000_0000_0000,
            forall|j: int| start <= j < i ==> is_digit(#[trigger] s@[j]),
        decreases s.len() - i,
    {
        if !('0' <= s[i] && s[i] <= '9') {
            assert(!all_digits(s@.skip(start as int))) by {
                assert(!is_digit(s@.skip(start as int)[i - start]));
            }
            if !signed {
                assert(!all_digits(s@)) by {
                    assert(!is_digit(s@[i as int]));
                }
            } else {
                assert(s@.drop_first() =~= s@.skip(1));
            }
            return None;
        }
        i = i + 1;
    }
    assert(all_digits(s@.skip(start as int)));
    if signed {
        assert(s@.drop_first() =~= s@.skip(1));
    } else {
        assert(s@.skip(0) =~= s@);
    }
    let ghost d = s@.skip(start as int);
    if s[0] == '-' {
        let bound: i128 = 0 - lo;
        match digits_up_to(s, start, bound) {
            Some(v) => {
                assert(int_text_value(s@) == Some(-digits_value(d)));
                Some(-v)
            },
            None => {
                assert(int_text_value(s@) == Some(-digits_value(d)));
                None
            },
        }
    } else {
        match digits_up_to(s, start, hi) {
            Some(v) => {
                assert(int_text_value(s@) == Some(digits_value(d)));
                Some(v)
            },
            None => {
                assert(int_text_value(s@) == Some(digits_value(d)));
                None
            },
        }
    }
}

/// Division rounding toward zero (Rust's `/` on signed integers), for a
/// positive divisor.
pub open spec fn tdiv(a: int, b: int) -> int {
    if a >= 0 {
        a / b
    } else {
        -((-a) / b)
    }
}

/// The remainder of [`tdiv`] (Rust's `%` on signed integers): it has the
/// sign of `a`.
pub open spec fn trem(a: int, b: int) -> int {
    a - b * tdiv(a, b)
}

/// `a / b` as Rust computes it on signed integers.
pub fn trunc_div(a: i128, b: i128) -> (r: i128)
    requires
        b > 0,
        a > i128::MIN,
    ensures
        r == tdiv(a as int, b as int),
{
    if a >= 0 {
        a / b
    } else {
        let q = (0 - a) / b;
        0 - q
    }
}

/// `n` written in decimal, with a `-` when negative, zero-padded after the
/// sign to `width` characters (the `{:0width$}` format of a signed integer).
pub open spec fn signed_padded(n: int, width: nat) -> Seq<char> {
    if n >= 0 {
        zero_pad(decimal(n as nat), width)
    } else {
        "-"@ + zero_pad(decimal((-n) as nat), if width >= 1 { (width - 1) as nat } else { 0 })
    }
}

/// Appends `n` in the `{:0width$}` format.
pub fn push_signed_padded(v: &mut Vec<char>, n: i128, width: usize)
    requires
        n > i128::MIN,
    ensures
        final(v)@ == old(v)@ + signed_padded(n as int, width as nat),
{
    if n >= 0 {
        push_padded(v, n as u128, width);
    } else {
        let ghost start = v@;
        v.push('-');
        let w: usize = if width >= 1 { width - 1 } else { 0 };
        let m: u128 = (0 - n) as u128;
        assert(m as nat == (-n) as nat);
        push_padded(v, m, w);
        assert(w as nat == if width >= 1 { (width - 1) as nat } else { 0 });
        proof {
            reveal_strlit("-");
        }
        assert(v@ =~= start + signed_padded(n as int, width as nat));
    }
}

// ---------------------------------------------------------------------------
// Case mapping (`str::to_lowercase`, `str::to_uppercase`)
// ---------------------------------------------------------------------------

/// What `str::to_lowercase` returns for a string with characters `s`.
pub uninterp spec fn lowercase(s: Seq<char>) -> Seq<char>;

/// What `str::to_uppercase` returns for a string with characters `s`.
pub uninterp spec fn uppercase(s: Seq<char>) -> Seq<char>;

/// Every character of `s` is ASCII.
pub open spec fn all_ascii(s: Seq<char>) -> bool {
    forall|i: int| 0 <= i < s.len() ==> (#[trigger] s[i] as u32) < 128
}

/// `s` with the ASCII letters `A`..`Z` made lowercase.
pub open spec fn ascii_lowercase(s: Seq<char>) -> Seq<char> {
    s.map_values(|c: char| if 'A' <= c && c <= 'Z' { ((c as u32) + 32) as char } else { c })
}

/// `s` with the ASCII letters `a`..`z` made uppercase.
pub open spec fn ascii_uppercase(s: Seq<char>) -> Seq<char> {
    s.map_values(|c: char| if 'a' <= c && c <= 'z' { ((c as u32) - 32) as char } else { c })
}

/// `str::to_lowercase`: the Unicode lowercase mapping of `s`; the result is
/// named by [`lowercase`] and depends on the characters of `s` alone. On
/// ASCII text it lowercases the letters `A`..`Z` and keeps every other
/// character, as the Unicode mapping does.
#[verifier::external_body]
pub(crate) fn to_lowercase(s: &str) -> (r: String)
    ensures
        r@ == lowercase(s@),
        all_ascii(s@) ==> r@ == ascii_lowercase(s@),
{
    s.to_lowercase()
}

/// `str::to_uppercase`: the Unicode uppercase mapping of `s`; the result is
/// named by [`uppercase`] and depends on the characters of `s` alone. On
/// ASCII text it uppercases the letters `a`..`z` and keeps every other
/// character, as the Unicode mapping does.
#[verifier::external_body]
pub(crate) fn to_uppercase(s: &str) -> (r: String)
    ensures
        r@ == uppercase(s@),
        all_ascii(s@) ==> r@ == ascii_uppercase(s@),
{
    s.to_uppercase()
}

} // verus!
