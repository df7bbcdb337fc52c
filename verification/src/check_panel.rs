//! What the check-result panels show: the status of an AI check, the
//! counts of its findings, and a check's results grouped by outcome.

use vstd::prelude::*;
use crate::dashboard::{check_views, CheckMode, CheckResult, CheckStatus, CheckView};
use crate::models::{CheckItem, CheckResultData};
use crate::text::{chars_eq, to_chars};

verus! {

/// The CSS class, icon and label of an AI check's status.
pub open spec fn status_view_of(status: Seq<char>) -> (Seq<char>, Seq<char>, Seq<char>) {
    if status == "ok"@ {
        ("status-ok"@, "✓"@, "問題なし"@)
    } else if status == "warning"@ {
        ("status-warning"@, "⚠"@, "要確認"@)
    } else if status == "error"@ {
        ("status-error"@, "✗"@, "要対応"@)
    } else {
        ("status-unknown"@, "?"@, "不明"@)
    }
}

/// The CSS class, icon and label shown for an AI check's status.
pub fn status_view(status: &str) -> (r: (&'static str, &'static str, &'static str))
    ensures
        (r.0@, r.1@, r.2@) == status_view_of(status@),
{
    let s = to_chars(status);
    if chars_eq(&s, &to_chars("ok")) {
        ("status-ok", "✓", "問題なし")
    } else if chars_eq(&s, &to_chars("warning")) {
        ("status-warning", "⚠", "要確認")
    } else if chars_eq(&s, &to_chars("error")) {
        ("status-error", "✗", "要対応")
    } else {
        ("status-unknown", "?", "不明")
    }
}

/// The icon of a finding's type.
pub open spec fn item_icon_of(item_type: Seq<char>) -> Seq<char> {
    if item_type == "ok"@ {
        "✓"@
    } else if item_type == "warning"@ {
        "⚠"@
    } else if item_type == "error"@ {
        "✗"@
    } else if item_type == "info"@ {
        "ℹ"@
    } else {
        "•"@
    }
}

/// The icon shown for a finding.
pub fn item_icon(item_type: &str) -> (r: &'static str)
    ensures
        r@ == item_icon_of(item_type@),
{
    let s = to_chars(item_type);
    if chars_eq(&s, &to_chars("ok")) {
        "✓"
    } else if chars_eq(&s, &to_chars("warning")) {
        "⚠"
    } else if chars_eq(&s, &to_chars("error")) {
        "✗"
    } else if chars_eq(&s, &to_chars("info")) {
        "ℹ"
    } else {
        "•"
    }
}

/// The number of findings of type `t`.
pub open spec fn items_of_type(items: Seq<CheckItem>, t: Seq<char>) -> nat
    decreases items.len(),
{
    if items.len() == 0 {
        0
    } else {
        items_of_type(items.drop_last(), t) + if items.last().item_type@ == t {
            1nat
        } else {
            0nat
        }
    }
}

fn count_items(items: &Vec<CheckItem>, t: &str) -> (n: usize)
    ensures
        n == items_of_type(items@, t@),
{
    let tc = to_chars(t);
    let mut n: usize = 0;
    let mut i: usize = 0;
    assert(items@.take(0) =~= Seq::<CheckItem>::empty());
    while i < items.len()
        invariant
            i <= items@.len(),
            tc@ == t@,
            n == items_of_type(items@.take(i as int), t@),
            n <= i,
        decreases items.len() - i,
    {
        assert(items@.take(i + 1).drop_last() =~= items@.take(i as int));
        if chars_eq(&to_chars(items[i].item_type.as_str()), &tc) {
            n = n + 1;
        }
        i = i + 1;
    }
    assert(items@.take(items@.len() as int) =~= items@);
    n
}

/// The numbers of findings that are fine, warnings and errors.
pub fn item_counts(result: &CheckResultData) -> (r: (usize, usize, usize))
    ensures
        r.0 == items_of_type(result.items@, "ok"@),
        r.1 == items_of_type(result.items@, "warning"@),
        r.2 == items_of_type(result.items@, "error"@),
{
    (
        count_items(&result.items, "ok"),
        count_items(&result.items, "warning"),
        count_items(&result.items, "error"),
    )
}

/// The title of the results panel of a check (none for no check).
pub fn panel_title(mode: CheckMode) -> (r: &'static str)
    ensures
        r@ == match mode {
            CheckMode::Existence => "書類存在チェック結果"@,
            CheckMode::Date => "日付チェック結果"@,
            CheckMode::Inactive => ""@,
        },
{
    match mode {
        CheckMode::Existence => "書類存在チェック結果",
        CheckMode::Date => "日付チェック結果",
        CheckMode::Inactive => "",
    }
}

/// Whether the results panel shows: a check is selected and it has results.
pub fn panel_visible(mode: CheckMode, results: &Vec<CheckResult>) -> (b: bool)
    ensures
        b == (mode != CheckMode::Inactive && results@.len() > 0),
{
    mode != CheckMode::Inactive && results.len() > 0
}

/// The positions of the results with status `s`, in order.
pub open spec fn positions_with(v: Seq<CheckView>, s: CheckStatus) -> Seq<usize>
    decreases v.len(),
{
    if v.len() == 0 {
        Seq::empty()
    } else {
        positions_with(v.drop_last(), s) + if v.last().status == s {
            seq![(v.len() - 1) as usize]
        } else {
            Seq::empty()
        }
    }
}

/// The positions of the results with status `s`, in order (the panel lists
/// errors, then warnings, then results without findings).
pub fn results_with_status(results: &Vec<CheckResult>, s: CheckStatus) -> (r: Vec<usize>)
    ensures
        r@ == positions_with(check_views(results@), s),
{
    let ghost v = check_views(results@);
    let mut r: Vec<usize> = Vec::new();
    let mut i: usize = 0;
    assert(v.take(0) =~= Seq::<CheckView>::empty());
    while i < results.len()
        invariant
            i <= results@.len(),
            v == check_views(results@),
            r@ == positions_with(v.take(i as int), s),
        decreases results.len() - i,
    {
        assert(v.take(i + 1).drop_last() =~= v.take(i as int));
        assert(v.take(i + 1).last() == results@[i as int]@);
        if results[i].status == s {
            r.push(i);
        }
        i = i + 1;
        assert(r@ =~= positions_with(v.take(i as int), s));
    }
    assert(v.take(results@.len() as int) =~= v);
    r
}

} // verus!
