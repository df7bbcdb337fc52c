//! What the check-result tooltip shows and where.

use vstd::prelude::*;
use crate::context_menu::{fit_coordinate, fitted};
use crate::models::{CheckResultTooltipState, DocStatus};
use crate::regex_support::opt_string;
use crate::text::to_chars;

verus! {

pub const TOOLTIP_WIDTH: i32 = 320;

pub const TOOLTIP_HEIGHT: i32 = 300;

/// Where the tooltip opened at `(x, y)` is drawn in a viewport of `vw` by
/// `vh`: moved back by its size (not below 0) where it would overflow.
pub fn tooltip_position(x: i32, y: i32, vw: i32, vh: i32) -> (r: (i32, i32))
    requires
        i32::MIN + TOOLTIP_WIDTH <= x <= i32::MAX - TOOLTIP_WIDTH,
        i32::MIN + TOOLTIP_HEIGHT <= y <= i32::MAX - TOOLTIP_HEIGHT,
    ensures
        r.0 == fitted(x as int, TOOLTIP_WIDTH as int, vw as int),
        r.1 == fitted(y as int, TOOLTIP_HEIGHT as int, vh as int),
{
    (fit_coordinate(x, TOOLTIP_WIDTH, vw), fit_coordinate(y, TOOLTIP_HEIGHT, vh))
}

/// The status line of a check status: its text and CSS class.
pub open spec fn status_line_of(status: Seq<char>) -> (Seq<char>, Seq<char>) {
    if status == "ok"@ {
        ("✓ OK"@, "status-ok"@)
    } else if status == "warning"@ {
        ("⚠ 要確認"@, "status-warning"@)
    } else if status == "error"@ {
        ("! 要対応"@, "status-error"@)
    } else {
        ("? 不明"@, "status-unknown"@)
    }
}

/// The status line of a check result's status.
pub fn status_line(status: &str) -> (r: (&'static str, &'static str))
    ensures
        (r.0@, r.1@) == status_line_of(status@),
{
    let s = to_chars(status);
    if crate::text::chars_eq(&s, &to_chars("ok")) {
        ("✓ OK", "status-ok")
    } else if crate::text::chars_eq(&s, &to_chars("warning")) {
        ("⚠ 要確認", "status-warning")
    } else if crate::text::chars_eq(&s, &to_chars("error")) {
        ("! 要対応", "status-error")
    } else {
        ("? 不明", "status-unknown")
    }
}

/// The tooltip that a pointer resting on a document of a contractor's card
/// opens at `(x, y)`: visible, naming the contractor and the document, with
/// the document's check result and last check time, and no pending timer.
pub fn hover_tooltip(
    x: i32,
    y: i32,
    contractor_name: &str,
    doc_key: &str,
    doc_label: &str,
    doc: &DocStatus,
) -> (r: CheckResultTooltipState)
    ensures
        r.visible,
        r.x == x,
        r.y == y,
        r.contractor_name@ == contractor_name@,
        r.doc_key@ == doc_key@,
        r.doc_label@ == doc_label@,
        match (r.check_result, doc.check_result) {
            (Some(a), Some(b)) => a.same_as(b),
            (None, None) => true,
            _ => false,
        },
        opt_string(r.last_checked) == opt_string(doc.last_checked),
        r.hover_timer_id is None,
{
    CheckResultTooltipState {
        visible: true,
        x,
        y,
        contractor_name: contractor_name.to_owned(),
        doc_key: doc_key.to_owned(),
        doc_label: doc_label.to_owned(),
        check_result: match &doc.check_result {
            Some(c) => Some(c.clone()),
            None => None,
        },
        last_checked: match &doc.last_checked {
            Some(t) => Some(t.clone()),
            None => None,
        },
        hover_timer_id: None,
    }
}

} // verus!
