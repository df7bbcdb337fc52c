//! What a contractor's card shows: how many documents are submitted and
//! checked, the documents in key order, the badge of each, and where a
//! click on a document leads.

use vstd::prelude::*;
use crate::dashboard::{
    doc_label, doc_label_of, lemma_text_less_irreflexive, lemma_text_less_total,
    lemma_text_less_transitive, str_less, text_less,
};
use crate::models::{
    classify_lowercase_url, detect_file_type, file_type_of, CheckResultData, Contractor,
    DocFileType, DocStatus, ViewMode,
};
use crate::text::{extend_str, from_chars, lowercase, to_chars};

verus! {

// ---------------------------------------------------------------------------
// Counts
// ---------------------------------------------------------------------------

/// The counts shown in the header of a contractor's card.
#[derive(Debug, Clone, Copy, PartialEq, Eq, Structural)]
pub struct CardSummary {
    /// Documents of the contractor.
    pub total: usize,
    /// Documents submitted.
    pub complete: usize,
    /// Documents with a check result.
    pub checked: usize,
    /// Documents whose check result is a warning.
    pub warnings: usize,
    /// Documents whose check result is an error.
    pub errors: usize,
}

impl CardSummary {
    /// All documents are submitted.
    pub open spec fn is_complete(self) -> bool {
        self.complete == self.total
    }
}

/// The check result of `d` has status `s`.
pub open spec fn result_is(d: DocStatus, s: Seq<char>) -> bool {
    match d.check_result {
        Some(r) => r.status@ == s,
        None => false,
    }
}

/// The number of documents of `docs` that satisfy `p`.
pub open spec fn count_docs(docs: Seq<(String, DocStatus)>, p: spec_fn(DocStatus) -> bool) -> nat
    decreases docs.len(),
{
    if docs.len() == 0 {
        0
    } else {
        count_docs(docs.drop_last(), p) + if p(docs.last().1) {
            1nat
        } else {
            0nat
        }
    }
}

/// The counts of a contractor's card.
pub open spec fn summary_of(c: Contractor) -> CardSummary {
    CardSummary {
        total: c.docs@.len() as usize,
        complete: count_docs(c.docs@, |d: DocStatus| d.status) as usize,
        checked: count_docs(c.docs@, |d: DocStatus| d.check_result is Some) as usize,
        warnings: count_docs(c.docs@, |d: DocStatus| result_is(d, "warning"@)) as usize,
        errors: count_docs(c.docs@, |d: DocStatus| result_is(d, "error"@)) as usize,
    }
}

fn status_is(r: &CheckResultData, s: &str) -> (b: bool)
    ensures
        b == (r.status@ == s@),
{
    crate::text::chars_eq(&to_chars(r.status.as_str()), &to_chars(s))
}

/// The counts of a contractor's card.
pub fn card_summary(c: &Contractor) -> (r: CardSummary)
    ensures
        r == summary_of(*c),
{
    let ghost docs = c.docs@;
    let mut complete: usize = 0;
    let mut checked: usize = 0;
    let mut warnings: usize = 0;
    let mut errors: usize = 0;
    let mut i: usize = 0;
    assert(docs.take(0) =~= Seq::<(String, DocStatus)>::empty());
    while i < c.docs.len()
        invariant
            i <= docs.len(),
            docs == c.docs@,
            complete == count_docs(docs.take(i as int), |d: DocStatus| d.status),
            checked == count_docs(docs.take(i as int), |d: DocStatus| d.check_result is Some),
            warnings == count_docs(docs.take(i as int), |d: DocStatus| result_is(d, "warning"@)),
            errors == count_docs(docs.take(i as int), |d: DocStatus| result_is(d, "error"@)),
            complete <= i,
            checked <= i,
            warnings <= i,
            errors <= i,
        decreases docs.len() - i,
    {
        assert(docs.take(i + 1).drop_last() =~= docs.take(i as int));
        assert(docs.take(i + 1).last() == docs[i as int]);
        let d = &c.docs[i].1;
        if d.status {
            complete = complete + 1;
        }
        match &d.check_result {
            Some(r) => {
                checked = checked + 1;
                if status_is(r, "warning") {
                    warnings = warnings + 1;
                }
                if status_is(r, "error") {
                    errors = errors + 1;
                }
            },
            None => {},
        }
        i = i + 1;
    }
    assert(docs.take(docs.len() as int) =~= docs);
    CardSummary { total: c.docs.len(), complete, checked, warnings, errors }
}

// ---------------------------------------------------------------------------
// Badges
// ---------------------------------------------------------------------------

/// The badge of a check status: icon, CSS class and title.
pub open spec fn check_badge_of(status: Seq<char>) -> (Seq<char>, Seq<char>, Seq<char>) {
    if status == "ok"@ {
        ("✓"@, "badge-ok"@, "チェック済み"@)
    } else if status == "warning"@ {
        ("⚠"@, "badge-warning"@, "要確認"@)
    } else if status == "error"@ {
        ("!"@, "badge-error"@, "要対応"@)
    } else {
        ("?"@, "badge-unknown"@, "不明"@)
    }
}

/// The badge shown for a document's check status.
pub fn check_badge(status: &str) -> (r: (&'static str, &'static str, &'static str))
    ensures
        (r.0@, r.1@, r.2@) == check_badge_of(status@),
{
    let s = to_chars(status);
    if crate::text::chars_eq(&s, &to_chars("ok")) {
        ("✓", "badge-ok", "チェック済み")
    } else if crate::text::chars_eq(&s, &to_chars("warning")) {
        ("⚠", "badge-warning", "要確認")
    } else if crate::text::chars_eq(&s, &to_chars("error")) {
        ("!", "badge-error", "要対応")
    } else {
        ("?", "badge-unknown", "不明")
    }
}

/// The badge of a file type (label and CSS class); none for an unknown
/// type.
pub open spec fn file_badge_of(t: DocFileType) -> Option<(Seq<char>, Seq<char>)> {
    match t {
        DocFileType::Pdf => Some(("PDF"@, "file-badge-pdf"@)),
        DocFileType::Image => Some(("IMG"@, "file-badge-img"@)),
        DocFileType::GoogleSpreadsheet => Some(("シート"@, "file-badge-sheet"@)),
        DocFileType::Excel => Some(("Excel"@, "file-badge-excel"@)),
        DocFileType::GoogleDoc => Some(("Doc"@, "file-badge-doc"@)),
        DocFileType::Unknown => None,
    }
}

/// The file-type badge of a document with URL `url`.
pub fn file_type_badge(url: &str) -> (r: Option<(&'static str, &'static str)>)
    ensures
        match r {
            Some((l, c)) => file_badge_of(file_type_of(lowercase(url@))) == Some((l@, c@)),
            None => file_badge_of(file_type_of(lowercase(url@))) is None,
        },
{
    match detect_file_type(url) {
        DocFileType::Pdf => Some(("PDF", "file-badge-pdf")),
        DocFileType::Image => Some(("IMG", "file-badge-img")),
        DocFileType::GoogleSpreadsheet => Some(("シート", "file-badge-sheet")),
        DocFileType::Excel => Some(("Excel", "file-badge-excel")),
        DocFileType::GoogleDoc => Some(("Doc", "file-badge-doc")),
        DocFileType::Unknown => None,
    }
}

/// The CSS class of a document row.
pub open spec fn doc_item_class_of(submitted: bool, has_url: bool, badge: Seq<char>) -> Seq<char> {
    "doc-item "@ + (if submitted {
        "ok"@
    } else {
        "missing"@
    }) + " "@ + (if has_url {
        "has-link clickable"@
    } else {
        ""@
    }) + " "@ + badge
}

/// The CSS class of a document row: submitted or missing, clickable when it
/// has a URL, and the class of its check badge.
pub fn doc_item_class(submitted: bool, has_url: bool, badge_class: Option<&str>) -> (r: String)
    ensures
        r@ == doc_item_class_of(
            submitted,
            has_url,
            match badge_class {
                Some(b) => b@,
                None => ""@,
            },
        ),
{
    let mut out: Vec<char> = Vec::new();
    extend_str(&mut out, "doc-item ");
    extend_str(&mut out, if submitted { "ok" } else { "missing" });
    extend_str(&mut out, " ");
    extend_str(&mut out, if has_url { "has-link clickable" } else { "" });
    extend_str(&mut out, " ");
    extend_str(
        &mut out,
        match badge_class {
            Some(b) => b,
            None => "",
        },
    );
    from_chars(&out)
}

// ---------------------------------------------------------------------------
// Clicks
// ---------------------------------------------------------------------------

/// What a click on a document does.
#[derive(Debug, Clone)]
pub enum DocOpen {
    /// Show the document in a viewer of the dashboard.
    Viewer(ViewMode),
    /// Open the URL in a new browser tab.
    NewTab(String),
}

/// What a click on the document `key` (labelled `label`) of a contractor
/// does, for its URL `url`: PDFs and images open in the PDF viewer, Google
/// spreadsheets in the spreadsheet viewer, anything else (Excel files among
/// them, which cannot be embedded) in a new tab.
pub fn doc_click_action(
    contractor: &str,
    label: &str,
    url: &str,
    key: &str,
    contractor_id: &str,
) -> (r: DocOpen)
    ensures
        match file_type_of(lowercase(url@)) {
            DocFileType::Pdf | DocFileType::Image => match r {
                DocOpen::Viewer(ViewMode::PdfViewer { contractor: c, doc_type, url: u, doc_key, contractor_id: id }) =>
                    c@ == contractor@ && doc_type@ == label@ && u@ == url@ && doc_key@ == key@ && id@ == contractor_id@,
                _ => false,
            },
            DocFileType::GoogleSpreadsheet => match r {
                DocOpen::Viewer(ViewMode::SpreadsheetViewer { contractor: c, doc_type, url: u, doc_key, contractor_id: id }) =>
                    c@ == contractor@ && doc_type@ == label@ && u@ == url@ && doc_key@ == key@ && id@ == contractor_id@,
                _ => false,
            },
            _ => match r {
                DocOpen::NewTab(u) => u@ == url@,
                _ => false,
            },
        },
{
    match detect_file_type(url) {
        DocFileType::Pdf | DocFileType::Image => DocOpen::Viewer(
            ViewMode::PdfViewer {
                contractor: contractor.to_owned(),
                doc_type: label.to_owned(),
                url: url.to_owned(),
                doc_key: key.to_owned(),
                contractor_id: contractor_id.to_owned(),
            },
        ),
        DocFileType::GoogleSpreadsheet => DocOpen::Viewer(
            ViewMode::SpreadsheetViewer {
                contractor: contractor.to_owned(),
                doc_type: label.to_owned(),
                url: url.to_owned(),
                doc_key: key.to_owned(),
                contractor_id: contractor_id.to_owned(),
            },
        ),
        _ => DocOpen::NewTab(url.to_owned()),
    }
}

// ---------------------------------------------------------------------------
// Order of the documents
// ---------------------------------------------------------------------------

/// `order` lists each document of `docs` once, in order of their keys
/// (documents with equal keys in their order in `docs`).
pub open spec fn in_key_order(docs: Seq<(String, DocStatus)>, order: Seq<usize>) -> bool {
    &&& order.len() == docs.len()
    &&& order.no_duplicates()
    &&& forall|i: int| 0 <= i < order.len() ==> order[i] < docs.len()
    &&& forall|a: int, b: int|
        0 <= a < b < order.len() ==> !text_less(
            docs[order[b] as int].0@,
            docs[order[a] as int].0@,
        )
    &&& forall|a: int, b: int|
        0 <= a < b < order.len() && docs[order[a] as int].0@ == docs[order[b] as int].0@
            ==> order[a] < order[b]
}

/// The positions of the documents of a contractor, sorted by key (the order
/// in which the card lists them).
pub fn doc_order(docs: &Vec<(String, DocStatus)>) -> (r: Vec<usize>)
    ensures
        in_key_order(docs@, r@),
{
    let ghost d = docs@;
    let mut keys: Vec<Vec<char>> = Vec::new();
    let mut j: usize = 0;
    while j < docs.len()
        invariant
            j <= docs@.len(),
            d == docs@,
            keys@.len() == j,
            forall|m: int| 0 <= m < j ==> (#[trigger] keys@[m])@ == d[m].0@,
        decreases docs.len() - j,
    {
        keys.push(to_chars(docs[j].0.as_str()));
        j = j + 1;
    }
    let mut order: Vec<usize> = Vec::new();
    let mut i: usize = 0;
    while i < docs.len()
        invariant
            i <= d.len(),
            d == docs@,
            keys@.len() == d.len(),
            forall|m: int| 0 <= m < d.len() ==> (#[trigger] keys@[m])@ == d[m].0@,
            order@.len() == i,
            order@.no_duplicates(),
            forall|m: int| 0 <= m < order@.len() ==> order@[m] < i,
            forall|a: int, b: int|
                0 <= a < b < order@.len() ==> !text_less(
                    d[order@[b] as int].0@,
                    d[order@[a] as int].0@,
                ),
            forall|a: int, b: int|
                0 <= a < b < order@.len() && d[order@[a] as int].0@ == d[order@[b] as int].0@
                    ==> order@[a] < order@[b],
        decreases d.len() - i,
    {
        let ghost ki = d[i as int].0@;
        let mut p: usize = 0;
        while p < order.len() && !str_less(&keys[i], &keys[order[p]])
            invariant
                p <= order@.len(),
                i < d.len(),
                ki == d[i as int].0@,
                keys@.len() == d.len(),
                forall|m: int| 0 <= m < d.len() ==> (#[trigger] keys@[m])@ == d[m].0@,
                forall|m: int| 0 <= m < order@.len() ==> order@[m] < i,
                forall|q: int| 0 <= q < p ==> !text_less(ki, d[order@[q] as int].0@),
            decreases order@.len() - p,
        {
            p = p + 1;
        }
        let ghost old_order = order@;
        proof {
            if p < old_order.len() {
                assert(text_less(ki, d[old_order[p as int] as int].0@));
            }
        }
        order.insert(p, i);
        proof {
            assert(order@ =~= old_order.take(p as int).push(i).add(old_order.skip(p as int)));
            assert forall|a: int, b: int| 0 <= a < b < order@.len() implies !text_less(
                d[order@[b] as int].0@,
                d[order@[a] as int].0@,
            ) && (d[order@[a] as int].0@ == d[order@[b] as int].0@ ==> order@[a] < order@[b]) by {
                if b < p {
                    assert(order@[a] == old_order[a] && order@[b] == old_order[b]);
                } else if a > p {
                    assert(order@[a] == old_order[a - 1] && order@[b] == old_order[b - 1]);
                } else if b == p {
                    assert(order@[b] == i && order@[a] == old_order[a]);
                } else if a == p {
                    let kb = d[old_order[b - 1] as int].0@;
                    let kp = d[old_order[p as int] as int].0@;
                    assert(order@[a] == i && order@[b] == old_order[b - 1]);
                    assert(text_less(ki, kp));
                    if b - 1 > p {
                        assert(!text_less(kb, kp));
                        lemma_text_less_total(kb, kp);
                        if kb != kp {
                            lemma_text_less_transitive(ki, kp, kb);
                        }
                    }
                    assert(text_less(ki, kb));
                    lemma_text_less_irreflexive(ki);
                    if text_less(kb, ki) {
                        lemma_text_less_transitive(ki, kb, ki);
                    }
                } else {
                    assert(order@[a] == old_order[a] && order@[b] == old_order[b - 1]);
                }
            }
            assert forall|x: int, y: int|
                0 <= x < order@.len() && 0 <= y < order@.len() && x != y implies order@[x]
                != order@[y] by {
                if x < p && y > p {
                    assert(order@[y] == old_order[y - 1]);
                } else if x > p && y < p {
                    assert(order@[x] == old_order[x - 1]);
                } else if x > p && y > p {
                    assert(order@[x] == old_order[x - 1] && order@[y] == old_order[y - 1]);
                }
            }
        }
        i = i + 1;
    }
    order
}

} // verus!
