//! The PDF viewer's decisions: the file id of a Google Drive URL, whether a
//! URL is a local path, the viewer page it embeds, and where its messages
//! lead.

use vstd::prelude::*;
use crate::models::ViewMode;
use crate::text::{
    after_first, after_first_of, contains_str, extend_str, from_chars, has_prefix, has_sub,
    starts_with_str, to_chars, until_stop, until_stop_of,
};

verus! {

/// The file id of a Drive URL: what follows the first `/d/` up to the next
/// `/`, without a query part, when that is not empty.
pub open spec fn drive_file_id_of(url: Seq<char>) -> Option<Seq<char>> {
    match after_first(url, "/d/"@) {
        Some(rest) => {
            let id = until_stop(until_stop(rest, seq!['/']), seq!['?']);
            if id.len() > 0 {
                Some(id)
            } else {
                None
            }
        },
        None => None,
    }
}

/// The file id of a Google Drive file URL
/// (`https://drive.google.com/file/d/{ID}/view`).
pub fn extract_drive_file_id(url: &str) -> (r: Option<String>)
    ensures
        crate::regex_support::opt_string(r) == drive_file_id_of(url@),
{
    let u = to_chars(url);
    match after_first_of(&u, "/d/") {
        Some(rest) => {
            let mut slash: Vec<char> = Vec::new();
            slash.push('/');
            let mut question: Vec<char> = Vec::new();
            question.push('?');
            assert(slash@ =~= seq!['/']);
            assert(question@ =~= seq!['?']);
            let seg = until_stop_of(&rest, &slash);
            let id = until_stop_of(&seg, &question);
            if id.len() > 0 {
                Some(from_chars(&id))
            } else {
                None
            }
        },
        None => None,
    }
}

/// A URL that is a local file path (a Windows drive path, or under
/// `/Users/` or `/home/`), which the browser cannot show.
pub open spec fn local_path(url: Seq<char>) -> bool {
    has_sub(url, ":\\"@) || has_prefix(url, "/Users/"@) || has_prefix(url, "/home/"@)
}

/// Whether `url` is a local file path.
pub fn is_local_path(url: &str) -> (b: bool)
    ensures
        b == local_path(url@),
{
    let u = to_chars(url);
    contains_str(&u, ":\\") || starts_with_str(&u, "/Users/") || starts_with_str(&u, "/home/")
}

/// The address of the embedded viewer page for a file, given the
/// URI-encoded file id, document type, contractor and sheet service URL.
pub open spec fn viewer_page_of(
    file_id: Seq<char>,
    doc_type: Seq<char>,
    contractor: Seq<char>,
    gas_url: Seq<char>,
) -> Seq<char> {
    "editor/index.html?mode=view&fileId="@ + file_id + "&docType="@ + doc_type + "&contractor="@
        + contractor + "&gasUrl="@ + gas_url
}

/// The address of the embedded viewer page.
pub fn viewer_page(file_id: &str, doc_type: &str, contractor: &str, gas_url: &str) -> (r: String)
    ensures
        r@ == viewer_page_of(file_id@, doc_type@, contractor@, gas_url@),
{
    let mut out: Vec<char> = Vec::new();
    extend_str(&mut out, "editor/index.html?mode=view&fileId=");
    extend_str(&mut out, file_id);
    extend_str(&mut out, "&docType=");
    extend_str(&mut out, doc_type);
    extend_str(&mut out, "&contractor=");
    extend_str(&mut out, contractor);
    extend_str(&mut out, "&gasUrl=");
    extend_str(&mut out, gas_url);
    from_chars(&out)
}

/// Where a message of type `t` from the viewer page leads, for the document
/// `doc_key` (labelled `doc_type`) of a contractor at `url`:
/// `viewer-back` to the dashboard, `viewer-edit` to the PDF editor,
/// `viewer-check` to the AI checker when the URL has a file id; nowhere
/// for other messages.
pub fn viewer_message(
    t: &str,
    contractor: &str,
    doc_type: &str,
    url: &str,
    doc_key: &str,
    contractor_id: &str,
) -> (r: Option<ViewMode>)
    ensures
        if t@ == "viewer-back"@ {
            r matches Some(ViewMode::Dashboard)
        } else if t@ == "viewer-edit"@ {
            r matches Some(ViewMode::PdfEditor { contractor: c, doc_type: d, original_url: u })
                && c@ == contractor@ && d@ == doc_type@ && u@ == url@
        } else if t@ == "viewer-check"@ {
            match drive_file_id_of(url@) {
                Some(id) => r matches Some(ViewMode::AiChecker { contractor: c, doc_type: d, file_id: f, doc_key: k, contractor_id: i })
                    && c@ == contractor@ && d@ == doc_type@ && f@ == id && k@ == doc_key@
                    && i@ == contractor_id@,
                None => r is None,
            }
        } else {
            r is None
        },
{
    let tc = to_chars(t);
    if crate::text::chars_eq(&tc, &to_chars("viewer-back")) {
        Some(ViewMode::Dashboard)
    } else if crate::text::chars_eq(&tc, &to_chars("viewer-edit")) {
        Some(
            ViewMode::PdfEditor {
                contractor: contractor.to_owned(),
                doc_type: doc_type.to_owned(),
                original_url: url.to_owned(),
            },
        )
    } else if crate::text::chars_eq(&tc, &to_chars("viewer-check")) {
        match extract_drive_file_id(url) {
            Some(file_id) => Some(
                ViewMode::AiChecker {
                    contractor: contractor.to_owned(),
                    doc_type: doc_type.to_owned(),
                    file_id,
                    doc_key: doc_key.to_owned(),
                    contractor_id: contractor_id.to_owned(),
                },
            ),
            None => None,
        }
    } else {
        None
    }
}

/// The CSS class and the headline of a check result shown beside a viewer.
pub open spec fn viewer_status_of(status: Seq<char>) -> (Seq<char>, Seq<char>) {
    if status == "ok"@ {
        ("status-ok"@, "✓ OK"@)
    } else if status == "warning"@ {
        ("status-warning"@, "⚠ 警告"@)
    } else if status == "error"@ {
        ("status-error"@, "✗ エラー"@)
    } else {
        ("status-unknown"@, "? 不明"@)
    }
}

/// The CSS class and headline of the check result beside a viewer.
pub fn viewer_status(status: &str) -> (r: (&'static str, &'static str))
    ensures
        (r.0@, r.1@) == viewer_status_of(status@),
{
    let s = to_chars(status);
    if crate::text::chars_eq(&s, &to_chars("ok")) {
        ("status-ok", "✓ OK")
    } else if crate::text::chars_eq(&s, &to_chars("warning")) {
        ("status-warning", "⚠ 警告")
    } else if crate::text::chars_eq(&s, &to_chars("error")) {
        ("status-error", "✗ エラー")
    } else {
        ("status-unknown", "? 不明")
    }
}

/// The icon of a finding beside a viewer; findings of any other type,
/// `info` among them, get a bullet.
pub open spec fn viewer_item_icon_of(item_type: Seq<char>) -> Seq<char> {
    if item_type == "ok"@ {
        "✓"@
    } else if item_type == "warning"@ {
        "⚠"@
    } else if item_type == "error"@ {
        "✗"@
    } else {
        "•"@
    }
}

/// The icon shown for a finding beside a viewer.
pub fn viewer_item_icon(item_type: &str) -> (r: &'static str)
    ensures
        r@ == viewer_item_icon_of(item_type@),
{
    let s = to_chars(item_type);
    if crate::text::chars_eq(&s, &to_chars("ok")) {
        "✓"
    } else if crate::text::chars_eq(&s, &to_chars("warning")) {
        "⚠"
    } else if crate::text::chars_eq(&s, &to_chars("error")) {
        "✗"
    } else {
        "•"
    }
}

} // verus!
