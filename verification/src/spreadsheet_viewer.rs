//! URLs of the spreadsheet viewer: the Drive preview of a file, the id and
//! sheet (`gid`) of a Google Sheets URL, the page it embeds, and the AI
//! check page it opens.

use vstd::prelude::*;
use crate::pdf_viewer::{is_local_path, local_path};
use crate::text::{
    after_first, after_first_of, contains_str, extend_str, from_chars, has_sub, to_chars,
    until_stop, until_stop_of,
};

verus! {

/// The Drive preview URL of a file.
pub open spec fn preview_url(file_id: Seq<char>) -> Seq<char> {
    "https://drive.google.com/file/d/"@ + file_id + "/preview"@
}

/// The Drive preview URL of the file `file_id`.
pub fn build_drive_preview_url(file_id: &str) -> (r: String)
    ensures
        r@ == preview_url(file_id@),
{
    let mut v: Vec<char> = Vec::new();
    extend_str(&mut v, "https://drive.google.com/file/d/");
    extend_str(&mut v, file_id);
    extend_str(&mut v, "/preview");
    assert(v@ =~= preview_url(file_id@));
    from_chars(&v)
}

/// The spreadsheet id of a Sheets URL: what follows the first `/d/` up to
/// the first `/`, `?` or `#`, when that is not empty.
pub open spec fn spreadsheet_id_of(url: Seq<char>) -> Option<Seq<char>> {
    match after_first(url, "/d/"@) {
        Some(rest) => {
            let id = until_stop(rest, seq!['/', '?', '#']);
            if id.len() > 0 {
                Some(id)
            } else {
                None
            }
        },
        None => None,
    }
}

/// The spreadsheet id of a Google Sheets URL
/// (`.../spreadsheets/d/{ID}/...`).
pub fn extract_spreadsheet_id(url: &str) -> (r: Option<String>)
    ensures
        crate::regex_support::opt_string(r) == spreadsheet_id_of(url@),
{
    let u = to_chars(url);
    match after_first_of(&u, "/d/") {
        Some(rest) => {
            let mut stops: Vec<char> = Vec::new();
            stops.push('/');
            stops.push('?');
            stops.push('#');
            assert(stops@ =~= seq!['/', '?', '#']);
            let id = until_stop_of(&rest, &stops);
            if id.len() > 0 {
                Some(from_chars(&id))
            } else {
                None
            }
        },
        None => None,
    }
}

/// `c` is an ASCII digit.
pub open spec fn is_ascii_digit(c: char) -> bool {
    '0' <= c <= '9'
}

/// `s[i]` is the first character of `s` that is not an ASCII digit.
pub open spec fn first_non_digit_at(s: Seq<char>, i: int) -> bool {
    0 <= i < s.len() && !is_ascii_digit(s[i]) && forall|j: int| 0 <= j < i ==> is_ascii_digit(s[j])
}

/// The ASCII digits that `s` starts with.
pub open spec fn leading_digits(s: Seq<char>) -> Seq<char> {
    if exists|i: int| first_non_digit_at(s, i) {
        s.take(choose|i: int| first_non_digit_at(s, i))
    } else {
        s
    }
}

fn leading_digits_of(s: &Vec<char>) -> (r: Vec<char>)
    ensures
        r@ == leading_digits(s@),
{
    let mut r: Vec<char> = Vec::new();
    let mut i: usize = 0;
    while i < s.len()
        invariant
            i <= s.len(),
            r@ == s@.take(i as int),
            forall|j: int| 0 <= j < i ==> is_ascii_digit(s@[j]),
        decreases s.len() - i,
    {
        let c = s[i];
        if !('0' <= c && c <= '9') {
            proof {
                assert(first_non_digit_at(s@, i as int));
                let k = choose|k: int| first_non_digit_at(s@, k);
                assert(k == i) by {
                    if k < i {
                        assert(is_ascii_digit(s@[k]));
                    } else if k > i {
                        assert(is_ascii_digit(s@[i as int]));
                    }
                }
            }
            return r;
        }
        r.push(c);
        i = i + 1;
        assert(r@ =~= s@.take(i as int));
    }
    assert(!exists|k: int| first_non_digit_at(s@, k));
    assert(r@ =~= s@);
    r
}

/// The sheet id after the first occurrence of `prefix`, when digits follow.
pub open spec fn gid_after(url: Seq<char>, prefix: Seq<char>) -> Option<Seq<char>> {
    match after_first(url, prefix) {
        Some(rest) => if leading_digits(rest).len() > 0 {
            Some(leading_digits(rest))
        } else {
            None
        },
        None => None,
    }
}

/// The sheet id of a URL: the digits after `#gid=`, else after `?gid=`,
/// else after `&gid=`.
pub open spec fn gid_of(url: Seq<char>) -> Option<Seq<char>> {
    match gid_after(url, "#gid="@) {
        Some(g) => Some(g),
        None => match gid_after(url, "?gid="@) {
            Some(g) => Some(g),
            None => gid_after(url, "&gid="@),
        },
    }
}

fn gid_after_of(u: &Vec<char>, prefix: &str) -> (r: Option<String>)
    ensures
        crate::regex_support::opt_string(r) == gid_after(u@, prefix@),
{
    match after_first_of(u, prefix) {
        Some(rest) => {
            let g = leading_digits_of(&rest);
            if g.len() > 0 {
                Some(from_chars(&g))
            } else {
                None
            }
        },
        None => None,
    }
}

/// The `gid` (sheet id) parameter of a URL.
pub fn extract_gid(url: &str) -> (r: Option<String>)
    ensures
        crate::regex_support::opt_string(r) == gid_of(url@),
{
    let u = to_chars(url);
    match gid_after_of(&u, "#gid=") {
        Some(g) => Some(g),
        None => match gid_after_of(&u, "?gid=") {
            Some(g) => Some(g),
            None => gid_after_of(&u, "&gid="),
        },
    }
}

/// The spreadsheet id and sheet id of a Google Sheets URL.
pub fn extract_spreadsheet_info(url: &str) -> (r: Option<(String, Option<String>)>)
    ensures
        match r {
            Some((id, gid)) => spreadsheet_id_of(url@) == Some(id@)
                && crate::regex_support::opt_string(gid) == gid_of(url@),
            None => spreadsheet_id_of(url@) is None,
        },
{
    match extract_spreadsheet_id(url) {
        Some(id) => Some((id, extract_gid(url))),
        None => None,
    }
}

/// The Sheets embed URL of a spreadsheet, on sheet `gid` when given.
pub open spec fn embed_url(id: Seq<char>, gid: Option<Seq<char>>) -> Seq<char> {
    let base = "https://docs.google.com/spreadsheets/d/"@ + id + "/preview"@;
    match gid {
        Some(g) => base + "?gid="@ + g,
        None => base,
    }
}

/// The Google Sheets embed URL of `spreadsheet_id`, on sheet `gid` when
/// given.
pub fn build_sheets_embed_url(spreadsheet_id: &str, gid: Option<&str>) -> (r: String)
    ensures
        r@ == embed_url(
            spreadsheet_id@,
            match gid {
                Some(g) => Some(g@),
                None => None,
            },
        ),
{
    let mut v: Vec<char> = Vec::new();
    extend_str(&mut v, "https://docs.google.com/spreadsheets/d/");
    extend_str(&mut v, spreadsheet_id);
    extend_str(&mut v, "/preview");
    match gid {
        Some(g) => {
            extend_str(&mut v, "?gid=");
            extend_str(&mut v, g);
        },
        None => {},
    }
    assert(v@ =~= embed_url(
        spreadsheet_id@,
        match gid {
            Some(g) => Some(g@),
            None => None,
        },
    ));
    from_chars(&v)
}

/// The page the viewer embeds for `url`: nothing for a local path; for a
/// Sheets URL with an id, the Drive preview when it is an Excel file kept
/// in Sheets (`rtpof=true`), else the Sheets preview of its sheet; the URL
/// itself otherwise.
pub open spec fn viewer_embed_of(url: Seq<char>) -> Seq<char> {
    if local_path(url) {
        Seq::empty()
    } else if has_sub(url, "docs.google.com/spreadsheets"@) {
        match spreadsheet_id_of(url) {
            Some(id) => if has_sub(url, "rtpof=true"@) {
                preview_url(id)
            } else {
                embed_url(id, gid_of(url))
            },
            None => url,
        }
    } else {
        url
    }
}

/// The page the spreadsheet viewer embeds for `url`.
pub fn viewer_embed_url(url: &str) -> (r: String)
    ensures
        r@ == viewer_embed_of(url@),
{
    if is_local_path(url) {
        return String::new();
    }
    let u = to_chars(url);
    if contains_str(&u, "docs.google.com/spreadsheets") {
        match extract_spreadsheet_info(url) {
            Some((id, gid)) => {
                if contains_str(&u, "rtpof=true") {
                    build_drive_preview_url(id.as_str())
                } else {
                    match gid {
                        Some(g) => build_sheets_embed_url(id.as_str(), Some(g.as_str())),
                        None => build_sheets_embed_url(id.as_str(), None),
                    }
                }
            },
            None => url.to_owned(),
        }
    } else {
        url.to_owned()
    }
}

/// Whether the AI check can be offered: the URL names a spreadsheet and a
/// sheet service URL is set.
pub fn can_ai_check(url: &str, gas_url: &str) -> (b: bool)
    ensures
        b == (spreadsheet_id_of(url@) is Some && gas_url@.len() > 0),
{
    extract_spreadsheet_id(url).is_some() && to_chars(gas_url).len() > 0
}

/// The address of the AI check page for a spreadsheet, given its
/// URI-encoded parts: spreadsheet id, document type, contractor, sheet
/// service URL, contractor id, document key, project name, and sheet id if
/// any; Excel files kept in Sheets also pass the id as a file id.
pub open spec fn sheet_check_page_of(
    id: Seq<char>,
    doc_type: Seq<char>,
    contractor: Seq<char>,
    gas_url: Seq<char>,
    contractor_id: Seq<char>,
    doc_key: Seq<char>,
    project_name: Seq<char>,
    gid: Option<Seq<char>>,
    is_excel: bool,
) -> Seq<char> {
    "editor/index.html?mode=spreadsheet-check&spreadsheetId="@ + id + "&docType="@ + doc_type
        + "&contractor="@ + contractor + "&gasUrl="@ + gas_url + "&contractorId="@
        + contractor_id + "&docKey="@ + doc_key + "&projectName="@ + project_name + match gid {
        Some(g) => "&gid="@ + g,
        None => Seq::empty(),
    } + if is_excel {
        "&isExcel=true&fileId="@ + id
    } else {
        Seq::empty()
    }
}

/// The address of the AI check page for a spreadsheet.
pub fn sheet_check_page(
    id: &str,
    doc_type: &str,
    contractor: &str,
    gas_url: &str,
    contractor_id: &str,
    doc_key: &str,
    project_name: &str,
    gid: Option<&str>,
    is_excel: bool,
) -> (r: String)
    ensures
        r@ == sheet_check_page_of(
            id@,
            doc_type@,
            contractor@,
            gas_url@,
            contractor_id@,
            doc_key@,
            project_name@,
            crate::context_menu::opt_str(gid),
            is_excel,
        ),
{
    let mut out: Vec<char> = Vec::new();
    extend_str(&mut out, "editor/index.html?mode=spreadsheet-check&spreadsheetId=");
    extend_str(&mut out, id);
    extend_str(&mut out, "&docType=");
    extend_str(&mut out, doc_type);
    extend_str(&mut out, "&contractor=");
    extend_str(&mut out, contractor);
    extend_str(&mut out, "&gasUrl=");
    extend_str(&mut out, gas_url);
    extend_str(&mut out, "&contractorId=");
    extend_str(&mut out, contractor_id);
    extend_str(&mut out, "&docKey=");
    extend_str(&mut out, doc_key);
    extend_str(&mut out, "&projectName=");
    extend_str(&mut out, project_name);
    let ghost mid = out@;
    match gid {
        Some(g) => {
            extend_str(&mut out, "&gid=");
            extend_str(&mut out, g);
        },
        None => {},
    }
    let ghost mid2 = out@;
    if is_excel {
        extend_str(&mut out, "&isExcel=true&fileId=");
        extend_str(&mut out, id);
    }
    assert(out@ =~= sheet_check_page_of(
        id@,
        doc_type@,
        contractor@,
        gas_url@,
        contractor_id@,
        doc_key@,
        project_name@,
        crate::context_menu::opt_str(gid),
        is_excel,
    ));
    from_chars(&out)
}

} // verus!
