//! The decisions of the context menu's "adopt fixed version" action: which
//! file the menu acts on, what it asks the Apps Script service, how it
//! reads the reply, and how the project records the adopted file.

use vstd::prelude::*;
use crate::models::{file_type_of, Contractor, DocFileType, DocStatus, ProjectData};
use crate::regex_support::opt_string;
use crate::text::{
    after_first, after_first_of, ascii_lowercase, occurs_at, ends_with_str, extend_str, from_chars, has_suffix, lowercase,
    to_chars, to_lowercase, until_stop, until_stop_of,
};

verus! {

/// The file id of a Drive URL: what follows `/d/` up to the next `/`.
pub open spec fn menu_file_id_of(url: Seq<char>) -> Option<Seq<char>> {
    match after_first(url, "/d/"@) {
        Some(rest) => Some(until_stop(rest, seq!['/'])),
        None => None,
    }
}

/// The file id of a Google Drive URL (`.../file/d/{ID}/view`).
pub fn extract_file_id(url: &str) -> (r: Option<String>)
    ensures
        opt_string(r) == menu_file_id_of(url@),
{
    let u = to_chars(url);
    match after_first_of(&u, "/d/") {
        Some(rest) => {
            let mut stop: Vec<char> = Vec::new();
            stop.push('/');
            assert(stop@ =~= seq!['/']);
            Some(from_chars(&until_stop_of(&rest, &stop)))
        },
        None => None,
    }
}

/// The request for the latest version of a file, given the service URL
/// and the URI-encoded file id.
pub open spec fn latest_file_request_of(gas_url: Seq<char>, file_id: Seq<char>) -> Seq<char> {
    gas_url + "?action=getLatestFile&fileId="@ + file_id
}

/// The request URL that asks the service for the latest version of a file.
pub fn latest_file_request(gas_url: &str, encoded_file_id: &str) -> (r: String)
    ensures
        r@ == latest_file_request_of(gas_url@, encoded_file_id@),
{
    let mut out: Vec<char> = Vec::new();
    extend_str(&mut out, gas_url);
    extend_str(&mut out, "?action=getLatestFile&fileId=");
    extend_str(&mut out, encoded_file_id);
    from_chars(&out)
}

/// The request that records a new file for a document, given the service
/// URL and the URI-encoded contractor id, document key and file id.
pub open spec fn update_doc_request_of(
    gas_url: Seq<char>,
    contractor_id: Seq<char>,
    doc_key: Seq<char>,
    file_id: Seq<char>,
) -> Seq<char> {
    gas_url + "?action=updateDocUrl&contractorId="@ + contractor_id + "&docKey="@ + doc_key
        + "&newFileId="@ + file_id
}

/// The request URL that records the adopted file of a document.
pub fn update_doc_request(
    gas_url: &str,
    encoded_contractor_id: &str,
    encoded_doc_key: &str,
    encoded_file_id: &str,
) -> (r: String)
    ensures
        r@ == update_doc_request_of(
            gas_url@,
            encoded_contractor_id@,
            encoded_doc_key@,
            encoded_file_id@,
        ),
{
    let mut out: Vec<char> = Vec::new();
    extend_str(&mut out, gas_url);
    extend_str(&mut out, "?action=updateDocUrl&contractorId=");
    extend_str(&mut out, encoded_contractor_id);
    extend_str(&mut out, "&docKey=");
    extend_str(&mut out, encoded_doc_key);
    extend_str(&mut out, "&newFileId=");
    extend_str(&mut out, encoded_file_id);
    from_chars(&out)
}

/// What the service answered about the latest version of a file.
#[derive(Debug, Clone)]
pub struct LatestFileReply {
    pub error: Option<String>,
    pub is_fixed_version: bool,
    pub file_id: Option<String>,
    pub file_name: Option<String>,
}

pub const NO_FIXED_VERSION: &'static str = "修正版ファイルが見つかりません。\nダウンロードしたファイルをGoogle Driveの同じフォルダに保存してください。";

pub const NO_FILE_ID: &'static str = "新しいファイルIDが見つかりません";

pub const DEFAULT_FIXED_NAME: &'static str = "修正版ファイル";

/// The file to adopt according to a reply, as (id, name), or the message
/// of why none can be.
pub open spec fn adopted_file_of(r: LatestFileReply) -> Result<(Seq<char>, Seq<char>), Seq<char>> {
    match r.error {
        Some(e) => Err(e@),
        None => if !r.is_fixed_version {
            Err(NO_FIXED_VERSION@)
        } else {
            match r.file_id {
                Some(id) => Ok(
                    (
                        id@,
                        match r.file_name {
                            Some(n) => n@,
                            None => DEFAULT_FIXED_NAME@,
                        },
                    ),
                ),
                None => Err(NO_FILE_ID@),
            }
        },
    }
}

/// The file to adopt according to the service's reply: its id and name, or
/// the message shown when there is none.
pub fn adopted_file(reply: &LatestFileReply) -> (r: Result<(String, String), String>)
    ensures
        match r {
            Ok((id, name)) => adopted_file_of(*reply) == Ok::<(Seq<char>, Seq<char>), Seq<char>>(
                (id@, name@),
            ),
            Err(e) => adopted_file_of(*reply) == Err::<(Seq<char>, Seq<char>), Seq<char>>(e@),
        },
{
    if let Some(e) = &reply.error {
        return Err(e.clone());
    }
    if !reply.is_fixed_version {
        return Err(NO_FIXED_VERSION.to_owned());
    }
    match &reply.file_id {
        Some(id) => {
            let name = match &reply.file_name {
                Some(n) => n.clone(),
                None => DEFAULT_FIXED_NAME.to_owned(),
            };
            Ok((id.clone(), name))
        },
        None => Err(NO_FILE_ID.to_owned()),
    }
}

/// The URL recorded for an adopted file: a Drive view URL marked as xlsx
/// when the name ends in `.xlsx` or `.xls` (in any case), else a Sheets
/// edit URL.
pub open spec fn fixed_version_url_of(file_id: Seq<char>, file_name: Seq<char>) -> Seq<char> {
    let lower = lowercase(file_name);
    if has_suffix(lower, ".xlsx"@) || has_suffix(lower, ".xls"@) {
        "https://drive.google.com/file/d/"@ + file_id + "/view?usp=drivesdk&type=xlsx"@
    } else {
        "https://docs.google.com/spreadsheets/d/"@ + file_id + "/edit?usp=drivesdk"@
    }
}

/// A character of a Drive file id: an ASCII letter or digit, `_` or `-`.
pub open spec fn id_char(c: char) -> bool {
    ('a' <= c && c <= 'z') || ('A' <= c && c <= 'Z') || ('0' <= c && c <= '9') || c == '_' || c
        == '-'
}

/// A Drive file id: made of [`id_char`]s only.
pub open spec fn drive_id(s: Seq<char>) -> bool {
    forall|i: int| 0 <= i < s.len() ==> id_char(#[trigger] s[i])
}

proof fn lemma_lower_id(m: Seq<char>)
    requires
        drive_id(m),
    ensures
        crate::text::all_ascii(m),
        ascii_lowercase(m).len() == m.len(),
        forall|i: int|
            0 <= i < m.len() ==> {
                let c = #[trigger] ascii_lowercase(m)[i];
                c != '.' && c != '=' && c != '/' && c != '?' && c != '&'
            },
{
    assert forall|i: int| 0 <= i < m.len() implies {
        let c = #[trigger] ascii_lowercase(m)[i];
        c != '.' && c != '=' && c != '/' && c != '?' && c != '&'
    } by {
        let c = m[i];
        if 'A' <= c && c <= 'Z' {
            let d = ((c as u32) + 32) as char;
            assert(97 <= d as u32 <= 122);
        }
    }
    assert forall|i: int| 0 <= i < m.len() implies (#[trigger] m[i] as u32) < 128 by {
        assert(id_char(m[i]));
    }
}

proof fn lemma_chars_at(l: Seq<char>, p: Seq<char>, i: int)
    requires
        occurs_at(l, p, i),
    ensures
        forall|t: int| 0 <= t < p.len() ==> l[i + t] == #[trigger] p[t],
{
    assert forall|t: int| 0 <= t < p.len() implies l[i + t] == #[trigger] p[t] by {
        assert(l.subrange(i, i + p.len())[t] == p[t]);
    }
}

/// The Drive view URL of an adopted Excel file is classified as Excel.
proof fn lemma_excel_url_type(id: Seq<char>)
    requires
        drive_id(id),
    ensures
        ({
            let u = "https://drive.google.com/file/d/"@ + id + "/view?usp=drivesdk&type=xlsx"@;
            crate::text::all_ascii(u) && file_type_of(ascii_lowercase(u)) == DocFileType::Excel
        }),
{
    let a = "https://drive.google.com/file/d/"@;
    let b = "/view?usp=drivesdk&type=xlsx"@;
    reveal_strlit("https://drive.google.com/file/d/");
    reveal_strlit("/view?usp=drivesdk&type=xlsx");
    lemma_lower_id(id);
    let m = ascii_lowercase(id);
    let u = a + id + b;
    let l = a + m + b;
    assert(ascii_lowercase(u) =~= l);
    assert(crate::text::all_ascii(u)) by {
        assert forall|i: int| 0 <= i < u.len() implies (#[trigger] u[i] as u32) < 128 by {
            if a.len() <= i < a.len() + id.len() {
                assert(u[i] == id[i - a.len()]);
            }
        }
    }
    let n: int = (a.len() + m.len()) as int;
    let p1 = "docs.google.com/spreadsheets"@;
    let p2 = "docs.google.com/document"@;
    let p3 = "drive.google.com/file"@;
    let p4 = "mime=application/pdf"@;
    let p5 = "type=pdf"@;
    let p6 = "mime=application/vnd.openxmlformats"@;
    let p7 = "mime=application/vnd.ms-excel"@;
    let p8 = "type=xlsx"@;
    reveal_strlit("docs.google.com/spreadsheets");
    reveal_strlit("docs.google.com/document");
    reveal_strlit("drive.google.com/file");
    reveal_strlit("mime=application/pdf");
    reveal_strlit("type=pdf");
    reveal_strlit("mime=application/vnd.openxmlformats");
    reveal_strlit("mime=application/vnd.ms-excel");
    reveal_strlit("type=xlsx");
    assert(l.subrange(8, 29) =~= p3);
    assert(occurs_at(l, p3, 8));
    assert(l.subrange(n + 19, n + 28) =~= p8);
    assert(occurs_at(l, p8, n + 19));
    assert forall|i: int| !occurs_at(l, p1, i) && !occurs_at(l, p2, i) by {
        if occurs_at(l, p1, i) || occurs_at(l, p2, i) {
            if occurs_at(l, p1, i) {
                lemma_chars_at(l, p1, i);
                assert(l[i + 4] == p1[4] && l[i] == p1[0]);
            } else {
                lemma_chars_at(l, p2, i);
                assert(l[i + 4] == p2[4] && l[i] == p2[0]);
            }
            assert(l[i + 4] == '.' && l[i] == 'd');
            if i + 4 < a.len() {
                assert(a[i + 4] == '.');
            } else if i + 4 < n {
                assert(m[i + 4 - a.len()] == '.');
            } else {
                assert(b[i + 4 - n] == '.');
            }
        }
    }
    assert forall|i: int|
        !occurs_at(l, p4, i) && !occurs_at(l, p6, i) && !occurs_at(l, p7, i) by {
        if occurs_at(l, p4, i) || occurs_at(l, p6, i) || occurs_at(l, p7, i) {
            if occurs_at(l, p4, i) {
                lemma_chars_at(l, p4, i);
                assert(l[i + 4] == p4[4] && l[i] == p4[0]);
            } else if occurs_at(l, p6, i) {
                lemma_chars_at(l, p6, i);
                assert(l[i + 4] == p6[4] && l[i] == p6[0]);
            } else {
                lemma_chars_at(l, p7, i);
                assert(l[i + 4] == p7[4] && l[i] == p7[0]);
            }
            assert(l[i + 4] == '=' && l[i] == 'm');
            if i + 4 < a.len() {
                assert(a[i + 4] == '=');
            } else if i + 4 < n {
                assert(m[i + 4 - a.len()] == '=');
            } else {
                assert(b[i + 4 - n] == '=');
                assert(b[i - n] == 'm');
            }
        }
    }
    assert forall|i: int| !occurs_at(l, p5, i) by {
        if occurs_at(l, p5, i) {
            lemma_chars_at(l, p5, i);
            assert(l[i + 4] == p5[4] && l[i] == p5[0] && l[i + 5] == p5[5]);
            assert(l[i + 4] == '=' && l[i] == 't' && l[i + 5] == 'p');
            if i + 4 < a.len() {
                assert(a[i + 4] == '=');
            } else if i + 4 < n {
                assert(m[i + 4 - a.len()] == '=');
            } else {
                assert(b[i + 4 - n] == '=');
                assert(b[i - n] == 't');
                assert(b[i + 5 - n] == 'p');
            }
        }
    }
}

/// The Sheets edit URL of an adopted spreadsheet is classified as a Google
/// spreadsheet.
proof fn lemma_sheet_url_type(id: Seq<char>)
    requires
        drive_id(id),
    ensures
        ({
            let u = "https://docs.google.com/spreadsheets/d/"@ + id + "/edit?usp=drivesdk"@;
            crate::text::all_ascii(u) && file_type_of(ascii_lowercase(u))
                == DocFileType::GoogleSpreadsheet
        }),
{
    let a = "https://docs.google.com/spreadsheets/d/"@;
    let b = "/edit?usp=drivesdk"@;
    reveal_strlit("https://docs.google.com/spreadsheets/d/");
    reveal_strlit("/edit?usp=drivesdk");
    lemma_lower_id(id);
    let m = ascii_lowercase(id);
    let u = a + id + b;
    let l = a + m + b;
    assert(ascii_lowercase(u) =~= l);
    assert(crate::text::all_ascii(u)) by {
        assert forall|i: int| 0 <= i < u.len() implies (#[trigger] u[i] as u32) < 128 by {
            if a.len() <= i < a.len() + id.len() {
                assert(u[i] == id[i - a.len()]);
            }
        }
    }
    let n: int = (a.len() + m.len()) as int;
    let p1 = "docs.google.com/spreadsheets"@;
    let p2 = "rtpof=true"@;
    reveal_strlit("docs.google.com/spreadsheets");
    reveal_strlit("rtpof=true");
    assert(l.subrange(8, 36) =~= p1);
    assert(occurs_at(l, p1, 8));
    assert forall|i: int| !occurs_at(l, p2, i) by {
        if occurs_at(l, p2, i) {
            lemma_chars_at(l, p2, i);
            assert(l[i + 5] == p2[5] && l[i] == p2[0]);
            assert(l[i + 5] == '=' && l[i] == 'r');
            if i + 5 < a.len() {
                assert(a[i + 5] == '=');
            } else if i + 5 < n {
                assert(m[i + 5 - a.len()] == '=');
            } else {
                assert(b[i + 5 - n] == '=');
                assert(b[i - n] == 'r');
            }
        }
    }
}

/// An adopted file whose Drive id is made of ASCII letters, digits, `_` and
/// `-` is recorded under a URL that the file-type detection classifies as
/// Excel when the name ends in `.xlsx` or `.xls` (in any case), else as a
/// Google spreadsheet; the URL is ASCII, so the detection lowercases it
/// letter by letter.
pub proof fn lemma_adopted_url_type(file_id: Seq<char>, file_name: Seq<char>)
    requires
        drive_id(file_id),
    ensures
        crate::text::all_ascii(fixed_version_url_of(file_id, file_name)),
        file_type_of(ascii_lowercase(fixed_version_url_of(file_id, file_name))) == if has_suffix(
            lowercase(file_name),
            ".xlsx"@,
        ) || has_suffix(lowercase(file_name), ".xls"@) {
            DocFileType::Excel
        } else {
            DocFileType::GoogleSpreadsheet
        },
{
    lemma_excel_url_type(file_id);
    lemma_sheet_url_type(file_id);
}

/// The URL under which an adopted file is recorded.
pub fn fixed_version_url(file_id: &str, file_name: &str) -> (r: String)
    ensures
        r@ == fixed_version_url_of(file_id@, file_name@),
{
    let lower = to_lowercase(file_name);
    let lc = to_chars(lower.as_str());
    let is_excel = ends_with_str(&lc, ".xlsx") || ends_with_str(&lc, ".xls");
    let mut out: Vec<char> = Vec::new();
    if is_excel {
        extend_str(&mut out, "https://drive.google.com/file/d/");
        extend_str(&mut out, file_id);
        extend_str(&mut out, "/view?usp=drivesdk&type=xlsx");
    } else {
        extend_str(&mut out, "https://docs.google.com/spreadsheets/d/");
        extend_str(&mut out, file_id);
        extend_str(&mut out, "/edit?usp=drivesdk");
    }
    from_chars(&out)
}

/// `c` is the first contractor of `cs` with id `id`.
pub open spec fn first_contractor_at(cs: Seq<Contractor>, id: Seq<char>, i: int) -> bool {
    0 <= i < cs.len() && cs[i].id@ == id && forall|j: int| 0 <= j < i ==> cs[j].id@ != id
}

/// `k` is the first document of `docs` with key `key`.
pub open spec fn first_doc_at(docs: Seq<(String, DocStatus)>, key: Seq<char>, k: int) -> bool {
    0 <= k < docs.len() && docs[k].0@ == key && forall|j: int| 0 <= j < k ==> docs[j].0@ != key
}

/// Records `new_url` as the URL of document `doc_key` of the first
/// contractor with id `contractor_id`; nothing else changes, and nothing at
/// all when there is no such contractor or it has no such document.
pub fn set_doc_url(project: &mut ProjectData, contractor_id: &str, doc_key: &str, new_url: &str)
    requires
        old(project).well_formed(),
    ensures
        final(project).well_formed(),
        final(project).same_but_contractors(*old(project)),
        final(project).contractors@.len() == old(project).contractors@.len(),
        forall|i: int|
            0 <= i < old(project).contractors@.len() && !first_contractor_at(
                old(project).contractors@,
                contractor_id@,
                i,
            ) ==> final(project).contractors@[i] == old(project).contractors@[i],
        forall|i: int|
            #![trigger first_contractor_at(old(project).contractors@, contractor_id@, i)]
            first_contractor_at(old(project).contractors@, contractor_id@, i) ==> {
                let c0 = old(project).contractors@[i];
                let c1 = final(project).contractors@[i];
                &&& c1.id == c0.id
                &&& c1.name == c0.name
                &&& c1.role == c0.role
                &&& c1.docs@.len() == c0.docs@.len()
                &&& forall|k: int|
                    0 <= k < c0.docs@.len() && !first_doc_at(c0.docs@, doc_key@, k)
                        ==> c1.docs@[k] == c0.docs@[k]
                &&& forall|k: int|
                    #![trigger first_doc_at(c0.docs@, doc_key@, k)]
                    first_doc_at(c0.docs@, doc_key@, k) ==> {
                        let e0 = c0.docs@[k];
                        let e1 = c1.docs@[k];
                        &&& e1.0 == e0.0
                        &&& opt_string(e1.1.url) == Some(new_url@)
                        &&& e1.1.status == e0.1.status
                        &&& e1.1.file == e0.1.file
                        &&& e1.1.note == e0.1.note
                        &&& e1.1.valid_from == e0.1.valid_from
                        &&& e1.1.valid_until == e0.1.valid_until
                        &&& e1.1.check_result == e0.1.check_result
                        &&& e1.1.last_checked == e0.1.last_checked
                    }
            },
{
    let ghost old_cs = project.contractors@;
    match find_contractor(&project.contractors, contractor_id) {
        Some(i) => {
            let mut c = project.contractors.remove(i);
            let ghost old_docs = c.docs@;
            match find_doc(&c.docs, doc_key) {
                Some(k) => {
                    let mut e = c.docs.remove(k);
                    e.1.url = Some(new_url.to_owned());
                    c.docs.insert(k, e);
                    assert(c.docs@ =~= old_docs.update(k as int, e));
                },
                None => {},
            }
            project.contractors.insert(i, c);
            assert(project.contractors@ =~= old_cs.update(i as int, c));
        },
        None => {},
    }
}

/// The first contractor with id `id`.
pub(crate) fn find_contractor(cs: &Vec<Contractor>, id: &str) -> (r: Option<usize>)
    ensures
        match r {
            Some(i) => first_contractor_at(cs@, id@, i as int) && forall|j: int|
                #![trigger first_contractor_at(cs@, id@, j)]
                first_contractor_at(cs@, id@, j) ==> j == i,
            None => forall|j: int| 0 <= j < cs@.len() ==> !first_contractor_at(cs@, id@, j),
        },
{
    let target = to_chars(id);
    let mut i: usize = 0;
    while i < cs.len()
        invariant
            i <= cs@.len(),
            target@ == id@,
            forall|j: int| 0 <= j < i ==> cs@[j].id@ != id@,
        decreases cs.len() - i,
    {
        if crate::text::chars_eq(&to_chars(cs[i].id.as_str()), &target) {
            assert forall|j: int| #![trigger first_contractor_at(cs@, id@, j)]
                first_contractor_at(cs@, id@, j) implies j == i by {
                if j < i {
                    assert(cs@[j].id@ != id@);
                } else if j > i {
                    assert(cs@[i as int].id@ == id@);
                }
            }
            return Some(i);
        }
        i = i + 1;
    }
    None
}

/// The first document with key `key`.
pub(crate) fn find_doc(docs: &Vec<(String, DocStatus)>, key: &str) -> (r: Option<usize>)
    ensures
        match r {
            Some(k) => first_doc_at(docs@, key@, k as int) && forall|j: int|
                #![trigger first_doc_at(docs@, key@, j)]
                first_doc_at(docs@, key@, j) ==> j == k,
            None => forall|j: int| 0 <= j < docs@.len() ==> !first_doc_at(docs@, key@, j),
        },
{
    let target = to_chars(key);
    let mut k: usize = 0;
    while k < docs.len()
        invariant
            k <= docs@.len(),
            target@ == key@,
            forall|j: int| 0 <= j < k ==> docs@[j].0@ != key@,
        decreases docs.len() - k,
    {
        if crate::text::chars_eq(&to_chars(docs[k].0.as_str()), &target) {
            assert forall|j: int| #![trigger first_doc_at(docs@, key@, j)]
                first_doc_at(docs@, key@, j) implies j == k by {
                if j < k {
                    assert(docs@[j].0@ != key@);
                } else if j > k {
                    assert(docs@[k as int].0@ == key@);
                }
            }
            return Some(k);
        }
        k = k + 1;
    }
    None
}

// ---------------------------------------------------------------------------
// Placement and items of the menu
// ---------------------------------------------------------------------------

/// One coordinate of a box of size `size` opened at `pos` in a viewport of
/// extent `view`: moved back by its size (but not below 0) when it would
/// overflow.
pub open spec fn fitted(pos: int, size: int, view: int) -> int {
    if pos + size > view {
        if pos - size > 0 {
            pos - size
        } else {
            0
        }
    } else {
        pos
    }
}

/// One coordinate of a box, fitted into the viewport.
pub fn fit_coordinate(pos: i32, size: i32, view: i32) -> (r: i32)
    requires
        i32::MIN <= pos + size <= i32::MAX,
        i32::MIN <= pos - size <= i32::MAX,
    ensures
        r == fitted(pos as int, size as int, view as int),
{
    if pos + size > view {
        let back = pos - size;
        if back > 0 {
            back
        } else {
            0
        }
    } else {
        pos
    }
}

pub const MENU_WIDTH: i32 = 200;

pub const MENU_HEIGHT: i32 = 150;

/// Where the menu opened at `(x, y)` is drawn in a viewport of `vw` by `vh`.
pub fn menu_position(x: i32, y: i32, vw: i32, vh: i32) -> (r: (i32, i32))
    requires
        i32::MIN + MENU_WIDTH <= x <= i32::MAX - MENU_WIDTH,
        i32::MIN + MENU_HEIGHT <= y <= i32::MAX - MENU_HEIGHT,
    ensures
        r.0 == fitted(x as int, MENU_WIDTH as int, vw as int),
        r.1 == fitted(y as int, MENU_HEIGHT as int, vh as int),
{
    (fit_coordinate(x, MENU_WIDTH, vw), fit_coordinate(y, MENU_HEIGHT, vh))
}

/// Whether a check is shown and one of its results concerns contractor
/// `name`.
pub open spec fn has_check_result_of(
    mode: crate::dashboard::CheckMode,
    results: Seq<crate::dashboard::CheckView>,
    name: Seq<char>,
) -> bool {
    mode != crate::dashboard::CheckMode::Inactive && exists|i: int|
        0 <= i < results.len() && (#[trigger] results[i]).contractor_name == name
}

/// Whether the menu offers to show a check result for contractor `name`.
pub fn has_check_result(
    mode: crate::dashboard::CheckMode,
    results: &Vec<crate::dashboard::CheckResult>,
    name: &str,
) -> (b: bool)
    ensures
        b == has_check_result_of(mode, crate::dashboard::check_views(results@), name@),
{
    if mode == crate::dashboard::CheckMode::Inactive {
        return false;
    }
    let target = to_chars(name);
    let ghost v = crate::dashboard::check_views(results@);
    let mut i: usize = 0;
    while i < results.len()
        invariant
            i <= results@.len(),
            target@ == name@,
            mode != crate::dashboard::CheckMode::Inactive,
            v == crate::dashboard::check_views(results@),
            forall|j: int| 0 <= j < i ==> v[j].contractor_name != name@,
        decreases results.len() - i,
    {
        if crate::text::chars_eq(&to_chars(results[i].contractor_name.as_str()), &target) {
            assert(v[i as int].contractor_name == name@);
            return true;
        }
        i = i + 1;
    }
    false
}

/// The characters of an optional string slice.
pub open spec fn opt_str(o: Option<&str>) -> Option<Seq<char>> {
    match o {
        Some(s) => Some(s@),
        None => None,
    }
}

/// The items the menu shows.
#[derive(Debug, Clone, Copy, PartialEq, Eq, Structural)]
pub struct MenuItems {
    /// "Show check result".
    pub show_check_result: bool,
    /// "Open" the document.
    pub open: bool,
    /// "AI auto-fix", for spreadsheets.
    pub auto_fix: bool,
    /// "Adopt fixed version".
    pub adopt_fixed_version: bool,
}

/// The items of the menu for a document with URL `url`.
pub open spec fn menu_items_of(url: Option<Seq<char>>, has_check_result: bool) -> MenuItems {
    MenuItems {
        show_check_result: has_check_result,
        open: url is Some,
        auto_fix: match url {
            Some(u) => {
                let t = crate::models::file_type_of(lowercase(u));
                t == crate::models::DocFileType::GoogleSpreadsheet || t
                    == crate::models::DocFileType::Excel
            },
            None => false,
        },
        adopt_fixed_version: url is Some,
    }
}

/// The items of the menu for a document with URL `url`.
pub fn menu_items(url: Option<&str>, has_check_result: bool) -> (r: MenuItems)
    ensures
        r == menu_items_of(opt_str(url), has_check_result),
{
    let auto_fix = match url {
        Some(u) => {
            let t = crate::models::detect_file_type(u);
            t == crate::models::DocFileType::GoogleSpreadsheet || t
                == crate::models::DocFileType::Excel
        },
        None => false,
    };
    let has_url = match url {
        Some(_) => true,
        None => false,
    };
    let r = MenuItems {
        show_check_result: has_check_result,
        open: has_url,
        auto_fix,
        adopt_fixed_version: has_url,
    };
    r
}

} // verus!
