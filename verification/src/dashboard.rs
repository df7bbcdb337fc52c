//! The dashboard's checks of a project's documents (are they submitted,
//! are they still valid), its form-field types, and the small text rules it
//! applies to keys, URLs, dates and stored values.

use vstd::prelude::*;
use crate::models::{Contractor, DocStatus, ProjectData};
use crate::context_menu::{find_contractor, find_doc, first_contractor_at, first_doc_at};
use crate::regex_support::opt_string;
use crate::text::{
    after_first, after_first_of, extend_str, from_chars, has_prefix, int_text_value,
    parse_int_in, push_signed_padded, signed_padded, starts_with_str, tdiv, to_chars, trem,
    trunc_div, until_stop, until_stop_of, utf8_len, byte_len, is_digit,
};

verus! {

// ============================================
// Check results
// ============================================

/// Which check the dashboard shows (`Inactive`: none).
#[derive(Debug, Clone, Copy, PartialEq, Eq, Structural)]
pub enum CheckMode {
    Inactive,
    Existence,
    Date,
}

/// The outcome of a check of one document (`Passed`: no finding).
#[derive(Debug, Clone, Copy, PartialEq, Eq, Structural)]
pub enum CheckStatus {
    Passed,
    Warning,
    Error,
}

/// The result of a check of one document of a contractor.
#[derive(Debug, Clone)]
pub struct CheckResult {
    pub contractor_name: String,
    pub doc_name: String,
    pub status: CheckStatus,
    pub message: String,
}

/// The mathematical content of a [`CheckResult`].
#[verifier::ext_equal]
pub struct CheckView {
    pub contractor_name: Seq<char>,
    pub doc_name: Seq<char>,
    pub status: CheckStatus,
    pub message: Seq<char>,
}

impl View for CheckResult {
    type V = CheckView;

    open spec fn view(&self) -> CheckView {
        CheckView {
            contractor_name: self.contractor_name@,
            doc_name: self.doc_name@,
            status: self.status,
            message: self.message@,
        }
    }
}

/// The views of a sequence of check results.
pub open spec fn check_views(v: Seq<CheckResult>) -> Seq<CheckView> {
    v.map_values(|r: CheckResult| r@)
}

/// A contract of the project.
#[derive(Debug, Clone)]
pub struct Contract {
    pub id: String,
    pub name: String,
    pub contractor: Option<String>,
    pub url: Option<String>,
}

// ============================================
// Form fields
// ============================================

/// The kind of an input field.
#[derive(Clone, Copy, Debug, PartialEq, Eq, Structural)]
pub enum FieldType {
    Date,
    Text,
    Signature,
    Select,
    Checkbox,
}

impl FieldType {
    /// The HTML input type of a field of this kind.
    pub fn input_type(&self) -> (r: &'static str)
        ensures
            r@ == match *self {
                FieldType::Date => "date"@,
                FieldType::Checkbox => "checkbox"@,
                _ => "text"@,
            },
    {
        match self {
            FieldType::Date => "date",
            FieldType::Text => "text",
            FieldType::Signature => "text",
            FieldType::Select => "text",
            FieldType::Checkbox => "checkbox",
        }
    }

    /// The placeholder text of a field of this kind.
    pub fn placeholder(&self) -> (r: &'static str)
        ensures
            r@ == match *self {
                FieldType::Date => "YYYY-MM-DD"@,
                FieldType::Text => "入力してください"@,
                FieldType::Signature => "署名"@,
                FieldType::Select => "選択してください"@,
                FieldType::Checkbox => ""@,
            },
    {
        match self {
            FieldType::Date => "YYYY-MM-DD",
            FieldType::Text => "入力してください",
            FieldType::Signature => "署名",
            FieldType::Select => "選択してください",
            FieldType::Checkbox => "",
        }
    }
}

/// The text that OCR read from a document.
#[derive(Clone, Debug)]
pub struct OcrResult {
    pub text: String,
    pub pages: Vec<OcrPage>,
}

/// The text of one page.
#[derive(Clone, Debug)]
pub struct OcrPage {
    pub page_number: u32,
    pub text: String,
}

impl Default for OcrResult {
    fn default() -> (r: Self)
        ensures
            r.text@ == Seq::<char>::empty(),
            r.pages@.len() == 0,
    {
        OcrResult { text: String::new(), pages: Vec::new() }
    }
}

// ============================================
// Stored API key
// ============================================

/// A stored API key looks valid: it starts with `AIza` and has at least 39
/// bytes.
pub open spec fn api_key_valid(key: Seq<char>) -> bool {
    has_prefix(key, "AIza"@) && utf8_len(key) >= 39
}

/// Whether an API key is stored and looks valid.
pub fn check_api_key_exists(stored: Option<&str>) -> (b: bool)
    ensures
        b == match stored {
            Some(k) => api_key_valid(k@),
            None => false,
        },
{
    match stored {
        Some(key) => {
            let cs = to_chars(key);
            starts_with_str(&cs, "AIza") && byte_len(&cs) >= 39
        },
        None => false,
    }
}

// ============================================
// File ids in Drive URLs
// ============================================

/// The file id of a Drive URL: what follows `/d/` up to the next `/`, or
/// else what follows `id=` up to the next `&`.
pub open spec fn file_id_of(url: Seq<char>) -> Option<Seq<char>> {
    match after_first(url, "/d/"@) {
        Some(rest) => Some(until_stop(rest, seq!['/'])),
        None => match after_first(url, "id="@) {
            Some(rest) => Some(until_stop(rest, seq!['&'])),
            None => None,
        },
    }
}

/// The file id of a Google Drive or Docs URL (`.../d/{ID}/...` or
/// `...?id={ID}&...`).
pub fn extract_file_id(url: &str) -> (r: Option<String>)
    ensures
        opt_string(r) == file_id_of(url@),
{
    let u = to_chars(url);
    match after_first_of(&u, "/d/") {
        Some(rest) => {
            let mut stop: Vec<char> = Vec::new();
            stop.push('/');
            assert(stop@ =~= seq!['/']);
            Some(from_chars(&until_stop_of(&rest, &stop)))
        },
        None => match after_first_of(&u, "id=") {
            Some(rest) => {
                let mut stop: Vec<char> = Vec::new();
                stop.push('&');
                assert(stop@ =~= seq!['&']);
                Some(from_chars(&until_stop_of(&rest, &stop)))
            },
            None => None,
        },
    }
}

/// The address of the PDF editor page for the document at `original_url`:
/// with its file id and the (URI-encoded) Apps Script URL when both are
/// known, else the bare editor page.
pub open spec fn pdf_editor_page_of(original_url: Seq<char>, encoded_gas_url: Option<Seq<char>>) -> Seq<
    char,
> {
    match (encoded_gas_url, file_id_of(original_url)) {
        (Some(gas), Some(fid)) => "editor/index.html?fileId="@ + fid + "&gasUrl="@ + gas,
        _ => "editor/index.html"@,
    }
}

/// The PDF editor page for a document; `encoded_gas_url` is the Apps
/// Script URL already URI-encoded, when one is set.
pub fn pdf_editor_page(original_url: &str, encoded_gas_url: Option<&str>) -> (r: String)
    ensures
        r@ == pdf_editor_page_of(
            original_url@,
            match encoded_gas_url {
                Some(g) => Some(g@),
                None => None,
            },
        ),
{
    match (encoded_gas_url, extract_file_id(original_url)) {
        (Some(gas), Some(fid)) => {
            let mut out: Vec<char> = Vec::new();
            extend_str(&mut out, "editor/index.html?fileId=");
            extend_str(&mut out, fid.as_str());
            extend_str(&mut out, "&gasUrl=");
            extend_str(&mut out, gas);
            from_chars(&out)
        },
        _ => "editor/index.html".to_string(),
    }
}

/// The address of the AI check page for a document: its Drive file id and
/// the URI-encoded document type, contractor, Apps Script URL, document key
/// and contractor id.
pub open spec fn ai_check_page_of(
    file_id: Seq<char>,
    doc_type: Seq<char>,
    contractor: Seq<char>,
    gas_url: Seq<char>,
    doc_key: Seq<char>,
    contractor_id: Seq<char>,
) -> Seq<char> {
    "editor/index.html?mode=check&fileId="@ + file_id + "&docType="@ + doc_type + "&contractor="@
        + contractor + "&gasUrl="@ + gas_url + "&docKey="@ + doc_key + "&contractorId="@
        + contractor_id
}

/// The AI check page of a document; all arguments but the file id are
/// already URI-encoded (the Apps Script URL is empty when none is set).
pub fn ai_check_page(
    file_id: &str,
    doc_type: &str,
    contractor: &str,
    gas_url: &str,
    doc_key: &str,
    contractor_id: &str,
) -> (r: String)
    ensures
        r@ == ai_check_page_of(file_id@, doc_type@, contractor@, gas_url@, doc_key@, contractor_id@),
{
    let mut out: Vec<char> = Vec::new();
    extend_str(&mut out, "editor/index.html?mode=check&fileId=");
    extend_str(&mut out, file_id);
    extend_str(&mut out, "&docType=");
    extend_str(&mut out, doc_type);
    extend_str(&mut out, "&contractor=");
    extend_str(&mut out, contractor);
    extend_str(&mut out, "&gasUrl=");
    extend_str(&mut out, gas_url);
    extend_str(&mut out, "&docKey=");
    extend_str(&mut out, doc_key);
    extend_str(&mut out, "&contractorId=");
    extend_str(&mut out, contractor_id);
    from_chars(&out)
}

/// Where a message of type `t` from the editor page leads: `back` returns
/// to the dashboard; other messages are ignored.
pub fn editor_message(t: &str) -> (r: Option<crate::models::ViewMode>)
    ensures
        r == if t@ == "back"@ {
            Some(crate::models::ViewMode::Dashboard)
        } else {
            None::<crate::models::ViewMode>
        },
{
    if crate::text::chars_eq(&to_chars(t), &to_chars("back")) {
        Some(crate::models::ViewMode::Dashboard)
    } else {
        None
    }
}

// ============================================
// Project data in the page address
// ============================================

/// The part of the address's fragment after `#data=`, when it starts so.
pub open spec fn hash_payload_of(hash: Seq<char>) -> Option<Seq<char>> {
    if has_prefix(hash, "#data="@) {
        Some(hash.subrange(6, hash.len() as int))
    } else {
        None
    }
}

/// The JSON text that the fragment `#data=...` of the page address carries
/// in base64; `None` for another fragment or a payload that does not
/// decode to UTF-8 text.
pub fn hash_data_text(hash: &str) -> (r: Option<String>)
    ensures
        opt_string(r) == match hash_payload_of(hash@) {
            Some(p) => crate::encoding::decoded_text(p),
            None => None,
        },
{
    let h = to_chars(hash);
    proof {
        reveal_strlit("#data=");
    }
    if starts_with_str(&h, "#data=") {
        let rest = crate::text::sub_chars(&h, 6, h.len());
        let payload = from_chars(&rest);
        crate::encoding::decode_base64(payload.as_str())
    } else {
        None
    }
}

// ============================================
// Saving to the Apps Script
// ============================================

/// What a save to the Apps Script yields, from the reply's HTTP success and
/// status and its `error` and `timestamp` fields: an `APIエラー` for a
/// failed request, the reported error, or the time stamp (`保存完了` when
/// none is given).
pub fn sync_outcome(ok: bool, status: u16, error: Option<String>, timestamp: Option<String>) -> (r: Result<
    String,
    String,
>)
    ensures
        !ok ==> (r matches Err(e) && e@ == "APIエラー: "@ + crate::text::decimal(status as nat)),
        ok ==> match error {
            Some(e) => r == Err::<String, String>(e),
            None => r matches Ok(t) && t@ == match timestamp {
                Some(ts) => ts@,
                None => "保存完了"@,
            },
        },
{
    if !ok {
        let mut m: Vec<char> = Vec::new();
        extend_str(&mut m, "APIエラー: ");
        crate::text::push_decimal(&mut m, status as u128);
        return Err(from_chars(&m));
    }
    match error {
        Some(e) => Err(e),
        None => match timestamp {
            Some(t) => Ok(t),
            None => Ok("保存完了".to_string()),
        },
    }
}

// ============================================
// Document labels
// ============================================

/// Whether `char::is_numeric` holds of `c` (the Unicode general categories
/// Nd, Nl and No).
pub uninterp spec fn numeric(c: char) -> bool;

/// `char::is_numeric`: named by [`numeric`]; its documentation counts the
/// ASCII digits as numeric, and that much is stated.
#[verifier::external_body]
fn is_numeric(c: char) -> (b: bool)
    ensures
        b == numeric(c),
        is_digit(c) ==> b,
{
    c.is_numeric()
}

/// `s` with every `_` replaced by a space.
pub open spec fn underscores_to_spaces(s: Seq<char>) -> Seq<char> {
    s.map_values(|c: char| if c == '_' { ' ' } else { c })
}

/// `s[i]` is the first character of `s` that is not numeric.
pub open spec fn first_non_numeric_at(s: Seq<char>, i: int) -> bool {
    0 <= i < s.len() && !numeric(s[i]) && forall|j: int| 0 <= j < i ==> numeric(s[j])
}

/// `s` without its leading numeric characters.
pub open spec fn skip_numeric(s: Seq<char>) -> Seq<char> {
    if exists|i: int| first_non_numeric_at(s, i) {
        s.skip(choose|i: int| first_non_numeric_at(s, i))
    } else {
        Seq::empty()
    }
}

/// `s[i]` is the first character of `s` that is not `_`.
pub open spec fn first_non_underscore_at(s: Seq<char>, i: int) -> bool {
    0 <= i < s.len() && s[i] != '_' && forall|j: int| 0 <= j < i ==> s[j] == '_'
}

/// `s` without its leading underscores (`trim_start_matches('_')`).
pub open spec fn trim_underscores(s: Seq<char>) -> Seq<char> {
    if exists|i: int| first_non_underscore_at(s, i) {
        s.skip(choose|i: int| first_non_underscore_at(s, i))
    } else {
        Seq::empty()
    }
}

/// The label of a document key: underscores become spaces, a leading
/// number (such as an ordering prefix) is dropped.
pub open spec fn doc_label_of(key: Seq<char>) -> Seq<char> {
    trim_underscores(skip_numeric(underscores_to_spaces(key)))
}

/// The label of a document key, as the checks show it.
pub fn doc_label(key: &str) -> (r: String)
    ensures
        r@ == doc_label_of(key@),
{
    let k = to_chars(key);
    let mut spaced: Vec<char> = Vec::new();
    let mut i: usize = 0;
    while i < k.len()
        invariant
            i <= k.len(),
            spaced@ == underscores_to_spaces(k@.take(i as int)),
        decreases k.len() - i,
    {
        let c = k[i];
        spaced.push(if c == '_' { ' ' } else { c });
        i = i + 1;
        assert(spaced@ =~= underscores_to_spaces(k@.take(i as int)));
    }
    assert(k@.take(k.len() as int) =~= k@);
    let ghost sp = spaced@;
    let mut a: usize = 0;
    while a < spaced.len() && is_numeric(spaced[a])
        invariant
            a <= spaced.len(),
            spaced@ == sp,
            forall|j: int| 0 <= j < a ==> numeric(sp[j]),
        decreases spaced.len() - a,
    {
        a = a + 1;
    }
    let ghost skipped = sp.skip(a as int);
    proof {
        if a < spaced.len() {
            assert(first_non_numeric_at(sp, a as int));
            let k2 = choose|k2: int| first_non_numeric_at(sp, k2);
            assert(k2 == a) by {
                if k2 < a {
                    assert(numeric(sp[k2]));
                } else if k2 > a {
                    assert(!numeric(sp[a as int]));
                }
            }
        } else {
            assert(!exists|k2: int| first_non_numeric_at(sp, k2));
            assert(skipped =~= Seq::<char>::empty());
        }
        assert(skipped == skip_numeric(sp));
    }
    let mut b: usize = a;
    while b < spaced.len() && spaced[b] == '_'
        invariant
            a <= b <= spaced.len(),
            spaced@ == sp,
            skipped == sp.skip(a as int),
            forall|j: int| a <= j < b ==> sp[j] == '_',
        decreases spaced.len() - b,
    {
        b = b + 1;
    }
    proof {
        if b < spaced.len() {
            assert(first_non_underscore_at(skipped, b - a));
            let k3 = choose|k3: int| first_non_underscore_at(skipped, k3);
            assert(k3 == b - a) by {
                if k3 < b - a {
                    assert(skipped[k3] == '_');
                } else if k3 > b - a {
                    assert(skipped[b - a] != '_');
                }
            }
            assert(sp.skip(b as int) =~= skipped.skip(b - a));
        } else {
            assert(!exists|k3: int| first_non_underscore_at(skipped, k3)) by {
                if exists|k3: int| first_non_underscore_at(skipped, k3) {
                    let k3 = choose|k3: int| first_non_underscore_at(skipped, k3);
                    assert(skipped[k3] == sp[a + k3]);
                }
            }
            assert(sp.skip(b as int) =~= Seq::<char>::empty());
        }
    }
    let mut out: Vec<char> = Vec::new();
    let mut j: usize = b;
    while j < spaced.len()
        invariant
            b <= j <= spaced.len(),
            spaced@ == sp,
            out@ == sp.subrange(b as int, j as int),
        decreases spaced.len() - j,
    {
        out.push(spaced[j]);
        j = j + 1;
        assert(out@ =~= sp.subrange(b as int, j as int));
    }
    assert(out@ =~= sp.skip(b as int));
    from_chars(&out)
}

// ============================================
// Dates
// ============================================

/// `a` comes before `b` in lexicographic order of characters, which is the
/// order of `str` (UTF-8 keeps the order of code points).
pub open spec fn text_less(a: Seq<char>, b: Seq<char>) -> bool
    decreases a.len(),
{
    if a.len() == 0 {
        b.len() > 0
    } else if b.len() == 0 {
        false
    } else if a[0] != b[0] {
        (a[0] as u32) < (b[0] as u32)
    } else {
        text_less(a.drop_first(), b.drop_first())
    }
}

/// No text comes before itself.
pub proof fn lemma_text_less_irreflexive(a: Seq<char>)
    ensures
        !text_less(a, a),
    decreases a.len(),
{
    if a.len() > 0 {
        lemma_text_less_irreflexive(a.drop_first());
    }
}

/// The order of texts is transitive.
pub proof fn lemma_text_less_transitive(a: Seq<char>, b: Seq<char>, c: Seq<char>)
    requires
        text_less(a, b),
        text_less(b, c),
    ensures
        text_less(a, c),
    decreases a.len(),
{
    if a.len() > 0 && b.len() > 0 && c.len() > 0 && a[0] == b[0] && b[0] == c[0] {
        lemma_text_less_transitive(a.drop_first(), b.drop_first(), c.drop_first());
    }
}

/// Of two different texts, one comes before the other.
pub proof fn lemma_text_less_total(a: Seq<char>, b: Seq<char>)
    ensures
        text_less(a, b) || text_less(b, a) || a == b,
    decreases a.len(),
{
    if a.len() == 0 && b.len() == 0 {
        assert(a =~= b);
    } else if a.len() > 0 && b.len() > 0 && a[0] != b[0] {
        vstd::utf8::char_u32_cast(a[0], a[0] as u32);
        vstd::utf8::char_u32_cast(b[0], b[0] as u32);
        assert((a[0] as u32) != (b[0] as u32));
    } else if a.len() > 0 && b.len() > 0 && a[0] == b[0] {
        lemma_text_less_total(a.drop_first(), b.drop_first());
        let a1 = a.drop_first();
        let b1 = b.drop_first();
        assert(a1.len() == a.len() - 1);
        assert(b1.len() == b.len() - 1);
        if a1 == b1 {
            assert(a.len() == b.len());
            assert(a =~= b) by {
                assert forall|i: int| 0 <= i < a.len() implies a[i] == b[i] by {
                    if i > 0 {
                        assert(a[i] == a.drop_first()[i - 1]);
                        assert(b[i] == b.drop_first()[i - 1]);
                    }
                }
            }
        }
    }
}

/// Whether `a` comes before `b` (`<` on `str`).
pub fn str_less(a: &Vec<char>, b: &Vec<char>) -> (r: bool)
    ensures
        r == text_less(a@, b@),
{
    let mut i: usize = 0;
    assert(a@.skip(0) =~= a@);
    assert(b@.skip(0) =~= b@);
    while i < a.len() && i < b.len() && a[i] == b[i]
        invariant
            i <= a.len(),
            i <= b.len(),
            text_less(a@, b@) == text_less(a@.skip(i as int), b@.skip(i as int)),
        decreases a.len() - i,
    {
        assert(a@.skip(i as int).drop_first() =~= a@.skip(i + 1));
        assert(b@.skip(i as int).drop_first() =~= b@.skip(i + 1));
        i = i + 1;
    }
    if i == a.len() {
        i < b.len()
    } else if i == b.len() {
        false
    } else {
        (a[i] as u32) < (b[i] as u32)
    }
}

/// The parts of a `YYYY-MM-DD` text: before the first `-`, between it and
/// the next `-`, and the rest.
pub open spec fn date_parts(date: Seq<char>) -> Option<(Seq<char>, Seq<char>, Seq<char>)> {
    match crate::text::first_index(date, "-"@) {
        Some(i) => {
            let rest = date.skip(i + 1);
            match crate::text::first_index(rest, "-"@) {
                Some(j) => Some((date.take(i), rest.take(j), rest.skip(j + 1))),
                None => None,
            }
        },
        None => None,
    }
}

/// The `i32` written in `s`, if any.
pub open spec fn i32_value(s: Seq<char>) -> Option<int> {
    match int_text_value(s) {
        Some(v) => if i32::MIN <= v <= i32::MAX {
            Some(v)
        } else {
            None
        },
        None => None,
    }
}

/// The year, month and day written in `date` as `i32`s, if it has that form.
pub open spec fn date_numbers(date: Seq<char>) -> Option<(int, int, int)> {
    match date_parts(date) {
        Some((ys, ms, ds)) => match (i32_value(ys), i32_value(ms), i32_value(ds)) {
            (Some(y), Some(m), Some(d)) => Some((y, m, d)),
            _ => None,
        },
        None => None,
    }
}

/// The date `days` days after `(y, m, d)` in the simple calendar of
/// twelve 30-day months, as (year, month, day).
pub open spec fn shifted(y: int, m: int, d: int, days: int) -> (int, int, int) {
    let total = d + days;
    let new_month = m + tdiv(total - 1, 30);
    let new_day = trem(total - 1, 30) + 1;
    (y + tdiv(new_month - 1, 12), trem(new_month - 1, 12) + 1, new_day)
}

/// Adding `days` to `date` stays within `i32` at every step.
pub open spec fn add_days_fits(date: Seq<char>, days: int) -> bool {
    match date_numbers(date) {
        Some((y, m, d)) => {
            let total = d + days;
            let new_month = m + tdiv(total - 1, 30);
            &&& i32::MIN <= total - 1
            &&& total <= i32::MAX
            &&& i32::MIN <= new_month - 1
            &&& new_month <= i32::MAX
            &&& i32::MIN <= y + tdiv(new_month - 1, 12) <= i32::MAX
        },
        None => true,
    }
}

/// `date` moved by `days` days in the simple calendar, written
/// `YYYY-MM-DD`; `date` itself when it does not have that form.
pub open spec fn add_days_text(date: Seq<char>, days: int) -> Seq<char> {
    match date_numbers(date) {
        Some((y, m, d)) => {
            let (ny, nm, nd) = shifted(y, m, d, days);
            signed_padded(ny, 4) + "-"@ + signed_padded(nm, 2) + "-"@ + signed_padded(nd, 2)
        },
        None => date,
    }
}

fn split_at_dash(s: &Vec<char>) -> (r: Option<(Vec<char>, Vec<char>)>)
    ensures
        match r {
            Some((a, b)) => match crate::text::first_index(s@, "-"@) {
                Some(i) => a@ == s@.take(i) && b@ == s@.skip(i + 1),
                None => false,
            },
            None => crate::text::first_index(s@, "-"@) is None,
        },
{
    let dash = to_chars("-");
    proof {
        reveal_strlit("-");
    }
    match crate::text::find_first(s, &dash) {
        Some(i) => {
            assert(crate::text::first_at(s@, dash@, i as int));
            assert(i < s.len());
            let a = crate::text::sub_chars(s, 0, i);
            let b = crate::text::sub_chars(s, i + 1, s.len());
            assert(a@ =~= s@.take(i as int));
            assert(b@ =~= s@.skip(i + 1));
            Some((a, b))
        },
        None => None,
    }
}

fn parse_i32_text(s: &Vec<char>) -> (r: Option<i32>)
    ensures
        match r {
            Some(v) => i32_value(s@) == Some(v as int),
            None => i32_value(s@) is None,
        },
{
    match parse_int_in(s, i32::MIN as i128, i32::MAX as i128) {
        Some(v) => Some(v as i32),
        None => None,
    }
}

/// `date` (`YYYY-MM-DD`) moved by `days` days, counting every month as 30
/// days; `date` unchanged when it does not have that form.
pub fn add_days_to_date(date: &str, days: i32) -> (r: String)
    requires
        add_days_fits(date@, days as int),
    ensures
        r@ == add_days_text(date@, days as int),
{
    let cs = to_chars(date);
    proof {
        reveal_strlit("-");
    }
    if let Some((year, rest)) = split_at_dash(&cs) {
        if let Some((month, day)) = split_at_dash(&rest) {
            assert(date_parts(date@) == Some((year@, month@, day@)));
            match (parse_i32_text(&year), parse_i32_text(&month), parse_i32_text(&day)) {
                (Some(y), Some(m), Some(d)) => {
                    assert(date_numbers(date@) == Some((y as int, m as int, d as int)));
                    let total: i32 = d + days;
                    let new_month: i32 = m + trunc_div((total - 1) as i128, 30) as i32;
                    let new_day = (total - 1) as i128 - 30 * trunc_div((total - 1) as i128, 30)
                        + 1;
                    let q = trunc_div((new_month - 1) as i128, 12);
                    let ny = y as i128 + q;
                    let nm = (new_month - 1) as i128 - 12 * q + 1;
                    let mut out: Vec<char> = Vec::new();
                    push_signed_padded(&mut out, ny, 4);
                    extend_str(&mut out, "-");
                    push_signed_padded(&mut out, nm, 2);
                    extend_str(&mut out, "-");
                    push_signed_padded(&mut out, new_day, 2);
                    return from_chars(&out);
                },
                _ => {},
            }
        }
    }
    date.to_owned()
}

// ============================================
// Document checks
// ============================================

/// The existence check of document `key` of contractor `name`: an error
/// when it is not submitted (with its note, or "未提出"), a warning when
/// its file has no URL, else OK.
pub open spec fn existence_check_of(name: Seq<char>, key: Seq<char>, d: DocStatus) -> CheckView {
    if !d.status {
        CheckView {
            contractor_name: name,
            doc_name: doc_label_of(key),
            status: CheckStatus::Error,
            message: match d.note {
                Some(n) => n@,
                None => "未提出"@,
            },
        }
    } else if d.url is None && d.file is Some {
        CheckView {
            contractor_name: name,
            doc_name: doc_label_of(key),
            status: CheckStatus::Warning,
            message: "URLが未登録"@,
        }
    } else {
        CheckView {
            contractor_name: name,
            doc_name: doc_label_of(key),
            status: CheckStatus::Passed,
            message: "OK"@,
        }
    }
}

/// The existence check of a document: one not submitted is an error
/// (its note, or "未提出", as the message); a submitted one with a URL, or
/// with neither URL nor file, passes with "OK"; only a submitted one with a
/// file but no URL gets the warning "URLが未登録". Each result names the
/// contractor and the document's label.
pub proof fn lemma_existence_check_outcome(name: Seq<char>, key: Seq<char>, d: DocStatus)
    ensures
        existence_check_of(name, key, d).contractor_name == name,
        existence_check_of(name, key, d).doc_name == doc_label_of(key),
        !d.status ==> existence_check_of(name, key, d).status == CheckStatus::Error
            && existence_check_of(name, key, d).message == match d.note {
            Some(n) => n@,
            None => "未提出"@,
        },
        d.status && d.url is Some ==> existence_check_of(name, key, d).status == CheckStatus::Passed
            && existence_check_of(name, key, d).message == "OK"@,
        existence_check_of(name, key, d).status == CheckStatus::Warning <==> (d.status && d.url is None
            && d.file is Some),
        existence_check_of(name, key, d).status == CheckStatus::Warning ==> existence_check_of(
            name,
            key,
            d,
        ).message == "URLが未登録"@,
        d.status && d.url is None && d.file is None ==> existence_check_of(name, key, d).status
            == CheckStatus::Passed && existence_check_of(name, key, d).message == "OK"@,
{
}

/// The existence checks of the documents of a contractor, in order.
pub open spec fn contractor_existence(c: Contractor) -> Seq<CheckView> {
    c.docs@.map_values(|e: (String, DocStatus)| existence_check_of(c.name@, e.0@, e.1))
}

/// The existence checks of all documents, contractor by contractor.
pub open spec fn existence_results(cs: Seq<Contractor>) -> Seq<CheckView>
    decreases cs.len(),
{
    if cs.len() == 0 {
        Seq::empty()
    } else {
        existence_results(cs.drop_last()) + contractor_existence(cs.last())
    }
}

fn clone_opt(o: &Option<String>) -> (r: Option<String>)
    ensures
        opt_string(r) == opt_string(*o),
{
    match o {
        Some(s) => Some(s.clone()),
        None => None,
    }
}

fn existence_check(name: &String, key: &String, d: &DocStatus) -> (r: CheckResult)
    ensures
        r@ == existence_check_of(name@, key@, *d),
{
    let label = doc_label(key.as_str());
    if !d.status {
        let message = match &d.note {
            Some(n) => n.clone(),
            None => "未提出".to_owned(),
        };
        CheckResult {
            contractor_name: name.clone(),
            doc_name: label,
            status: CheckStatus::Error,
            message,
        }
    } else if d.url.is_none() && d.file.is_some() {
        CheckResult {
            contractor_name: name.clone(),
            doc_name: label,
            status: CheckStatus::Warning,
            message: "URLが未登録".to_owned(),
        }
    } else {
        CheckResult {
            contractor_name: name.clone(),
            doc_name: label,
            status: CheckStatus::Passed,
            message: "OK".to_owned(),
        }
    }
}

/// Checks that every document of every contractor is submitted and has a
/// URL.
pub fn run_existence_check(project: &ProjectData) -> (r: Vec<CheckResult>)
    ensures
        check_views(r@) == existence_results(project.contractors@),
{
    let ghost cs = project.contractors@;
    let mut results: Vec<CheckResult> = Vec::new();
    let mut i: usize = 0;
    assert(cs.take(0) =~= Seq::<Contractor>::empty());
    assert(check_views(results@) =~= Seq::<CheckView>::empty());
    while i < project.contractors.len()
        invariant
            i <= cs.len(),
            cs == project.contractors@,
            check_views(results@) == existence_results(cs.take(i as int)),
        decreases cs.len() - i,
    {
        let c = &project.contractors[i];
        let ghost before = check_views(results@);
        let mut k: usize = 0;
        while k < c.docs.len()
            invariant
                k <= c.docs@.len(),
                check_views(results@) == before + contractor_existence(*c).take(k as int),
            decreases c.docs.len() - k,
        {
            let ghost prev = results@;
            let r = existence_check(&c.name, &c.docs[k].0, &c.docs[k].1);
            results.push(r);
            assert(check_views(results@) =~= check_views(prev).push(r@));
            assert(contractor_existence(*c).take(k + 1) =~= contractor_existence(*c).take(
                k as int,
            ).push(r@));
            k = k + 1;
        }
        assert(contractor_existence(*c).take(c.docs@.len() as int) =~= contractor_existence(*c));
        assert(cs.take(i + 1).drop_last() =~= cs.take(i as int));
        assert(cs.take(i + 1).last() == *c);
        i = i + 1;
    }
    assert(cs.take(cs.len() as int) =~= cs);
    results
}

/// The date check of document `key` of contractor `name`, valid until
/// `until`, on day `today`: an error when it has expired, a warning when it
/// expires within 30 days, else OK.
pub open spec fn date_check_of(
    name: Seq<char>,
    key: Seq<char>,
    until: Seq<char>,
    today: Seq<char>,
) -> CheckView {
    if text_less(until, today) {
        CheckView {
            contractor_name: name,
            doc_name: doc_label_of(key),
            status: CheckStatus::Error,
            message: "期限切れ: "@ + until,
        }
    } else if !text_less(add_days_text(today, 30), until) {
        CheckView {
            contractor_name: name,
            doc_name: doc_label_of(key),
            status: CheckStatus::Warning,
            message: "期限間近: "@ + until,
        }
    } else {
        CheckView {
            contractor_name: name,
            doc_name: doc_label_of(key),
            status: CheckStatus::Passed,
            message: "有効期限: "@ + until,
        }
    }
}

/// The date checks of the documents `docs` of contractor `name` that have
/// an expiry date, in order.
pub open spec fn contractor_dates(
    name: Seq<char>,
    docs: Seq<(String, DocStatus)>,
    today: Seq<char>,
) -> Seq<CheckView>
    decreases docs.len(),
{
    if docs.len() == 0 {
        Seq::empty()
    } else {
        contractor_dates(name, docs.drop_last(), today) + match docs.last().1.valid_until {
            Some(u) => seq![date_check_of(name, docs.last().0@, u@, today)],
            None => Seq::empty(),
        }
    }
}

/// The date checks of all documents with an expiry date, contractor by
/// contractor.
pub open spec fn date_results(cs: Seq<Contractor>, today: Seq<char>) -> Seq<CheckView>
    decreases cs.len(),
{
    if cs.len() == 0 {
        Seq::empty()
    } else {
        date_results(cs.drop_last(), today) + contractor_dates(
            cs.last().name@,
            cs.last().docs@,
            today,
        )
    }
}

/// Some document of `cs` has not expired on `today`, so the warning date 30
/// days on is computed.
pub open spec fn needs_warning_date(cs: Seq<Contractor>, today: Seq<char>) -> bool {
    exists|i: int, k: int|
        0 <= i < cs.len() && 0 <= k < cs[i].docs@.len() && match (
        #[trigger] cs[i].docs@[k]).1.valid_until {
            Some(u) => !text_less(u@, today),
            None => false,
        }
}

/// Checks the expiry date of every document that has one against `today`
/// (`YYYY-MM-DD`).
pub fn run_date_check(project: &ProjectData, today: &str) -> (r: Vec<CheckResult>)
    requires
        needs_warning_date(project.contractors@, today@) ==> add_days_fits(today@, 30),
    ensures
        check_views(r@) == date_results(project.contractors@, today@),
{
    let ghost cs = project.contractors@;
    let today_chars = to_chars(today);
    let mut results: Vec<CheckResult> = Vec::new();
    let mut i: usize = 0;
    assert(cs.take(0) =~= Seq::<Contractor>::empty());
    assert(check_views(results@) =~= Seq::<CheckView>::empty());
    while i < project.contractors.len()
        invariant
            i <= cs.len(),
            cs == project.contractors@,
            today_chars@ == today@,
            needs_warning_date(cs, today@) ==> add_days_fits(today@, 30),
            check_views(results@) == date_results(cs.take(i as int), today@),
        decreases cs.len() - i,
    {
        let c = &project.contractors[i];
        let ghost before = check_views(results@);
        let ghost docs = c.docs@;
        let mut k: usize = 0;
        assert(docs.take(0) =~= Seq::<(String, DocStatus)>::empty());
        assert(check_views(results@) =~= before + contractor_dates(c.name@, docs.take(0), today@));
        while k < c.docs.len()
            invariant
                k <= docs.len(),
                docs == c.docs@,
                c == project.contractors@[i as int],
                i < cs.len(),
                cs == project.contractors@,
                today_chars@ == today@,
                needs_warning_date(cs, today@) ==> add_days_fits(today@, 30),
                check_views(results@) == before + contractor_dates(
                    c.name@,
                    docs.take(k as int),
                    today@,
                ),
            decreases docs.len() - k,
        {
            assert(docs.take(k + 1).drop_last() =~= docs.take(k as int));
            assert(docs.take(k + 1).last() == docs[k as int]);
            let d = &c.docs[k].1;
            match &d.valid_until {
                Some(until) => {
                    let ghost prev = results@;
                    let u = to_chars(until.as_str());
                    let label = doc_label(c.docs[k].0.as_str());
                    let r = if str_less(&u, &today_chars) {
                        let mut m: Vec<char> = Vec::new();
                        extend_str(&mut m, "期限切れ: ");
                        extend_str(&mut m, until.as_str());
                        CheckResult {
                            contractor_name: c.name.clone(),
                            doc_name: label,
                            status: CheckStatus::Error,
                            message: from_chars(&m),
                        }
                    } else {
                        assert(needs_warning_date(cs, today@)) by {
                            assert(cs[i as int].docs@[k as int] == docs[k as int]);
                        }
                        let warning_date = add_days_to_date(today, 30);
                        let w = to_chars(warning_date.as_str());
                        if !str_less(&w, &u) {
                            let mut m: Vec<char> = Vec::new();
                            extend_str(&mut m, "期限間近: ");
                            extend_str(&mut m, until.as_str());
                            CheckResult {
                                contractor_name: c.name.clone(),
                                doc_name: label,
                                status: CheckStatus::Warning,
                                message: from_chars(&m),
                            }
                        } else {
                            let mut m: Vec<char> = Vec::new();
                            extend_str(&mut m, "有効期限: ");
                            extend_str(&mut m, until.as_str());
                            CheckResult {
                                contractor_name: c.name.clone(),
                                doc_name: label,
                                status: CheckStatus::Passed,
                                message: from_chars(&m),
                            }
                        }
                    };
                    assert(r@ =~= date_check_of(c.name@, docs[k as int].0@, until@, today@));
                    results.push(r);
                    assert(check_views(results@) =~= check_views(prev).push(r@));
                },
                None => {},
            }
            k = k + 1;
        }
        assert(docs.take(docs.len() as int) =~= docs);
        assert(cs.take(i + 1).drop_last() =~= cs.take(i as int));
        assert(cs.take(i + 1).last() == *c);
        i = i + 1;
    }
    assert(cs.take(cs.len() as int) =~= cs);
    results
}

/// `d1` is `d0` with its check result and the time of its last check
/// cleared.
pub open spec fn check_cleared(d0: DocStatus, d1: DocStatus) -> bool {
    &&& d1.check_result is None
    &&& d1.last_checked is None
    &&& d1.status == d0.status
    &&& d1.file == d0.file
    &&& d1.url == d0.url
    &&& d1.note == d0.note
    &&& d1.valid_from == d0.valid_from
    &&& d1.valid_until == d0.valid_until
}

/// `d` with its check result and last check time cleared.
fn cleared_doc(d: DocStatus) -> (r: DocStatus)
    ensures
        check_cleared(d, r),
{
    DocStatus { check_result: None, last_checked: None, ..d }
}

/// `c1` is `c0` with the check results of all its documents cleared.
pub open spec fn contractor_cleared(c0: Contractor, c1: Contractor) -> bool {
    &&& c1.id == c0.id
    &&& c1.name == c0.name
    &&& c1.role == c0.role
    &&& c1.docs@.len() == c0.docs@.len()
    &&& forall|k: int|
        0 <= k < c0.docs@.len() ==> (#[trigger] c1.docs@[k]).0 == c0.docs@[k].0 && check_cleared(
            c0.docs@[k].1,
            c1.docs@[k].1,
        )
}

/// Clears the check results of all documents of `c`.
fn clear_contractor(c: &mut Contractor)
    ensures
        contractor_cleared(*old(c), *final(c)),
{
    let ghost c0 = *c;
    let mut k: usize = 0;
    while k < c.docs.len()
        invariant
            k <= c.docs@.len(),
            c.id == c0.id,
            c.name == c0.name,
            c.role == c0.role,
            c.docs@.len() == c0.docs@.len(),
            forall|j: int|
                k <= j < c0.docs@.len() ==> #[trigger] c.docs@[j] == c0.docs@[j],
            forall|j: int|
                0 <= j < k ==> (#[trigger] c.docs@[j]).0 == c0.docs@[j].0 && check_cleared(
                    c0.docs@[j].1,
                    c.docs@[j].1,
                ),
        decreases c.docs.len() - k,
    {
        let (key, d) = c.docs.remove(k);
        c.docs.insert(k, (key, cleared_doc(d)));
        k = k + 1;
    }
}

/// Clears the check result and the last check time of every document of
/// every contractor; nothing else changes.
pub fn clear_all_check_results(project: &mut ProjectData)
    ensures
        final(project).same_but_contractors(*old(project)),
        final(project).contractors@.len() == old(project).contractors@.len(),
        forall|i: int|
            0 <= i < old(project).contractors@.len() ==> contractor_cleared(
                old(project).contractors@[i],
                #[trigger] final(project).contractors@[i],
            ),
        old(project).well_formed() ==> final(project).well_formed(),
{
    let ghost cs0 = project.contractors@;
    let mut i: usize = 0;
    while i < project.contractors.len()
        invariant
            i <= project.contractors@.len(),
            project.same_but_contractors(*old(project)),
            cs0 == old(project).contractors@,
            project.contractors@.len() == cs0.len(),
            forall|j: int|
                i <= j < cs0.len() ==> #[trigger] project.contractors@[j] == cs0[j],
            forall|j: int|
                0 <= j < i ==> contractor_cleared(cs0[j], #[trigger] project.contractors@[j]),
        decreases project.contractors.len() - i,
    {
        let mut c = project.contractors.remove(i);
        clear_contractor(&mut c);
        project.contractors.insert(i, c);
        i = i + 1;
    }
    proof {
        if old(project).well_formed() {
            assert forall|i: int| 0 <= i < project.contractors@.len() implies (
            #[trigger] project.contractors@[i]).keys_distinct() by {
                let c0 = cs0[i];
                let c1 = project.contractors@[i];
                assert(c0.keys_distinct());
                assert forall|a: int, b: int| 0 <= a < b < c1.docs@.len() implies (
                #[trigger] c1.docs@[a]).0@ != (#[trigger] c1.docs@[b]).0@ by {
                    assert(c1.docs@[a].0 == c0.docs@[a].0);
                    assert(c1.docs@[b].0 == c0.docs@[b].0);
                    assert(c0.docs@[a].0@ != c0.docs@[b].0@);
                }
            }
        }
    }
}

/// Clears the check result and the last check time of document `doc_key`
/// of the first contractor with id `contractor_id`; nothing else changes,
/// and nothing at all when there is no such contractor or document.
pub fn clear_check_result(project: &mut ProjectData, contractor_id: &str, doc_key: &str)
    ensures
        final(project).same_but_contractors(*old(project)),
        final(project).contractors@.len() == old(project).contractors@.len(),
        forall|i: int|
            0 <= i < old(project).contractors@.len() && !first_contractor_at(
                old(project).contractors@,
                contractor_id@,
                i,
            ) ==> final(project).contractors@[i] == old(project).contractors@[i],
        forall|i: int|
            #![trigger first_contractor_at(old(project).contractors@, contractor_id@, i)]
            first_contractor_at(old(project).contractors@, contractor_id@, i) ==> {
                let c0 = old(project).contractors@[i];
                let c1 = final(project).contractors@[i];
                &&& c1.id == c0.id
                &&& c1.name == c0.name
                &&& c1.role == c0.role
                &&& c1.docs@.len() == c0.docs@.len()
                &&& forall|k: int|
                    0 <= k < c0.docs@.len() && !first_doc_at(c0.docs@, doc_key@, k)
                        ==> c1.docs@[k] == c0.docs@[k]
                &&& forall|k: int|
                    #![trigger first_doc_at(c0.docs@, doc_key@, k)]
                    first_doc_at(c0.docs@, doc_key@, k) ==> c1.docs@[k].0 == c0.docs@[k].0
                        && check_cleared(c0.docs@[k].1, c1.docs@[k].1)
            },
        old(project).well_formed() ==> final(project).well_formed(),
{
    let ghost old_cs = project.contractors@;
    match find_contractor(&project.contractors, contractor_id) {
        Some(i) => {
            let mut c = project.contractors.remove(i);
            let ghost old_docs = c.docs@;
            match find_doc(&c.docs, doc_key) {
                Some(k) => {
                    let (key, d) = c.docs.remove(k);
                    let e = (key, cleared_doc(d));
                    c.docs.insert(k, e);
                    assert(c.docs@ =~= old_docs.update(k as int, e));
                },
                None => {},
            }
            project.contractors.insert(i, c);
            assert(project.contractors@ =~= old_cs.update(i as int, c));
            proof {
                if old(project).well_formed() {
                    assert forall|j: int| 0 <= j < project.contractors@.len() implies (
                    #[trigger] project.contractors@[j]).keys_distinct() by {
                        if j == i {
                            let c0 = old_cs[j];
                            assert(c0.keys_distinct());
                            assert forall|a: int, b: int| 0 <= a < b < c.docs@.len() implies (
                            #[trigger] c.docs@[a]).0@ != (#[trigger] c.docs@[b]).0@ by {
                                assert(c.docs@[a].0 == c0.docs@[a].0);
                                assert(c.docs@[b].0 == c0.docs@[b].0);
                            }
                        } else {
                            assert(project.contractors@[j] == old_cs[j]);
                        }
                    }
                }
            }
        },
        None => {},
    }
}

// ============================================
// Dates and names for display and download
// ============================================

/// `YYYY-MM-DD` for a date.
pub open spec fn date_text(year: int, month: int, day: int) -> Seq<char> {
    signed_padded(year, 4) + "-"@ + signed_padded(month, 2) + "-"@ + signed_padded(day, 2)
}

/// Today's date as `YYYY-MM-DD`, from the clock's year, month (1 to 12) and
/// day.
pub fn format_today(year: u32, month: u32, day: u32) -> (r: String)
    ensures
        r@ == date_text(year as int, month as int, day as int),
{
    let mut out: Vec<char> = Vec::new();
    push_signed_padded(&mut out, year as i128, 4);
    extend_str(&mut out, "-");
    push_signed_padded(&mut out, month as i128, 2);
    extend_str(&mut out, "-");
    push_signed_padded(&mut out, day as i128, 2);
    from_chars(&out)
}

/// `YYYYMMDD_HHMMSS` for a moment.
pub open spec fn timestamp_text(
    year: int,
    month: int,
    day: int,
    hours: int,
    minutes: int,
    seconds: int,
) -> Seq<char> {
    signed_padded(year, 4) + signed_padded(month, 2) + signed_padded(day, 2) + "_"@
        + signed_padded(hours, 2) + signed_padded(minutes, 2) + signed_padded(seconds, 2)
}

/// A time stamp `YYYYMMDD_HHMMSS` from the clock's fields.
pub fn format_timestamp(year: u32, month: u32, day: u32, hours: u32, minutes: u32, seconds: u32) -> (r:
    String)
    ensures
        r@ == timestamp_text(
            year as int,
            month as int,
            day as int,
            hours as int,
            minutes as int,
            seconds as int,
        ),
{
    let mut out: Vec<char> = Vec::new();
    push_signed_padded(&mut out, year as i128, 4);
    push_signed_padded(&mut out, month as i128, 2);
    push_signed_padded(&mut out, day as i128, 2);
    extend_str(&mut out, "_");
    push_signed_padded(&mut out, hours as i128, 2);
    push_signed_padded(&mut out, minutes as i128, 2);
    push_signed_padded(&mut out, seconds as i128, 2);
    from_chars(&out)
}

/// The file name of a project's JSON download: its name with spaces made
/// `_` and slashes made `-`, then `_`, the time stamp and `.json`.
pub open spec fn json_file_name_of(project_name: Seq<char>, timestamp: Seq<char>) -> Seq<char> {
    project_name.map_values(|c: char| if c == ' ' { '_' } else if c == '/' { '-' } else { c })
        + "_"@ + timestamp + ".json"@
}

/// The file name under which a project is downloaded as JSON.
pub fn json_file_name(project_name: &str, timestamp: &str) -> (r: String)
    ensures
        r@ == json_file_name_of(project_name@, timestamp@),
{
    let p = to_chars(project_name);
    let mut out: Vec<char> = Vec::new();
    let mut i: usize = 0;
    while i < p.len()
        invariant
            i <= p.len(),
            out@ == p@.take(i as int).map_values(
                |c: char| if c == ' ' { '_' } else if c == '/' { '-' } else { c },
            ),
        decreases p.len() - i,
    {
        let c = p[i];
        out.push(if c == ' ' { '_' } else if c == '/' { '-' } else { c });
        i = i + 1;
        assert(out@ =~= p@.take(i as int).map_values(
            |c: char| if c == ' ' { '_' } else if c == '/' { '-' } else { c },
        ));
    }
    assert(p@.take(p.len() as int) =~= p@);
    extend_str(&mut out, "_");
    extend_str(&mut out, timestamp);
    extend_str(&mut out, ".json");
    from_chars(&out)
}

} // verus!
