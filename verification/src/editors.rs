//! The edits the project editor makes: contractors added, replaced and
//! removed, documents requested, updated and removed, and the values its
//! forms produce.

use vstd::prelude::*;
use crate::models::{CheckResultData, Contractor, DocLink, DocStatus};
use crate::regex_support::opt_string;
use crate::text::{
    chars_eq, contains_str, decimal, extend_str, from_chars, has_sub, occurs_at, push_decimal,
    to_chars,
};

verus! {

// ---------------------------------------------------------------------------
// Standard documents
// ---------------------------------------------------------------------------

/// The keys of the standard documents of a contractor, in the order they
/// are requested.
pub open spec fn standard_doc_keys() -> Seq<Seq<char>> {
    seq![
        "01_建設業許可"@,
        "02_事業所番号"@,
        "03_労働保険番号"@,
        "041_現場代理人資格"@,
        "042_現場代理人在籍"@,
        "051_主任技術者資格"@,
        "052_主任技術者在籍"@,
        "06_法定外労災"@,
        "07_建退共"@,
        "08_作業員名簿"@,
        "09_暴対法誓約書"@,
    ]
}

/// The number of standard documents.
pub const STANDARD_DOC_COUNT: usize = 11;

/// The key and label of standard document `i`.
pub fn standard_doc(i: usize) -> (r: (&'static str, &'static str))
    requires
        i < STANDARD_DOC_COUNT,
    ensures
        r.0@ == standard_doc_keys()[i as int],
{
    match i {
        0 => ("01_建設業許可", "建設業許可"),
        1 => ("02_事業所番号", "事業所番号"),
        2 => ("03_労働保険番号", "労働保険番号"),
        3 => ("041_現場代理人資格", "現場代理人資格"),
        4 => ("042_現場代理人在籍", "現場代理人在籍"),
        5 => ("051_主任技術者資格", "主任技術者資格"),
        6 => ("052_主任技術者在籍", "主任技術者在籍"),
        7 => ("06_法定外労災", "法定外労災"),
        8 => ("07_建退共", "建退共"),
        9 => ("08_作業員名簿", "作業員名簿"),
        _ => ("09_暴対法誓約書", "暴対法誓約書"),
    }
}

// ---------------------------------------------------------------------------
// Documents of a contractor
// ---------------------------------------------------------------------------

/// `docs` has a document with key `key`.
pub open spec fn has_key(docs: Seq<(String, DocStatus)>, key: Seq<char>) -> bool {
    exists|i: int| 0 <= i < docs.len() && (#[trigger] docs[i]).0@ == key
}

/// No key occurs twice in `docs`.
pub open spec fn distinct_keys(docs: Seq<(String, DocStatus)>) -> bool {
    forall|i: int, j: int|
        0 <= i < j < docs.len() ==> (#[trigger] docs[i]).0@ != (#[trigger] docs[j]).0@
}

/// The position of the document with key `key`, if any.
pub open spec fn key_index(docs: Seq<(String, DocStatus)>, key: Seq<char>) -> Option<int> {
    if has_key(docs, key) {
        Some(choose|i: int| 0 <= i < docs.len() && docs[i].0@ == key && forall|j: int|
            0 <= j < i ==> docs[j].0@ != key)
    } else {
        None
    }
}

/// The first standard document from `i` on that `docs` lacks.
pub open spec fn missing_standard_from(docs: Seq<(String, DocStatus)>, i: int) -> Option<int>
    decreases STANDARD_DOC_COUNT - i,
{
    if i < 0 || i >= STANDARD_DOC_COUNT {
        None
    } else if !has_key(docs, standard_doc_keys()[i]) {
        Some(i)
    } else {
        missing_standard_from(docs, i + 1)
    }
}

/// A document just requested: not submitted, with the note "要依頼" and
/// nothing else.
pub open spec fn is_requested(d: DocStatus) -> bool {
    &&& !d.status
    &&& d.file is None
    &&& d.url is None
    &&& opt_string(d.note) == Some("要依頼"@)
    &&& d.valid_from is None
    &&& d.valid_until is None
    &&& d.check_result is None
    &&& d.last_checked is None
}

/// The position of the document with key `key`.
pub(crate) fn find_key(docs: &Vec<(String, DocStatus)>, key: &Vec<char>) -> (r: Option<usize>)
    ensures
        match r {
            Some(k) => key_index(docs@, key@) == Some(k as int) && k < docs@.len(),
            None => key_index(docs@, key@) is None && !has_key(docs@, key@),
        },
{
    let mut k: usize = 0;
    while k < docs.len()
        invariant
            k <= docs@.len(),
            forall|j: int| 0 <= j < k ==> docs@[j].0@ != key@,
        decreases docs.len() - k,
    {
        if chars_eq(&to_chars(docs[k].0.as_str()), key) {
            proof {
                assert(has_key(docs@, key@));
                let c = choose|i: int| 0 <= i < docs@.len() && docs@[i].0@ == key@ && forall|j: int|
                    0 <= j < i ==> docs@[j].0@ != key@;
                assert(docs@[k as int].0@ == key@);
                assert(c == k) by {
                    if c < k {
                        assert(docs@[c].0@ != key@);
                    } else if c > k {
                        assert(docs@[k as int].0@ != key@);
                    }
                }
            }
            return Some(k);
        }
        k = k + 1;
    }
    assert(!has_key(docs@, key@));
    None
}

/// Requests the first standard document the contractor lacks: it is added
/// last, not submitted and noted "要依頼"; nothing changes when none is
/// lacking.
pub fn add_standard_doc(docs: &mut Vec<(String, DocStatus)>)
    requires
        distinct_keys(old(docs)@),
    ensures
        match missing_standard_from(old(docs)@, 0) {
            Some(i) => final(docs)@.len() == old(docs)@.len() + 1
                && final(docs)@.drop_last() == old(docs)@
                && final(docs)@.last().0@ == standard_doc_keys()[i]
                && is_requested(final(docs)@.last().1),
            None => final(docs)@ == old(docs)@,
        },
        distinct_keys(final(docs)@),
{
    let ghost start = docs@;
    let mut i: usize = 0;
    while i < STANDARD_DOC_COUNT
        invariant
            i <= STANDARD_DOC_COUNT,
            docs@ == start,
            start == old(docs)@,
            distinct_keys(start),
            missing_standard_from(start, 0) == missing_standard_from(start, i as int),
        decreases STANDARD_DOC_COUNT - i,
    {
        let (key, _) = standard_doc(i);
        let kc = to_chars(key);
        match find_key(docs, &kc) {
            None => {
                let d = DocStatus {
                    status: false,
                    file: None,
                    url: None,
                    note: Some("要依頼".to_owned()),
                    valid_from: None,
                    valid_until: None,
                    check_result: None,
                    last_checked: None,
                };
                docs.push((key.to_owned(), d));
                proof {
                    assert(docs@.drop_last() =~= start);
                    assert forall|a: int, b: int|
                        distinct_keys(start) && 0 <= a < b < docs@.len() implies (
                        #[trigger] docs@[a]).0@ != (#[trigger] docs@[b]).0@ by {
                        if b == docs@.len() - 1 {
                            assert(docs@[a] == start[a]);
                        } else {
                            assert(docs@[a] == start[a] && docs@[b] == start[b]);
                        }
                    }
                }
                return;
            },
            Some(_) => {},
        }
        i = i + 1;
    }
}

/// `after` is `before` with `status` recorded for the document `key`: it
/// replaces the document with that key, or is added last when there is
/// none.
pub open spec fn doc_set(
    before: Seq<(String, DocStatus)>,
    after: Seq<(String, DocStatus)>,
    key: Seq<char>,
    status: DocStatus,
) -> bool {
    match key_index(before, key) {
        Some(k) => after == before.update(k, (before[k].0, status)),
        None => after.len() == before.len() + 1 && after.drop_last() == before && after.last().0@
            == key && after.last().1 == status,
    }
}

/// `after` is `before` without the document `key`, if it had one.
pub open spec fn doc_removed(
    before: Seq<(String, DocStatus)>,
    after: Seq<(String, DocStatus)>,
    key: Seq<char>,
) -> bool {
    match key_index(before, key) {
        Some(k) => after == before.remove(k),
        None => after == before,
    }
}

/// The state recorded for the document `key`, if there is one.
pub open spec fn doc_of(docs: Seq<(String, DocStatus)>, key: Seq<char>) -> Option<DocStatus> {
    match key_index(docs, key) {
        Some(k) => Some(docs[k].1),
        None => None,
    }
}

proof fn lemma_key_index_at(docs: Seq<(String, DocStatus)>, key: Seq<char>, i: int)
    requires
        0 <= i < docs.len(),
        docs[i].0@ == key,
        forall|j: int| 0 <= j < i ==> docs[j].0@ != key,
    ensures
        key_index(docs, key) == Some(i),
{
    assert(has_key(docs, key));
    let c = choose|c: int| 0 <= c < docs.len() && docs[c].0@ == key && forall|j: int|
        0 <= j < c ==> docs[j].0@ != key;
    assert(0 <= c < docs.len() && docs[c].0@ == key && forall|j: int|
        0 <= j < c ==> docs[j].0@ != key);
    if c < i {
        assert(docs[c].0@ != key);
    }
    if i < c {
        assert(docs[i].0@ != key);
    }
}

proof fn lemma_first_key(docs: Seq<(String, DocStatus)>, key: Seq<char>, n: int)
    requires
        0 <= n <= docs.len(),
        exists|i: int| 0 <= i < n && (#[trigger] docs[i]).0@ == key,
    ensures
        exists|i: int|
            0 <= i < n && (#[trigger] docs[i]).0@ == key && forall|j: int|
                0 <= j < i ==> docs[j].0@ != key,
    decreases n,
{
    if exists|i: int| 0 <= i < n - 1 && (#[trigger] docs[i]).0@ == key {
        lemma_first_key(docs, key, n - 1);
    } else {
        assert(docs[n - 1].0@ == key);
        assert forall|j: int| 0 <= j < n - 1 implies docs[j].0@ != key by {
            if docs[j].0@ == key {
                assert(0 <= j < n - 1 && docs[j].0@ == key);
            }
        }
    }
}

proof fn lemma_key_index_found(docs: Seq<(String, DocStatus)>, key: Seq<char>)
    requires
        has_key(docs, key),
    ensures
        key_index(docs, key) matches Some(i) && 0 <= i < docs.len() && docs[i].0@ == key
            && forall|j: int| 0 <= j < i ==> docs[j].0@ != key,
{
    lemma_first_key(docs, key, docs.len() as int);
}

/// Documents behave as a map from keys to states: after recording `status`
/// for `key`, looking `key` up gives `status`, and every other key still
/// gives what it gave before.
pub proof fn lemma_doc_set_read_back(
    before: Seq<(String, DocStatus)>,
    after: Seq<(String, DocStatus)>,
    key: Seq<char>,
    status: DocStatus,
    other: Seq<char>,
)
    requires
        doc_set(before, after, key, status),
    ensures
        doc_of(after, key) == Some(status),
        other != key ==> doc_of(after, other) == doc_of(before, other),
{
    match key_index(before, key) {
        Some(k) => {
            lemma_key_index_found(before, key);
            lemma_key_index_at(after, key, k);
            if other != key {
                if has_key(before, other) {
                    lemma_key_index_found(before, other);
                    let i = key_index(before, other)->0;
                    lemma_key_index_at(after, other, i);
                } else {
                    assert(!has_key(after, other)) by {
                        if has_key(after, other) {
                            let i = choose|i: int| 0 <= i < after.len() && (#[trigger] after[i]).0@ == other;
                            assert(before[i].0@ == other);
                        }
                    }
                }
            }
        },
        None => {
            let n = before.len() as int;
            assert(after[n] == after.last());
            assert forall|j: int| 0 <= j < n implies after[j].0@ != key by {
                assert(after[j] == before[j]);
                if before[j].0@ == key {
                    assert(has_key(before, key));
                }
            }
            lemma_key_index_at(after, key, n);
            if other != key {
                if has_key(before, other) {
                    lemma_key_index_found(before, other);
                    let i = key_index(before, other)->0;
                    assert(after[i] == before[i]);
                    assert forall|j: int| 0 <= j < i implies after[j].0@ != other by {
                        assert(after[j] == before[j]);
                    }
                    lemma_key_index_at(after, other, i);
                } else {
                    assert(!has_key(after, other)) by {
                        if has_key(after, other) {
                            let i = choose|i: int| 0 <= i < after.len() && (#[trigger] after[i]).0@ == other;
                            if i < n {
                                assert(after[i] == before[i]);
                            }
                        }
                    }
                }
            }
        },
    }
}

proof fn lemma_remove_keeps_lookup(before: Seq<(String, DocStatus)>, k: int, other: Seq<char>)
    requires
        0 <= k < before.len(),
        before[k].0@ != other,
    ensures
        doc_of(before.remove(k), other) == doc_of(before, other),
{
    let after = before.remove(k);
    if has_key(before, other) {
        lemma_key_index_found(before, other);
        let i = key_index(before, other)->0;
        let ai = if i < k { i } else { i - 1 };
        assert(after[ai] == before[i]);
        assert forall|j: int| 0 <= j < ai implies after[j].0@ != other by {
            let sj = if j < k { j } else { j + 1 };
            assert(after[j] == before[sj]);
        }
        lemma_key_index_at(after, other, ai);
    } else {
        assert(!has_key(after, other)) by {
            if has_key(after, other) {
                let i = choose|i: int| 0 <= i < after.len() && (#[trigger] after[i]).0@ == other;
                let si = if i < k { i } else { i + 1 };
                assert(after[i] == before[si]);
            }
        }
    }
}

proof fn lemma_remove_only_key(before: Seq<(String, DocStatus)>, k: int)
    requires
        distinct_keys(before),
        0 <= k < before.len(),
    ensures
        !has_key(before.remove(k), before[k].0@),
{
    let after = before.remove(k);
    if has_key(after, before[k].0@) {
        let i = choose|i: int| 0 <= i < after.len() && (#[trigger] after[i]).0@ == before[k].0@;
        if i < k {
            assert(after[i] == before[i]);
            assert(before[i].0@ != before[k].0@);
        } else {
            assert(after[i] == before[i + 1]);
            assert(before[k].0@ != before[i + 1].0@);
        }
    }
}

/// Removing the document `key` from documents with distinct keys leaves no
/// document under `key`, and every other key still gives what it gave
/// before.
pub proof fn lemma_doc_removed_read_back(
    before: Seq<(String, DocStatus)>,
    after: Seq<(String, DocStatus)>,
    key: Seq<char>,
    other: Seq<char>,
)
    requires
        distinct_keys(before),
        doc_removed(before, after, key),
    ensures
        doc_of(after, key) is None,
        other != key ==> doc_of(after, other) == doc_of(before, other),
{
    match key_index(before, key) {
        Some(k) => {
            lemma_key_index_found(before, key);
            lemma_remove_only_key(before, k);
            if other != key {
                lemma_remove_keeps_lookup(before, k, other);
            }
        },
        None => {},
    }
}

/// Records `status` for the document `key`: it replaces the document with
/// that key, or is added last when there is none.
pub fn set_doc(docs: &mut Vec<(String, DocStatus)>, key: &str, status: DocStatus)
    requires
        distinct_keys(old(docs)@),
    ensures
        doc_set(old(docs)@, final(docs)@, key@, status),
        distinct_keys(final(docs)@),
{
    let ghost start = docs@;
    let kc = to_chars(key);
    match find_key(docs, &kc) {
        Some(k) => {
            let (name, _) = docs.remove(k);
            docs.insert(k, (name, status));
            proof {
                assert(docs@ =~= start.update(k as int, (start[k as int].0, status)));
                assert forall|a: int, b: int|
                    distinct_keys(start) && 0 <= a < b < docs@.len() implies (
                    #[trigger] docs@[a]).0@ != (#[trigger] docs@[b]).0@ by {
                    assert(docs@[a].0 == start[a].0 && docs@[b].0 == start[b].0);
                }
            }
        },
        None => {
            docs.push((key.to_owned(), status));
            proof {
                assert(docs@.drop_last() =~= start);
                assert forall|a: int, b: int|
                    distinct_keys(start) && 0 <= a < b < docs@.len() implies (
                    #[trigger] docs@[a]).0@ != (#[trigger] docs@[b]).0@ by {
                    if b == docs@.len() - 1 {
                        assert(docs@[a] == start[a]);
                    } else {
                        assert(docs@[a] == start[a] && docs@[b] == start[b]);
                    }
                }
            }
        },
    }
}

/// Removes the document `key`, if there is one.
pub fn remove_doc(docs: &mut Vec<(String, DocStatus)>, key: &str)
    requires
        distinct_keys(old(docs)@),
    ensures
        doc_removed(old(docs)@, final(docs)@, key@),
        distinct_keys(final(docs)@),
        !has_key(final(docs)@, key@),
{
    let ghost start = docs@;
    let kc = to_chars(key);
    match find_key(docs, &kc) {
        Some(k) => {
            let _ = docs.remove(k);
            proof {
                assert forall|a: int, b: int|
                    distinct_keys(start) && 0 <= a < b < docs@.len() implies (
                    #[trigger] docs@[a]).0@ != (#[trigger] docs@[b]).0@ by {
                    let sa = if a < k { a } else { a + 1 };
                    let sb = if b < k { b } else { b + 1 };
                    assert(docs@[a] == start[sa] && docs@[b] == start[sb]);
                }
                if distinct_keys(start) && has_key(docs@, key@) {
                    let j = choose|j: int| 0 <= j < docs@.len() && (#[trigger] docs@[j]).0@ == key@;
                    let sj = if j < k { j } else { j + 1 };
                    assert(docs@[j] == start[sj]);
                    assert(start[k as int].0@ == key@);
                }
            }
        },
        None => {},
    }
}

// ---------------------------------------------------------------------------
// Contractors
// ---------------------------------------------------------------------------

/// The contractor added by the editor when the list has `n` contractors.
pub open spec fn new_contractor_of(c: Contractor, n: nat) -> bool {
    &&& c.id@ == "contractor_"@ + decimal(n + 1)
    &&& c.name@ == "新規業者"@
    &&& c.role@ == ""@
    &&& c.docs@.len() == 0
}

/// Adds a new contractor, with an id numbered after the list's length.
pub fn add_contractor(cs: &mut Vec<Contractor>)
    requires
        old(cs)@.len() < usize::MAX,
        crate::models::contractors_wf(old(cs)@),
    ensures
        crate::models::contractors_wf(final(cs)@),
        final(cs)@.len() == old(cs)@.len() + 1,
        final(cs)@.drop_last() == old(cs)@,
        new_contractor_of(final(cs)@.last(), old(cs)@.len()),
{
    let mut id: Vec<char> = Vec::new();
    extend_str(&mut id, "contractor_");
    push_decimal(&mut id, cs.len() as u128 + 1);
    let c = Contractor {
        id: from_chars(&id),
        name: "新規業者".to_owned(),
        role: "".to_owned(),
        docs: Vec::new(),
    };
    let ghost start = cs@;
    cs.push(c);
    assert(cs@.drop_last() =~= start);
}

/// Removes the contractor at `idx`, if there is one.
pub fn delete_contractor(cs: &mut Vec<Contractor>, idx: usize)
    requires
        crate::models::contractors_wf(old(cs)@),
    ensures
        crate::models::contractors_wf(final(cs)@),
        final(cs)@ == if idx < old(cs)@.len() {
            old(cs)@.remove(idx as int)
        } else {
            old(cs)@
        },
{
    if idx < cs.len() {
        let _ = cs.remove(idx);
    }
}

/// Replaces the contractor at `idx`, if there is one.
pub fn update_contractor(cs: &mut Vec<Contractor>, idx: usize, updated: Contractor)
    requires
        crate::models::contractors_wf(old(cs)@),
        updated.keys_distinct(),
    ensures
        crate::models::contractors_wf(final(cs)@),
        final(cs)@ == if idx < old(cs)@.len() {
            old(cs)@.update(idx as int, updated)
        } else {
            old(cs)@
        },
{
    if idx < cs.len() {
        cs.set(idx, updated);
    }
}

// ---------------------------------------------------------------------------
// Form values
// ---------------------------------------------------------------------------

/// A text field's value: none when empty.
pub open spec fn field_value(s: Seq<char>) -> Option<Seq<char>> {
    if s.len() == 0 {
        None
    } else {
        Some(s)
    }
}

fn field(s: &str) -> (r: Option<String>)
    ensures
        opt_string(r) == field_value(s@),
{
    if to_chars(s).len() == 0 {
        None
    } else {
        Some(s.to_owned())
    }
}

/// The document state the document form records: its fields (empty ones
/// as none), keeping what the form does not edit.
pub fn doc_status_from_form(
    submitted: bool,
    file: &str,
    url: &str,
    note: &str,
    valid_until: &str,
    original: &DocStatus,
) -> (r: DocStatus)
    ensures
        r.status == submitted,
        opt_string(r.file) == field_value(file@),
        opt_string(r.url) == field_value(url@),
        opt_string(r.note) == field_value(note@),
        opt_string(r.valid_until) == field_value(valid_until@),
        opt_string(r.valid_from) == opt_string(original.valid_from),
        opt_string(r.last_checked) == opt_string(original.last_checked),
        match (r.check_result, original.check_result) {
            (Some(a), Some(b)) => a.same_as(b),
            (None, None) => true,
            _ => false,
        },
{
    DocStatus {
        status: submitted,
        file: field(file),
        url: field(url),
        note: field(note),
        valid_from: match &original.valid_from {
            Some(v) => Some(v.clone()),
            None => None,
        },
        valid_until: field(valid_until),
        check_result: match &original.check_result {
            Some(c) => Some(c.clone()),
            None => None,
        },
        last_checked: match &original.last_checked {
            Some(v) => Some(v.clone()),
            None => None,
        },
    }
}

/// The project-wide document the form for `label` records.
pub fn doc_link_from_form(label: &str, url: &str, submitted: bool) -> (r: DocLink)
    ensures
        r.name@ == label@,
        opt_string(r.url) == field_value(url@),
        r.status == submitted,
{
    DocLink { name: label.to_owned(), url: field(url), status: submitted }
}

/// The CSS class of the editor's save message: an error when it mentions
/// one.
pub fn save_message_class(message: &str) -> (r: &'static str)
    ensures
        r@ == if has_sub(message@, "エラー"@) {
            "error"@
        } else {
            "success"@
        },
{
    if contains_str(&to_chars(message), "エラー") {
        "error"
    } else {
        "success"
    }
}

/// The message the project editor shows after a save: `None` when no sheet
/// is connected (the project was only cached), else the sheet's reply.
pub open spec fn editor_save_message_of(reply: Option<Result<Seq<char>, Seq<char>>>) -> Seq<char> {
    match reply {
        None => "ローカルに保存しました（シート未接続）"@,
        Some(Ok(_)) => "保存しました"@,
        Some(Err(e)) => "保存エラー: "@ + e,
    }
}

/// The message shown after the project editor saved; `reply` is `None`
/// when no sheet is connected, else what saving to the sheet returned.
pub fn editor_save_message(reply: Option<&Result<String, String>>) -> (r: String)
    ensures
        r@ == editor_save_message_of(
            match reply {
                None => None,
                Some(Ok(t)) => Some(Ok(t@)),
                Some(Err(e)) => Some(Err(e@)),
            },
        ),
{
    match reply {
        None => "ローカルに保存しました（シート未接続）".to_string(),
        Some(Ok(_)) => "保存しました".to_string(),
        Some(Err(e)) => {
            let mut v: Vec<char> = Vec::new();
            extend_str(&mut v, "保存エラー: ");
            extend_str(&mut v, e.as_str());
            from_chars(&v)
        },
    }
}

/// When no character of `s` is the first of `p`, `p` does not occur in `s`.
proof fn lemma_absent_first_char(s: Seq<char>, p: Seq<char>)
    requires
        p.len() > 0,
        forall|i: int| 0 <= i < s.len() ==> s[i] != p[0],
    ensures
        !has_sub(s, p),
{
    assert forall|i: int| !occurs_at(s, p, i) by {
        if occurs_at(s, p, i) {
            assert(s.subrange(i, i + p.len())[0] == s[i]);
        }
    }
}

/// The editor's save message is shown as an error exactly when saving to
/// the sheet failed.
pub proof fn lemma_save_message_class(reply: Option<Result<Seq<char>, Seq<char>>>)
    ensures
        has_sub(editor_save_message_of(reply), "エラー"@) <==> (reply matches Some(Err(_))),
{
    reveal_strlit("エラー");
    reveal_strlit("ローカルに保存しました（シート未接続）");
    reveal_strlit("保存しました");
    reveal_strlit("保存エラー: ");
    match reply {
        None => {
            lemma_absent_first_char("ローカルに保存しました（シート未接続）"@, "エラー"@);
        },
        Some(Ok(_)) => {
            lemma_absent_first_char("保存しました"@, "エラー"@);
        },
        Some(Err(e)) => {
            let m = "保存エラー: "@ + e;
            assert(m.subrange(2, 5) =~= "エラー"@);
            assert(occurs_at(m, "エラー"@, 2));
        },
    }
}

} // verus!
