use sekou_taisei::editors::{
    add_contractor, add_standard_doc, delete_contractor, doc_link_from_form, doc_status_from_form,
    editor_save_message, remove_doc, save_message_class, set_doc, standard_doc, update_contractor,
};
use sekou_taisei::models::{CheckResultData, Contractor, DocStatus};

fn doc(status: bool) -> DocStatus {
    DocStatus {
        status,
        file: None,
        url: None,
        note: None,
        valid_from: None,
        valid_until: None,
        check_result: None,
        last_checked: None,
    }
}

#[test]
fn standard_documents_are_requested_in_order() {
    let mut docs: Vec<(String, DocStatus)> = vec![("01_建設業許可".to_string(), doc(true))];
    add_standard_doc(&mut docs);
    assert_eq!(docs.len(), 2);
    assert_eq!(docs[1].0, "02_事業所番号");
    assert!(!docs[1].1.status);
    assert_eq!(docs[1].1.note, Some("要依頼".to_string()));
    assert_eq!(standard_doc(3), ("041_現場代理人資格", "現場代理人資格"));

    let mut all: Vec<(String, DocStatus)> = (0..11).map(|i| (standard_doc(i).0.to_string(), doc(true))).collect();
    add_standard_doc(&mut all);
    assert_eq!(all.len(), 11);
}

#[test]
fn documents_are_set_and_removed_by_key() {
    let mut docs: Vec<(String, DocStatus)> = vec![("a".to_string(), doc(false)), ("b".to_string(), doc(false))];
    set_doc(&mut docs, "b", doc(true));
    assert_eq!(docs.len(), 2);
    assert!(docs[1].1.status);
    set_doc(&mut docs, "c", doc(true));
    assert_eq!(docs.len(), 3);
    assert_eq!(docs[2].0, "c");
    remove_doc(&mut docs, "a");
    assert_eq!(docs.iter().map(|d| d.0.as_str()).collect::<Vec<_>>(), vec!["b", "c"]);
    remove_doc(&mut docs, "zz");
    assert_eq!(docs.len(), 2);
}

#[test]
fn contractors_are_added_replaced_and_removed() {
    let mut cs: Vec<Contractor> = Vec::new();
    add_contractor(&mut cs);
    add_contractor(&mut cs);
    assert_eq!(cs[0].id, "contractor_1");
    assert_eq!(cs[1].id, "contractor_2");
    assert_eq!(cs[1].name, "新規業者");
    update_contractor(&mut cs, 0, Contractor { id: "x".to_string(), name: "X社".to_string(), role: "二次".to_string(), docs: vec![] });
    assert_eq!(cs[0].name, "X社");
    update_contractor(&mut cs, 9, Contractor { id: "y".to_string(), name: "Y".to_string(), role: String::new(), docs: vec![] });
    assert_eq!(cs.len(), 2);
    delete_contractor(&mut cs, 0);
    assert_eq!(cs.len(), 1);
    assert_eq!(cs[0].id, "contractor_2");
    delete_contractor(&mut cs, 5);
    assert_eq!(cs.len(), 1);
}

#[test]
fn form_values() {
    let mut original = doc(false);
    original.valid_from = Some("2024-01-01".to_string());
    original.check_result = Some(CheckResultData {
        status: "ok".to_string(),
        summary: String::new(),
        items: vec![],
        missing_fields: vec![],
    });
    let d = doc_status_from_form(true, "", "https://u", "memo", "", &original);
    assert!(d.status);
    assert_eq!(d.file, None);
    assert_eq!(d.url, Some("https://u".to_string()));
    assert_eq!(d.note, Some("memo".to_string()));
    assert_eq!(d.valid_until, None);
    assert_eq!(d.valid_from, Some("2024-01-01".to_string()));
    assert!(d.check_result.is_some());

    let l = doc_link_from_form("施工体系図", "", true);
    assert_eq!(l.name, "施工体系図");
    assert_eq!(l.url, None);
    assert!(l.status);

    assert_eq!(save_message_class("保存エラー: 500"), "error");
    assert_eq!(save_message_class("保存しました"), "success");
}

#[test]
fn save_messages_and_their_class() {
    let none = editor_save_message(None);
    assert_eq!(none, "ローカルに保存しました（シート未接続）");
    assert_eq!(save_message_class(&none), "success");
    let ok = editor_save_message(Some(&Ok("2024-01-01".to_string())));
    assert_eq!(ok, "保存しました");
    assert_eq!(save_message_class(&ok), "success");
    let err = editor_save_message(Some(&Err("APIエラー: 500".to_string())));
    assert_eq!(err, "保存エラー: APIエラー: 500");
    assert_eq!(save_message_class(&err), "error");
}

fn lookup<'a>(docs: &'a [(String, DocStatus)], key: &str) -> Option<&'a DocStatus> {
    docs.iter().find(|d| d.0 == key).map(|d| &d.1)
}

#[test]
fn recorded_states_are_read_back_by_key() {
    let mut docs: Vec<(String, DocStatus)> = vec![("a".to_string(), doc(false)), ("b".to_string(), doc(false))];
    let mut d = doc(true);
    d.note = Some("n".to_string());
    set_doc(&mut docs, "a", d);
    assert_eq!(lookup(&docs, "a").unwrap().note, Some("n".to_string()));
    assert!(!lookup(&docs, "b").unwrap().status);
    remove_doc(&mut docs, "a");
    assert!(lookup(&docs, "a").is_none());
    assert!(!lookup(&docs, "b").unwrap().status);
}
