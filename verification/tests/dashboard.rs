use sekou_taisei::dashboard::{ai_check_page, clear_all_check_results, clear_check_result};
use sekou_taisei::dashboard::{
    add_days_to_date, check_api_key_exists, doc_label, format_timestamp, format_today,
    editor_message, hash_data_text, json_file_name, pdf_editor_page, run_date_check,
    run_existence_check, sync_outcome, CheckStatus, FieldType,
};
use sekou_taisei::encoding::encode_base64;
use sekou_taisei::models::ViewMode;
use sekou_taisei::models::{Contractor, DocStatus, ProjectData, ProjectDocs};
use sekou_taisei::project_view::doc_counts;

fn doc(status: bool, file: Option<&str>, url: Option<&str>, note: Option<&str>, until: Option<&str>) -> DocStatus {
    DocStatus {
        status,
        file: file.map(|s| s.to_string()),
        url: url.map(|s| s.to_string()),
        note: note.map(|s| s.to_string()),
        valid_from: None,
        valid_until: until.map(|s| s.to_string()),
        check_result: None,
        last_checked: None,
    }
}

fn project(docs: Vec<(&str, DocStatus)>) -> ProjectData {
    ProjectData {
        project_name: "現場".to_string(),
        client: String::new(),
        period: String::new(),
        period_start: None,
        period_end: None,
        site_agent: None,
        chief_engineer: None,
        project_docs: ProjectDocs::default(),
        contractors: vec![Contractor {
            id: "c1".to_string(),
            name: "A社".to_string(),
            role: "一次".to_string(),
            docs: docs.into_iter().map(|(k, d)| (k.to_string(), d)).collect(),
        }],
        contracts: vec![],
    }
}

#[test]
fn labels_drop_leading_numbers() {
    assert_eq!(doc_label("01_建設業許可"), " 建設業許可");
    assert_eq!(doc_label("insurance_card"), "insurance card");
    assert_eq!(doc_label("123"), "");
    assert_eq!(doc_label("٣x"), "x");
}

#[test]
fn existence_check_statuses() {
    let p = project(vec![
        ("01_許可証", doc(false, None, None, None, None)),
        ("02_保険", doc(true, Some("f.pdf"), None, None, None)),
        ("03_名簿", doc(true, None, Some("https://x"), None, None)),
        ("04_写真", doc(false, None, None, Some("再提出"), None)),
    ]);
    let r = run_existence_check(&p);
    assert_eq!(r.len(), 4);
    assert_eq!(r[0].contractor_name, "A社");
    assert_eq!(r[0].doc_name, " 許可証");
    assert_eq!(r[0].status, CheckStatus::Error);
    assert_eq!(r[0].message, "未提出");
    assert_eq!(r[1].status, CheckStatus::Warning);
    assert_eq!(r[1].message, "URLが未登録");
    assert_eq!(r[2].status, CheckStatus::Passed);
    assert_eq!(r[2].message, "OK");
    assert_eq!(r[3].message, "再提出");
}

#[test]
fn existence_check_reports_every_document_once() {
    let mut p = project(vec![
        ("01_許可証", doc(false, None, None, None, None)),
        ("02_保険", doc(true, Some("f.pdf"), None, None, None)),
    ]);
    p.contractors.push(Contractor {
        id: "c2".to_string(),
        name: "B社".to_string(),
        role: "二次".to_string(),
        docs: vec![("03_名簿".to_string(), doc(true, None, Some("https://x"), None, None))],
    });
    let r = run_existence_check(&p);
    let (total, complete) = doc_counts(&p);
    assert_eq!(r.len(), total);
    assert_eq!(total, 3);
    assert_eq!(complete, 2);
    assert_eq!(r[2].contractor_name, "B社");
}

#[test]
fn date_check_statuses() {
    let p = project(vec![
        ("a", doc(true, None, None, None, Some("2024-04-30"))),
        ("b", doc(true, None, None, None, Some("2024-05-20"))),
        ("c", doc(true, None, None, None, None)),
        ("d", doc(true, None, None, None, Some("2024-12-31"))),
        ("e", doc(true, None, None, None, Some("2024-06-01"))),
    ]);
    let r = run_date_check(&p, "2024-05-01");
    assert_eq!(r.len(), 4);
    assert_eq!(r[0].status, CheckStatus::Error);
    assert_eq!(r[0].message, "期限切れ: 2024-04-30");
    assert_eq!(r[1].status, CheckStatus::Warning);
    assert_eq!(r[1].message, "期限間近: 2024-05-20");
    assert_eq!(r[2].status, CheckStatus::Passed);
    assert_eq!(r[2].message, "有効期限: 2024-12-31");
    assert_eq!(r[3].status, CheckStatus::Warning);
}

#[test]
fn adding_days_in_thirty_day_months() {
    assert_eq!(add_days_to_date("2024-01-15", 30), "2024-02-15");
    assert_eq!(add_days_to_date("2024-12-20", 30), "2025-01-20");
    assert_eq!(add_days_to_date("2024-01-31", 30), "2024-03-01");
    assert_eq!(add_days_to_date("2024-05-01", 30), "2024-06-01");
    assert_eq!(add_days_to_date("2024-1-5", 0), "2024-01-05");
    assert_eq!(add_days_to_date("bad", 30), "bad");
    assert_eq!(add_days_to_date("2024-05", 30), "2024-05");
    assert_eq!(add_days_to_date("+7-2-3", 1), "0007-02-04");
}

#[test]
fn api_key_shape() {
    let good = format!("AIza{}", "x".repeat(35));
    assert!(check_api_key_exists(Some(&good)));
    assert!(!check_api_key_exists(Some(&good[..38])));
    assert!(!check_api_key_exists(Some(&format!("BIza{}", "x".repeat(35)))));
    assert!(!check_api_key_exists(None));
}

#[test]
fn field_types() {
    assert_eq!(FieldType::Date.input_type(), "date");
    assert_eq!(FieldType::Signature.input_type(), "text");
    assert_eq!(FieldType::Checkbox.input_type(), "checkbox");
    assert_eq!(FieldType::Date.placeholder(), "YYYY-MM-DD");
    assert_eq!(FieldType::Select.placeholder(), "選択してください");
    assert_eq!(FieldType::Checkbox.placeholder(), "");
}

#[test]
fn dates_and_names() {
    assert_eq!(format_today(2024, 5, 1), "2024-05-01");
    assert_eq!(format_timestamp(2024, 1, 2, 3, 4, 5), "20240102_030405");
    assert_eq!(json_file_name("My Project/2", "20240102_030405"), "My_Project-2_20240102_030405.json");
}

#[test]
fn pdf_editor_addresses() {
    assert_eq!(
        pdf_editor_page("https://drive.google.com/file/d/ABC/view", Some("https%3A%2F%2Fg")),
        "editor/index.html?fileId=ABC&gasUrl=https%3A%2F%2Fg"
    );
    assert_eq!(pdf_editor_page("https://drive.google.com/file/d/ABC/view", None), "editor/index.html");
    assert_eq!(pdf_editor_page("https://example.com/a.pdf", Some("g")), "editor/index.html");
    assert_eq!(editor_message("back"), Some(ViewMode::Dashboard));
    assert_eq!(editor_message("other"), None);
}

#[test]
fn project_data_in_the_address() {
    let json = "{\"project_name\":\"現場\"}";
    let hash = format!("#data={}", encode_base64(json).unwrap());
    assert_eq!(hash_data_text(&hash), Some(json.to_string()));
    assert_eq!(hash_data_text("#other=abc"), None);
    assert_eq!(hash_data_text("#data=!!!"), None);
}

#[test]
fn save_replies() {
    assert_eq!(sync_outcome(false, 500, None, None), Err("APIエラー: 500".to_string()));
    assert_eq!(sync_outcome(true, 200, Some("denied".to_string()), Some("t".to_string())), Err("denied".to_string()));
    assert_eq!(sync_outcome(true, 200, None, Some("2024-01-01".to_string())), Ok("2024-01-01".to_string()));
    assert_eq!(sync_outcome(true, 200, None, None), Ok("保存完了".to_string()));
}

#[test]
fn ai_check_address() {
    assert_eq!(
        ai_check_page("F1", "%E8%A8%B1%E5%8F%AF", "A%E7%A4%BE", "https%3A%2F%2Fg", "01_x", "c1"),
        "editor/index.html?mode=check&fileId=F1&docType=%E8%A8%B1%E5%8F%AF&contractor=A%E7%A4%BE&gasUrl=https%3A%2F%2Fg&docKey=01_x&contractorId=c1"
    );
}

fn checked(mut d: DocStatus) -> DocStatus {
    d.check_result = Some(sekou_taisei::models::CheckResultData {
        status: "ok".to_string(),
        summary: String::new(),
        items: vec![],
        missing_fields: vec![],
    });
    d.last_checked = Some("2024-01-01 09:00".to_string());
    d
}

#[test]
fn clearing_check_results() {
    let docs = vec![
        ("01_a", checked(doc(true, None, Some("https://x"), None, None))),
        ("02_b", checked(doc(false, None, None, Some("n"), None))),
    ];
    let mut p = project(docs.clone());
    clear_check_result(&mut p, "c1", "02_b");
    assert!(p.contractors[0].docs[0].1.check_result.is_some());
    assert!(p.contractors[0].docs[1].1.check_result.is_none());
    assert!(p.contractors[0].docs[1].1.last_checked.is_none());
    assert_eq!(p.contractors[0].docs[1].1.note, Some("n".to_string()));
    clear_check_result(&mut p, "nobody", "01_a");
    assert!(p.contractors[0].docs[0].1.check_result.is_some());

    let mut q = project(docs);
    clear_all_check_results(&mut q);
    for (_, d) in &q.contractors[0].docs {
        assert!(d.check_result.is_none() && d.last_checked.is_none());
    }
    assert_eq!(q.contractors[0].docs[0].1.url, Some("https://x".to_string()));
    assert_eq!(q.project_name, "現場");
}
