use sekou_taisei::check_panel::{item_counts, item_icon, panel_title, panel_visible, results_with_status, status_view};
use sekou_taisei::dashboard::{CheckMode, CheckResult, CheckStatus};
use sekou_taisei::gas::{fetch_outcome, gas_param, gas_share_url, has_encrypted_key, save_outcome};
use sekou_taisei::models::{CheckItem, CheckResultData, DocLink, ProjectData, ProjectDocs};
use sekou_taisei::pdf_viewer::{is_local_path, viewer_item_icon, viewer_message, viewer_page, viewer_status};
use sekou_taisei::models::ViewMode;
use sekou_taisei::project_view::{period_text, project_doc_mark, project_progress};
use sekou_taisei::spreadsheet_viewer::{can_ai_check, sheet_check_page, viewer_embed_url};

#[test]
fn local_paths() {
    assert!(is_local_path("H:\\docs\\a.pdf"));
    assert!(is_local_path("/Users/me/a.pdf"));
    assert!(is_local_path("/home/me/a.pdf"));
    assert!(!is_local_path("https://drive.google.com/file/d/X/view"));
}

#[test]
fn pdf_viewer_pages_and_messages() {
    assert_eq!(
        viewer_page("F1", "%E8%A8%B1", "A", "https%3A%2F%2Fg"),
        "editor/index.html?mode=view&fileId=F1&docType=%E8%A8%B1&contractor=A&gasUrl=https%3A%2F%2Fg"
    );
    let url = "https://drive.google.com/file/d/F1/view";
    assert!(matches!(viewer_message("viewer-back", "A", "d", url, "k", "c"), Some(ViewMode::Dashboard)));
    match viewer_message("viewer-edit", "A", "d", url, "k", "c") {
        Some(ViewMode::PdfEditor { original_url, .. }) => assert_eq!(original_url, url),
        _ => panic!("expected the editor"),
    }
    match viewer_message("viewer-check", "A", "d", url, "k", "c") {
        Some(ViewMode::AiChecker { file_id, doc_key, .. }) => {
            assert_eq!(file_id, "F1");
            assert_eq!(doc_key, "k");
        }
        _ => panic!("expected the checker"),
    }
    assert!(viewer_message("viewer-check", "A", "d", "https://x", "k", "c").is_none());
    assert!(viewer_message("other", "A", "d", url, "k", "c").is_none());
}

#[test]
fn spreadsheet_viewer_pages() {
    assert_eq!(
        viewer_embed_url("https://docs.google.com/spreadsheets/d/S1/edit#gid=7"),
        "https://docs.google.com/spreadsheets/d/S1/preview?gid=7"
    );
    assert_eq!(
        viewer_embed_url("https://docs.google.com/spreadsheets/d/S1/edit?rtpof=true"),
        "https://drive.google.com/file/d/S1/preview"
    );
    assert_eq!(viewer_embed_url("https://example.com/x.xlsx"), "https://example.com/x.xlsx");
    assert_eq!(viewer_embed_url("C:\\x.xlsx"), "");
    assert!(can_ai_check("https://docs.google.com/spreadsheets/d/S1/edit", "https://g"));
    assert!(!can_ai_check("https://docs.google.com/spreadsheets/d/S1/edit", ""));
    assert_eq!(
        sheet_check_page("S1", "d", "c", "g", "ci", "k", "p", Some("7"), true),
        "editor/index.html?mode=spreadsheet-check&spreadsheetId=S1&docType=d&contractor=c&gasUrl=g&contractorId=ci&docKey=k&projectName=p&gid=7&isExcel=true&fileId=S1"
    );
    assert_eq!(
        sheet_check_page("S1", "d", "c", "g", "ci", "k", "p", None, false),
        "editor/index.html?mode=spreadsheet-check&spreadsheetId=S1&docType=d&contractor=c&gasUrl=g&contractorId=ci&docKey=k&projectName=p"
    );
}

fn project(start: Option<&str>, end: Option<&str>) -> ProjectData {
    ProjectData {
        project_name: "p".to_string(),
        client: String::new(),
        period: "令和6年度".to_string(),
        period_start: start.map(|s| s.to_string()),
        period_end: end.map(|s| s.to_string()),
        site_agent: None,
        chief_engineer: None,
        project_docs: ProjectDocs::default(),
        contractors: vec![],
        contracts: vec![],
    }
}

#[test]
fn project_view_texts() {
    assert_eq!(period_text(&project(Some("2024-04-01"), Some("2025-03-31"))), "2024-04-01〜2025-03-31");
    assert_eq!(period_text(&project(Some("2024-04-01"), None)), "2024-04-01〜");
    assert_eq!(period_text(&project(None, Some(""))), "令和6年度");
    assert_eq!(period_text(&project(Some(""), Some("2025-03-31"))), "〜2025-03-31");
    assert_eq!(project_progress(&project(None, None)), 0);
    assert_eq!(project_doc_mark(&None), "−");
    assert_eq!(project_doc_mark(&Some(DocLink { name: "n".to_string(), url: None, status: false })), "○");
    assert_eq!(project_doc_mark(&Some(DocLink { name: "n".to_string(), url: None, status: true })), "✓");
}

#[test]
fn check_panels() {
    assert_eq!(status_view("ok"), ("status-ok", "✓", "問題なし"));
    assert_eq!(status_view("x"), ("status-unknown", "?", "不明"));
    assert_eq!(item_icon("info"), "ℹ");
    assert_eq!(item_icon("x"), "•");
    let item = |t: &str| CheckItem { item_type: t.to_string(), message: String::new() };
    let r = CheckResultData {
        status: "warning".to_string(),
        summary: String::new(),
        items: vec![item("ok"), item("warning"), item("ok"), item("info")],
        missing_fields: vec![],
    };
    assert_eq!(item_counts(&r), (2, 1, 0));
    assert_eq!(panel_title(CheckMode::Date), "日付チェック結果");
    assert_eq!(panel_title(CheckMode::Inactive), "");
    let res = |s: CheckStatus| CheckResult {
        contractor_name: "A".to_string(),
        doc_name: "d".to_string(),
        status: s,
        message: String::new(),
    };
    let results = vec![res(CheckStatus::Passed), res(CheckStatus::Error), res(CheckStatus::Passed)];
    assert_eq!(results_with_status(&results, CheckStatus::Passed), vec![0, 2]);
    assert_eq!(results_with_status(&results, CheckStatus::Warning), Vec::<usize>::new());
    assert!(panel_visible(CheckMode::Existence, &results));
    assert!(!panel_visible(CheckMode::Inactive, &results));
}

#[test]
fn sheet_service_helpers() {
    assert_eq!(gas_param("?gas=https%3A%2F%2Fs"), Some("https%3A%2F%2Fs".to_string()));
    assert_eq!(gas_param("?x=1"), None);
    assert_eq!(gas_share_url("https:", "h.example", "/app/", "E"), "https://h.example/app/?gas=E");
    assert!(has_encrypted_key(Some("abc")));
    assert!(!has_encrypted_key(Some("")));
    assert!(!has_encrypted_key(None));
    assert_eq!(save_outcome(false, 500, None), Err("保存エラー: 500".to_string()));
    assert_eq!(save_outcome(true, 200, None), Ok("保存完了".to_string()));
    assert_eq!(save_outcome(true, 200, Some("t".to_string())), Ok("t".to_string()));
    assert_eq!(fetch_outcome(false, 404, None).unwrap_err(), "APIエラー: 404");
    assert_eq!(fetch_outcome(true, 200, None).unwrap_err(), "プロジェクトデータが空です");
    assert!(fetch_outcome(true, 200, Some(project(None, None))).is_ok());
}

#[test]
fn viewer_result_panel_labels() {
    assert_eq!(viewer_status("ok"), ("status-ok", "✓ OK"));
    assert_eq!(viewer_status("warning"), ("status-warning", "⚠ 警告"));
    assert_eq!(viewer_status("error"), ("status-error", "✗ エラー"));
    assert_eq!(viewer_status("other"), ("status-unknown", "? 不明"));
    assert_eq!(viewer_item_icon("error"), "✗");
    assert_eq!(viewer_item_icon("info"), "•");
}
