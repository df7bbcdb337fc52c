use sekou_taisei::context_menu::{
    adopted_file, fit_coordinate, fixed_version_url, has_check_result, latest_file_request,
    menu_items, menu_position, set_doc_url, update_doc_request, LatestFileReply,
};
use sekou_taisei::contractor_card::{
    card_summary, check_badge, doc_click_action, doc_item_class, doc_order, file_type_badge,
    DocOpen,
};
use sekou_taisei::dashboard::{CheckMode, CheckResult, CheckStatus};
use sekou_taisei::models::{CheckResultData, Contractor, DocStatus, ProjectData, ProjectDocs, ViewMode};
use sekou_taisei::tooltip::{hover_tooltip, status_line, tooltip_position};

fn result(status: &str) -> Option<CheckResultData> {
    Some(CheckResultData {
        status: status.to_string(),
        summary: String::new(),
        items: vec![],
        missing_fields: vec![],
    })
}

fn doc(status: bool, url: Option<&str>, check: Option<CheckResultData>) -> DocStatus {
    DocStatus {
        status,
        file: None,
        url: url.map(|s| s.to_string()),
        note: None,
        valid_from: None,
        valid_until: None,
        check_result: check,
        last_checked: None,
    }
}

fn contractor() -> Contractor {
    Contractor {
        id: "c1".to_string(),
        name: "A社".to_string(),
        role: "一次".to_string(),
        docs: vec![
            ("03_c".to_string(), doc(true, Some("https://x/a.pdf"), result("warning"))),
            ("01_a".to_string(), doc(false, None, None)),
            ("02_b".to_string(), doc(true, None, result("error"))),
            ("04_d".to_string(), doc(true, None, result("ok"))),
        ],
    }
}

#[test]
fn card_counts() {
    let s = card_summary(&contractor());
    assert_eq!(s.total, 4);
    assert_eq!(s.complete, 3);
    assert_eq!(s.checked, 3);
    assert_eq!(s.warnings, 1);
    assert_eq!(s.errors, 1);
}

#[test]
fn documents_in_key_order() {
    assert_eq!(doc_order(&contractor().docs), vec![1, 2, 0, 3]);
    assert_eq!(doc_order(&vec![]), Vec::<usize>::new());
}

#[test]
fn badges_and_classes() {
    assert_eq!(check_badge("ok"), ("✓", "badge-ok", "チェック済み"));
    assert_eq!(check_badge("error"), ("!", "badge-error", "要対応"));
    assert_eq!(check_badge("other"), ("?", "badge-unknown", "不明"));
    assert_eq!(file_type_badge("https://x/a.pdf"), Some(("PDF", "file-badge-pdf")));
    assert_eq!(file_type_badge("https://docs.google.com/spreadsheets/d/X"), Some(("シート", "file-badge-sheet")));
    assert_eq!(file_type_badge("https://x/a.txt"), None);
    assert_eq!(doc_item_class(true, true, Some("badge-ok")), "doc-item ok has-link clickable badge-ok");
    assert_eq!(doc_item_class(false, false, None), "doc-item missing  ");
    assert_eq!(status_line("warning"), ("⚠ 要確認", "status-warning"));
    assert_eq!(status_line(""), ("? 不明", "status-unknown"));
}

#[test]
fn clicks_open_the_right_viewer() {
    match doc_click_action("A社", "許可証", "https://x/a.pdf", "01_a", "c1") {
        DocOpen::Viewer(ViewMode::PdfViewer { contractor, doc_type, url, doc_key, contractor_id }) => {
            assert_eq!(contractor, "A社");
            assert_eq!(doc_type, "許可証");
            assert_eq!(url, "https://x/a.pdf");
            assert_eq!(doc_key, "01_a");
            assert_eq!(contractor_id, "c1");
        }
        _ => panic!("expected the PDF viewer"),
    }
    match doc_click_action("A社", "名簿", "https://docs.google.com/spreadsheets/d/X/edit", "k", "c1") {
        DocOpen::Viewer(ViewMode::SpreadsheetViewer { url, .. }) => {
            assert_eq!(url, "https://docs.google.com/spreadsheets/d/X/edit")
        }
        _ => panic!("expected the spreadsheet viewer"),
    }
    match doc_click_action("A社", "台帳", "H:\\docs\\list.xlsx", "k", "c1") {
        DocOpen::NewTab(u) => assert_eq!(u, "H:\\docs\\list.xlsx"),
        _ => panic!("expected Excel files to open in a new tab"),
    }
    match doc_click_action("A社", "x", "https://example.com/page", "k", "c1") {
        DocOpen::NewTab(u) => assert_eq!(u, "https://example.com/page"),
        _ => panic!("expected a new tab"),
    }
}

#[test]
fn popups_stay_inside_the_viewport() {
    assert_eq!(menu_position(10, 10, 800, 600), (10, 10));
    assert_eq!(menu_position(700, 500, 800, 600), (500, 350));
    assert_eq!(menu_position(100, 100, 150, 120), (0, 0));
    assert_eq!(tooltip_position(600, 400, 800, 600), (280, 100));
    assert_eq!(fit_coordinate(5, 10, 10), 0);
}

#[test]
fn menu_items_for_documents() {
    let results = vec![CheckResult {
        contractor_name: "A社".to_string(),
        doc_name: "x".to_string(),
        status: CheckStatus::Error,
        message: "m".to_string(),
    }];
    assert!(has_check_result(CheckMode::Existence, &results, "A社"));
    assert!(!has_check_result(CheckMode::Inactive, &results, "A社"));
    assert!(!has_check_result(CheckMode::Date, &results, "B社"));

    let sheet = menu_items(Some("https://docs.google.com/spreadsheets/d/X/edit"), true);
    assert!(sheet.show_check_result && sheet.open && sheet.auto_fix && sheet.adopt_fixed_version);
    let pdf = menu_items(Some("https://x/a.pdf"), false);
    assert!(!pdf.show_check_result && pdf.open && !pdf.auto_fix && pdf.adopt_fixed_version);
    let none = menu_items(None, false);
    assert!(!none.open && !none.auto_fix && !none.adopt_fixed_version);
}

#[test]
fn adopting_a_fixed_version() {
    assert_eq!(
        latest_file_request("https://gas/exec", "F%201"),
        "https://gas/exec?action=getLatestFile&fileId=F%201"
    );
    assert_eq!(
        update_doc_request("https://gas/exec", "c1", "01_a", "N2"),
        "https://gas/exec?action=updateDocUrl&contractorId=c1&docKey=01_a&newFileId=N2"
    );
    let reply = |error: Option<&str>, fixed: bool, id: Option<&str>, name: Option<&str>| LatestFileReply {
        error: error.map(|s| s.to_string()),
        is_fixed_version: fixed,
        file_id: id.map(|s| s.to_string()),
        file_name: name.map(|s| s.to_string()),
    };
    assert_eq!(adopted_file(&reply(Some("boom"), true, Some("N"), None)), Err("boom".to_string()));
    assert!(adopted_file(&reply(None, false, Some("N"), None)).unwrap_err().starts_with("修正版ファイルが見つかりません。"));
    assert_eq!(
        adopted_file(&reply(None, true, None, None)),
        Err("新しいファイルIDが見つかりません".to_string())
    );
    assert_eq!(
        adopted_file(&reply(None, true, Some("N"), None)),
        Ok(("N".to_string(), "修正版ファイル".to_string()))
    );
    assert_eq!(
        fixed_version_url("N", "名簿_修正.XLSX"),
        "https://drive.google.com/file/d/N/view?usp=drivesdk&type=xlsx"
    );
    assert_eq!(
        fixed_version_url("N", "名簿"),
        "https://docs.google.com/spreadsheets/d/N/edit?usp=drivesdk"
    );
}

#[test]
fn the_adopted_url_is_recorded_on_its_document() {
    let mut p = ProjectData {
        project_name: "p".to_string(),
        client: String::new(),
        period: String::new(),
        period_start: None,
        period_end: None,
        site_agent: None,
        chief_engineer: None,
        project_docs: ProjectDocs::default(),
        contractors: vec![contractor(), Contractor { id: "c2".to_string(), ..contractor() }],
        contracts: vec![],
    };
    set_doc_url(&mut p, "c1", "02_b", "https://new");
    assert_eq!(p.contractors[0].docs[2].1.url, Some("https://new".to_string()));
    assert_eq!(p.contractors[0].docs[1].1.url, None);
    assert_eq!(p.contractors[1].docs[2].1.url, None);
    set_doc_url(&mut p, "zz", "02_b", "https://other");
    assert_eq!(p.contractors[0].docs[2].1.url, Some("https://new".to_string()));
}

#[test]
fn hovering_a_document_opens_its_tooltip() {
    let doc = DocStatus {
        status: true,
        file: None,
        url: None,
        note: None,
        valid_from: None,
        valid_until: None,
        check_result: Some(CheckResultData {
            status: "warning".to_string(),
            summary: "s".to_string(),
            items: vec![],
            missing_fields: vec![],
        }),
        last_checked: Some("2024-05-01 10:00".to_string()),
    };
    let t = hover_tooltip(10, 20, "A社", "01_許可", " 許可", &doc);
    assert!(t.visible);
    assert_eq!((t.x, t.y), (10, 20));
    assert_eq!(t.contractor_name, "A社");
    assert_eq!(t.doc_key, "01_許可");
    assert_eq!(t.doc_label, " 許可");
    assert_eq!(t.check_result.unwrap().status, "warning");
    assert_eq!(t.last_checked.as_deref(), Some("2024-05-01 10:00"));
    assert_eq!(t.hover_timer_id, None);
}

#[test]
fn adopted_files_are_detected_by_their_new_url() {
    let x = fixed_version_url("AbC_1-x", "Report.XLSX");
    assert_eq!(sekou_taisei::models::detect_file_type(&x), sekou_taisei::models::DocFileType::Excel);
    let s = fixed_version_url("AbC_1-x", "名簿");
    assert_eq!(sekou_taisei::models::detect_file_type(&s), sekou_taisei::models::DocFileType::GoogleSpreadsheet);
}
