use sekou_taisei::dashboard::{CheckMode, CheckStatus};
use sekou_taisei::dashboard_state::{
    message_kind, record_check_result, DashboardAction, DashboardEvent, DashboardState, MessageKind,
};
use sekou_taisei::models::{CheckResultData, Contractor, DocStatus, ViewMode};

fn doc(status: bool) -> DocStatus {
    DocStatus {
        status,
        file: None,
        url: None,
        note: None,
        valid_from: None,
        valid_until: None,
        check_result: None,
        last_checked: None,
    }
}

fn result(status: &str) -> CheckResultData {
    CheckResultData { status: status.to_string(), summary: "s".to_string(), items: vec![], missing_fields: vec![] }
}

#[test]
fn message_kinds() {
    assert_eq!(message_kind("apikey-setup-complete"), Some(MessageKind::ApiKeySetupComplete));
    assert_eq!(message_kind("ai-check-result"), Some(MessageKind::CheckResult));
    assert_eq!(message_kind("ai-check-cancel"), Some(MessageKind::Cancelled));
    assert_eq!(message_kind("back"), Some(MessageKind::Cancelled));
    assert_eq!(message_kind("other"), None);
}

#[test]
fn a_session_of_the_dashboard() {
    let mut s = DashboardState::new(false);
    assert_eq!(s.step(DashboardEvent::ExistenceCheck), DashboardAction::Nothing);
    assert_eq!(s.check_mode, CheckMode::Inactive);
    assert_eq!(s.step(DashboardEvent::ExportJson), DashboardAction::Nothing);

    s.step(DashboardEvent::ToggleMenu);
    assert!(s.menu_open);
    s.step(DashboardEvent::NewProject);
    assert!(!s.menu_open);
    assert!(s.edit_mode);
    let p = s.project.as_ref().unwrap();
    assert_eq!(p.project_name, "新規工事");
    assert_eq!(p.contractors[0].id, "prime");
    assert_eq!(p.contractors[0].name, "元請業者");

    s.project.as_mut().unwrap().contractors[0].docs.push(("01_建設業許可".to_string(), doc(false)));
    s.step(DashboardEvent::ExistenceCheck);
    assert_eq!(s.check_mode, CheckMode::Existence);
    assert_eq!(s.check_results.len(), 1);
    assert_eq!(s.check_results[0].status, CheckStatus::Error);

    s.step(DashboardEvent::ClearCheckResults);
    assert_eq!(s.check_mode, CheckMode::Inactive);
    assert!(s.check_results.is_empty());

    s.step(DashboardEvent::ToggleEditMode);
    assert!(!s.edit_mode);
    s.step(DashboardEvent::ToggleOcrViewer);
    assert!(matches!(s.view_mode, ViewMode::OcrViewer));
    s.step(DashboardEvent::ToggleOcrViewer);
    assert!(matches!(s.view_mode, ViewMode::Dashboard));

    assert_eq!(s.step(DashboardEvent::ExportJson), DashboardAction::DownloadJson);

    let action = s.step(DashboardEvent::CheckResultReceived {
        contractor: Some(" 元請業者 ".to_string()),
        doc_key: Some("01_建設業許可 ".to_string()),
        result: Some(result("warning")),
        now: "2024-05-01T00:00:00Z".to_string(),
    });
    assert_eq!(action, DashboardAction::SaveAndSync);
    let d = &s.project.as_ref().unwrap().contractors[0].docs[0].1;
    assert_eq!(d.check_result.as_ref().unwrap().status, "warning");
    assert_eq!(d.last_checked, Some("2024-05-01T00:00:00Z".to_string()));

    assert_eq!(
        s.step(DashboardEvent::ApiKeySetupComplete { api_key_valid: true, sheet_connected: true }),
        DashboardAction::SaveApiKeyToSheet
    );
    assert!(s.api_connected);

    s.step(DashboardEvent::DateCheck { today: "2024-05-01".to_string() });
    assert_eq!(s.check_mode, CheckMode::Date);
    assert!(s.check_results.is_empty());

    assert_eq!(s.step(DashboardEvent::ClearCache), DashboardAction::ClearCache);
    assert!(s.project.is_none());
}

#[test]
fn a_result_for_an_unknown_document_changes_nothing() {
    let mut p = sekou_taisei::models::ProjectData {
        project_name: "p".to_string(),
        client: String::new(),
        period: String::new(),
        period_start: None,
        period_end: None,
        site_agent: None,
        chief_engineer: None,
        project_docs: sekou_taisei::models::ProjectDocs::default(),
        contractors: vec![Contractor {
            id: "c".to_string(),
            name: "A社".to_string(),
            role: String::new(),
            docs: vec![("k".to_string(), doc(true))],
        }],
        contracts: vec![],
    };
    assert!(!record_check_result(&mut p, "A社", "other", result("ok"), "t"));
    assert!(!record_check_result(&mut p, "B社", "k", result("ok"), "t"));
    assert!(p.contractors[0].docs[0].1.check_result.is_none());
    assert!(record_check_result(&mut p, "A社", "k", result("ok"), "t"));
    assert!(p.contractors[0].docs[0].1.check_result.is_some());
}
