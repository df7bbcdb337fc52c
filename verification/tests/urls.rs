use sekou_taisei::context_menu;
use sekou_taisei::dashboard;
use sekou_taisei::models::{detect_file_type, DocFileType};
use sekou_taisei::pdf_viewer::extract_drive_file_id;
use sekou_taisei::spreadsheet_viewer::{
    build_drive_preview_url, build_sheets_embed_url, extract_gid, extract_spreadsheet_id,
    extract_spreadsheet_info,
};

#[test]
fn file_types_of_urls() {
    assert_eq!(detect_file_type("https://docs.google.com/spreadsheets/d/X/edit"), DocFileType::GoogleSpreadsheet);
    assert_eq!(detect_file_type("https://docs.google.com/spreadsheets/d/X/edit?rtpof=true"), DocFileType::Excel);
    assert_eq!(detect_file_type("https://docs.google.com/document/d/X/edit"), DocFileType::GoogleDoc);
    assert_eq!(detect_file_type("https://drive.google.com/file/d/X/view"), DocFileType::Pdf);
    assert_eq!(detect_file_type("https://drive.google.com/file/d/X/view?usp=drivesdk&type=xlsx"), DocFileType::Excel);
    assert_eq!(detect_file_type("https://drive.google.com/file/d/X/view?mime=image/png"), DocFileType::Image);
    assert_eq!(detect_file_type("https://example.com/a.PDF"), DocFileType::Pdf);
    assert_eq!(detect_file_type("https://example.com/a.jpeg"), DocFileType::Image);
    assert_eq!(detect_file_type("https://example.com/a.txt"), DocFileType::Unknown);
}

#[test]
fn spreadsheet_ids_and_sheets() {
    let edit = "https://docs.google.com/spreadsheets/d/ABC123/edit?usp=sharing";
    let hash = "https://docs.google.com/spreadsheets/d/ABC123/edit#gid=456";
    let query = "https://docs.google.com/spreadsheets/d/ABC123/view?gid=789&other=param";
    assert_eq!(extract_spreadsheet_id(edit), Some("ABC123".to_string()));
    assert_eq!(extract_gid(edit), None);
    assert_eq!(extract_gid(hash), Some("456".to_string()));
    assert_eq!(extract_gid(query), Some("789".to_string()));
    assert_eq!(extract_gid("https://x/?a=1&gid=12b"), Some("12".to_string()));
    assert_eq!(extract_gid("https://x/#gid=abc&gid=5"), Some("5".to_string()));
    assert_eq!(
        extract_spreadsheet_info(hash),
        Some(("ABC123".to_string(), Some("456".to_string())))
    );
    assert_eq!(extract_spreadsheet_info("https://example.com/"), None);
    assert_eq!(extract_spreadsheet_id("https://x/d/?q"), None);
    assert_eq!(extract_spreadsheet_id("https://x/d/ID9#frag"), Some("ID9".to_string()));
}

#[test]
fn embed_and_preview_urls() {
    assert_eq!(
        build_sheets_embed_url("ABC123", Some("456")),
        "https://docs.google.com/spreadsheets/d/ABC123/preview?gid=456"
    );
    assert_eq!(
        build_sheets_embed_url("ABC123", None),
        "https://docs.google.com/spreadsheets/d/ABC123/preview"
    );
    assert_eq!(build_drive_preview_url("F1"), "https://drive.google.com/file/d/F1/preview");
}

#[test]
fn drive_file_ids() {
    assert_eq!(
        extract_drive_file_id("https://drive.google.com/file/d/ABC/view?usp=sharing"),
        Some("ABC".to_string())
    );
    assert_eq!(extract_drive_file_id("https://drive.google.com/file/d/ABC?x=1"), Some("ABC".to_string()));
    assert_eq!(extract_drive_file_id("https://drive.google.com/file/d//view"), None);
    assert_eq!(extract_drive_file_id("https://drive.google.com/open?id=ABC"), None);
}

#[test]
fn dashboard_file_ids() {
    assert_eq!(
        dashboard::extract_file_id("https://drive.google.com/file/d/ABC123/view"),
        Some("ABC123".to_string())
    );
    assert_eq!(dashboard::extract_file_id("https://docs.google.com/document/d/DOC9"), Some("DOC9".to_string()));
    assert_eq!(dashboard::extract_file_id("https://x.com/open?id=XYZ&usp=1"), Some("XYZ".to_string()));
    assert_eq!(dashboard::extract_file_id("https://example.com/"), None);
}

#[test]
fn context_menu_file_ids() {
    assert_eq!(
        context_menu::extract_file_id("https://drive.google.com/file/d/ABC/view"),
        Some("ABC".to_string())
    );
    assert_eq!(context_menu::extract_file_id("https://x.com/open?id=XYZ"), None);
}
