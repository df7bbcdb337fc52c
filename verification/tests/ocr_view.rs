use sekou_taisei::ocr_view::{
    coords_label, draw_plan, is_marker, pixel_detail, token_item_class, token_style, PixelCoords,
    TokenStyle,
};

fn texts(v: &[&str]) -> Vec<String> {
    v.iter().map(|s| s.to_string()).collect()
}

#[test]
fn marker_characters() {
    for t in ["御", "中", "令", "和", "年", "月", "日", "殿", "様"] {
        assert!(is_marker(t));
    }
    assert!(!is_marker("令和"));
    assert!(!is_marker("株式会社"));
    assert!(!is_marker(""));
}

#[test]
fn only_selected_and_markers_are_drawn_when_boxes_are_hidden() {
    let t = texts(&["株式会社", "御", "工事", "年"]);
    let plan = draw_plan(&t, false, Some(2));
    assert_eq!(plan, vec![(1, TokenStyle::Marker), (2, TokenStyle::Selected), (3, TokenStyle::Marker)]);
    let plan = draw_plan(&t, false, None);
    assert_eq!(plan, vec![(1, TokenStyle::Marker), (3, TokenStyle::Marker)]);
}

#[test]
fn all_tokens_are_drawn_when_boxes_are_shown() {
    let t = texts(&["株式会社", "御", "工事"]);
    let plan = draw_plan(&t, true, Some(1));
    assert_eq!(plan, vec![(0, TokenStyle::Plain), (1, TokenStyle::Selected), (2, TokenStyle::Plain)]);
    assert_eq!(token_style(true, None, 0, "x"), Some(TokenStyle::Plain));
    assert_eq!(token_style(false, None, 0, "x"), None);
    assert_eq!(token_style(false, Some(0), 0, "様"), Some(TokenStyle::Selected));
}

#[test]
fn styles() {
    assert_eq!(TokenStyle::Selected.stroke_color(), "#ff0000");
    assert_eq!(TokenStyle::Marker.fill_color(), "rgba(0, 102, 255, 0.15)");
    assert_eq!(TokenStyle::Plain.fill_color(), "rgba(0, 170, 0, 0.1)");
    assert_eq!(TokenStyle::Selected.line_width(), 3);
    assert_eq!(TokenStyle::Marker.line_width(), 2);
    assert_eq!(TokenStyle::Plain.line_width(), 1);
    assert!(TokenStyle::Marker.labeled());
    assert!(!TokenStyle::Plain.labeled());
}

#[test]
fn token_labels() {
    let p = PixelCoords { x: 120, y: -4, width: 33, height: 0 };
    assert_eq!(coords_label(&p), "(120, -4)");
    assert_eq!(pixel_detail(&p), ("x: 120, y: -4".to_string(), "w: 33, h: 0".to_string()));
    assert_eq!(token_item_class(true), "token-item selected");
    assert_eq!(token_item_class(false), "token-item ");
}
