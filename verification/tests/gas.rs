use sekou_taisei::gas::{gas_url_required, GasSaveAction, GasSettings};
use sekou_taisei::gas::{gas_setup_message, gas_url_acceptable};
use sekou_taisei::gas::{days_to_ymd, format_gas_modified_time, is_leap_year};

#[test]
fn leap_years() {
    assert!(is_leap_year(2000));
    assert!(!is_leap_year(1900));
    assert!(is_leap_year(2024));
    assert!(!is_leap_year(2023));
    assert!(is_leap_year(-4));
}

#[test]
fn calendar_dates() {
    assert_eq!(days_to_ymd(0), (1970, 1, 1));
    assert_eq!(days_to_ymd(31), (1970, 2, 1));
    assert_eq!(days_to_ymd(59), (1970, 3, 1));
    assert_eq!(days_to_ymd(365), (1971, 1, 1));
    assert_eq!(days_to_ymd(19676), (2023, 11, 15));
    assert_eq!(days_to_ymd(11016), (2000, 2, 29));
    assert_eq!(days_to_ymd(-3), (1970, 1, -2));
}

#[test]
fn modified_time_labels() {
    assert_eq!(format_gas_modified_time(None), "GASコード更新: 不明");
    assert_eq!(format_gas_modified_time(Some("0")), "GASコード更新: 不明");
    assert_eq!(format_gas_modified_time(Some("abc")), "GASコード更新: 不明");
    assert_eq!(format_gas_modified_time(Some("1700000000")), "GASコード更新: 2023-11-15 07:13");
    assert_eq!(format_gas_modified_time(Some("+1700000000")), "GASコード更新: 2023-11-15 07:13");
    assert_eq!(format_gas_modified_time(Some("-100000")), "GASコード更新: 1970-01-01 -18:-46");
}

#[test]
fn settings_accept_only_apps_script_urls() {
    assert!(gas_url_acceptable("https://script.google.com/macros/s/X/exec"));
    assert!(!gas_url_acceptable(""));
    assert!(!gas_url_acceptable("http://script.google.com/macros"));
    assert!(!gas_url_acceptable("https://example.com/"));
    assert_eq!(gas_setup_message(false, None), "正しいGAS URLを入力してください");
    assert_eq!(gas_setup_message(true, None), "シート連携を設定しました");
    assert_eq!(gas_setup_message(true, Some(&Ok("t".to_string()))), "シート連携を設定し、データを保存しました");
    assert_eq!(gas_setup_message(true, Some(&Err("APIエラー: 500".to_string()))), "連携設定完了、保存エラー: APIエラー: 500");
}

#[test]
fn settings_dialog_decisions() {
    let mut g = GasSettings { connected: false, dialog_open: true };
    assert_eq!(g.save("https://example.com/", true), GasSaveAction::Refuse);
    assert_eq!(g, GasSettings { connected: false, dialog_open: true });
    assert_eq!(g.save("https://script.google.com/macros/s/X/exec", true), GasSaveAction::StoreAndSync);
    assert_eq!(g, GasSettings { connected: true, dialog_open: false });
    let mut h = GasSettings { connected: false, dialog_open: true };
    assert_eq!(h.save("https://script.google.com/x", false), GasSaveAction::StoreOnly);
    assert_eq!(h.unlink(), GasSaveAction::Forget);
    assert!(!h.connected);
    assert_eq!(gas_url_required(None), Err("GAS URLが設定されていません".to_string()));
    assert_eq!(gas_url_required(Some("u")), Ok("u".to_string()));
}
