//! The link to the Apps Script of the sheet: its URL and settings, the
//! replies of loading and saving, and the time stamp of the script's code,
//! shown in Japan time.

use vstd::prelude::*;
use vstd::arithmetic::div_mod::{
    lemma_fundamental_div_mod, lemma_fundamental_div_mod_converse, lemma_mod_bound,
};
use crate::text::{
    decimal, extend_str, from_chars, has_prefix, starts_with_str, int_text_value, parse_int_in, push_decimal,
    push_signed_padded, signed_padded, tdiv, to_chars, trem, trunc_div,
};

verus! {

/// Gregorian leap years.
pub open spec fn is_leap(year: int) -> bool {
    (year % 4 == 0 && year % 100 != 0) || year % 400 == 0
}

/// Whether `year` is a leap year.
pub fn is_leap_year(year: i64) -> (b: bool)
    ensures
        b == is_leap(year as int),
{
    let y: i128 = year as i128;
    let r4 = y - 4 * trunc_div(y, 4);
    let r100 = y - 100 * trunc_div(y, 100);
    let r400 = y - 400 * trunc_div(y, 400);
    proof {
        lemma_divides_iff_trem(y as int, 4);
        lemma_divides_iff_trem(y as int, 100);
        lemma_divides_iff_trem(y as int, 400);
    }
    (r4 == 0 && r100 != 0) || r400 == 0
}

/// `b` divides `a` exactly when the truncated remainder is zero.
proof fn lemma_divides_iff_trem(a: int, b: int)
    requires
        b > 0,
    ensures
        (a % b == 0) == (trem(a, b) == 0),
{
    if a < 0 {
        let q = (-a) / b;
        let r = (-a) % b;
        lemma_fundamental_div_mod(-a, b);
        lemma_mod_bound(-a, b);
        assert(tdiv(a, b) == -q);
        assert(trem(a, b) == -r) by (nonlinear_arith)
            requires
                trem(a, b) == a - b * (-q),
                -a == b * q + r,
        ;
        if r == 0 {
            assert(a == (-q) * b + 0) by (nonlinear_arith)
                requires
                    -a == b * q + r,
                    r == 0,
            ;
            lemma_fundamental_div_mod_converse(a, b, -q, 0);
        } else {
            assert(a == (-q - 1) * b + (b - r)) by (nonlinear_arith)
                requires
                    -a == b * q + r,
            ;
            lemma_fundamental_div_mod_converse(a, b, -q - 1, b - r);
        }
    } else {
        lemma_fundamental_div_mod(a, b);
    }
}

/// The number of days of a year.
pub open spec fn year_days(year: int) -> int {
    if is_leap(year) {
        366
    } else {
        365
    }
}

/// The number of days of month `m` (1 to 12) of a year.
pub open spec fn month_days(year: int, m: int) -> int {
    if m == 2 {
        if is_leap(year) {
            29
        } else {
            28
        }
    } else if m == 4 || m == 6 || m == 9 || m == 11 {
        30
    } else {
        31
    }
}

/// The year that day `days` (counted from the first day of `year`) falls
/// in, and the day within that year.
pub open spec fn year_and_rest(days: int, year: int) -> (int, int)
    decreases days,
{
    if days < year_days(year) {
        (year, days)
    } else {
        year_and_rest(days - year_days(year), year + 1)
    }
}

/// The month that day `rest` (counted from the first day of month `m`)
/// falls in, and the day of that month; months past December count on.
pub open spec fn month_and_day(rest: int, year: int, m: int) -> (int, int)
    decreases 13 - m,
{
    if m > 12 || rest < month_days(year, m) {
        (m, rest + 1)
    } else {
        month_and_day(rest - month_days(year, m), year, m + 1)
    }
}

/// The date (year, month, day) of the day `days` after 1970-01-01.
pub open spec fn ymd(days: int) -> (int, int, int) {
    let (y, rest) = year_and_rest(days, 1970);
    let (m, d) = month_and_day(rest, y, 1);
    (y, m, d)
}

/// The number of days from the first day of month `m` to the end of the
/// year.
pub open spec fn days_from_month(year: int, m: int) -> int
    decreases 13 - m,
{
    if m > 12 || m < 1 {
        0
    } else {
        month_days(year, m) + days_from_month(year, m + 1)
    }
}

proof fn lemma_months_fill_the_year(year: int)
    ensures
        days_from_month(year, 1) == year_days(year),
{
    reveal_with_fuel(days_from_month, 13);
}

proof fn lemma_year_and_rest_in_year(days: int, year: int)
    requires
        days >= 0,
    ensures
        year_and_rest(days, year).0 >= year,
        0 <= year_and_rest(days, year).1 < year_days(year_and_rest(days, year).0),
    decreases days,
{
    if days >= year_days(year) {
        lemma_year_and_rest_in_year(days - year_days(year), year + 1);
    }
}

proof fn lemma_month_and_day_in_month(rest: int, year: int, m: int)
    requires
        1 <= m <= 12,
        0 <= rest < days_from_month(year, m),
    ensures
        m <= month_and_day(rest, year, m).0 <= 12,
        1 <= month_and_day(rest, year, m).1 <= month_days(
            year,
            month_and_day(rest, year, m).0,
        ),
    decreases 13 - m,
{
    if rest >= month_days(year, m) {
        if m == 12 {
            assert(days_from_month(year, 13) == 0);
        }
        lemma_month_and_day_in_month(rest - month_days(year, m), year, m + 1);
    }
}

/// Every day from 1970-01-01 on falls on a real calendar date: a year from
/// 1970, a month from 1 to 12 and a day within that month.
pub proof fn lemma_ymd_is_a_date(days: int)
    requires
        days >= 0,
    ensures
        ymd(days).0 >= 1970,
        1 <= ymd(days).1 <= 12,
        1 <= ymd(days).2 <= month_days(ymd(days).0, ymd(days).1),
{
    let (y, rest) = year_and_rest(days, 1970);
    lemma_year_and_rest_in_year(days, 1970);
    lemma_months_fill_the_year(y);
    lemma_month_and_day_in_month(rest, y, 1);
}

/// The calendar date `days` days after 1970-01-01.
pub fn days_to_ymd(days: i64) -> (r: (i64, i64, i64))
    ensures
        (r.0 as int, r.1 as int, r.2 as int) == ymd(days as int),
{
    let mut remaining: i64 = days;
    let mut year: i64 = 1970;
    loop
        invariant
            year_and_rest(remaining as int, year as int) == year_and_rest(days as int, 1970),
            1970 <= year,
            remaining <= days,
            days >= 0 ==> 365 * (year - 1970) <= days - remaining,
            days < 0 ==> remaining == days && year == 1970,
        ensures
            year_and_rest(days as int, 1970) == (year as int, remaining as int),
            remaining < year_days(year as int),
        decreases remaining,
    {
        let days_in_year: i64 = if is_leap_year(year) { 366 } else { 365 };
        if remaining < days_in_year {
            break;
        }
        remaining = remaining - days_in_year;
        year = year + 1;
    }
    let ghost yr = year_and_rest(days as int, 1970);
    let leap = is_leap_year(year);
    let mut month: i64 = 1;
    let mut k: usize = 0;
    while k < 12
        invariant_except_break
            k <= 12,
            month == k + 1,
            remaining < 366,
            month_and_day(remaining as int, year as int, month as int) == month_and_day(
                yr.1,
                year as int,
                1,
            ),
            leap == is_leap(year as int),
        ensures
            remaining < 366,
            month_and_day(yr.1, year as int, 1) == (month as int, remaining + 1),
        decreases 12 - k,
    {
        let d: i64 = if month == 2 {
            if leap { 29 } else { 28 }
        } else if month == 4 || month == 6 || month == 9 || month == 11 {
            30
        } else {
            31
        };
        if remaining < d {
            break;
        }
        remaining = remaining - d;
        month = month + 1;
        k = k + 1;
    }
    (year, month, remaining + 1)
}

/// The label of the code's time stamp `t` (seconds since 1970), shown in
/// Japan time (UTC+9) as `YYYY-MM-DD HH:MM`; "unknown" for 0.
pub open spec fn modified_label(t: int) -> Seq<char> {
    if t == 0 {
        "GASコード更新: 不明"@
    } else {
        let secs = t + 9 * 3600;
        let days = tdiv(secs, 86400);
        let remaining = trem(secs, 86400);
        let hours = tdiv(remaining, 3600);
        let minutes = tdiv(trem(remaining, 3600), 60);
        let (y, m, d) = ymd(days);
        "GASコード更新: "@ + signed_padded(y, 0) + "-"@ + signed_padded(m, 2) + "-"@
            + signed_padded(d, 2) + " "@ + signed_padded(hours, 2) + ":"@ + signed_padded(
            minutes,
            2,
        )
    }
}

/// The time stamp written in `modified` (0 when absent or not a valid
/// `i64`).
pub open spec fn modified_stamp(modified: Option<Seq<char>>) -> int {
    let s = match modified {
        Some(m) => m,
        None => "0"@,
    };
    match int_text_value(s) {
        Some(v) => if i64::MIN <= v <= i64::MAX {
            v
        } else {
            0
        },
        None => 0,
    }
}

/// The label of the time stamp of the Apps Script code, given as the text
/// of the seconds since 1970 that the build recorded (if any).
pub fn format_gas_modified_time(modified: Option<&str>) -> (r: String)
    requires
        modified_stamp(
            match modified {
                Some(m) => Some(m@),
                None => None,
            },
        ) <= i64::MAX - 9 * 3600,
    ensures
        r@ == modified_label(
            modified_stamp(
                match modified {
                    Some(m) => Some(m@),
                    None => None,
                },
            ),
        ),
{
    let text = match modified {
        Some(m) => m,
        None => "0",
    };
    let cs = to_chars(text);
    let timestamp: i64 = match parse_int_in(&cs, i64::MIN as i128, i64::MAX as i128) {
        Some(v) => v as i64,
        None => 0,
    };
    if timestamp == 0 {
        return "GASコード更新: 不明".to_owned();
    }
    let secs: i64 = timestamp + 9 * 3600;
    let days = trunc_div(secs as i128, 86400);
    let remaining = secs as i128 - 86400 * days;
    let hours = trunc_div(remaining, 3600);
    let minutes = trunc_div(remaining - 3600 * trunc_div(remaining, 3600), 60);
    let (year, month, day) = days_to_ymd(days as i64);
    let mut out: Vec<char> = Vec::new();
    extend_str(&mut out, "GASコード更新: ");
    push_signed_padded(&mut out, year as i128, 0);
    extend_str(&mut out, "-");
    push_signed_padded(&mut out, month as i128, 2);
    extend_str(&mut out, "-");
    push_signed_padded(&mut out, day as i128, 2);
    extend_str(&mut out, " ");
    push_signed_padded(&mut out, hours, 2);
    extend_str(&mut out, ":");
    push_signed_padded(&mut out, minutes, 2);
    from_chars(&out)
}

// ---------------------------------------------------------------------------
// The sheet service's URL in the page address
// ---------------------------------------------------------------------------

/// The URI-encoded sheet service URL that a page's query string `search`
/// carries (`?gas=...`), if it does.
pub open spec fn gas_param_of(search: Seq<char>) -> Option<Seq<char>> {
    if crate::text::has_prefix(search, "?gas="@) {
        Some(search.skip(5))
    } else {
        None
    }
}

/// The sheet service URL carried by a page's query string, still
/// URI-encoded.
pub fn gas_param(search: &str) -> (r: Option<String>)
    ensures
        crate::regex_support::opt_string(r) == gas_param_of(search@),
{
    let cs = to_chars(search);
    if crate::text::starts_with_str(&cs, "?gas=") {
        proof {
            reveal_strlit("?gas=");
        }
        let rest = crate::text::sub_chars(&cs, 5, cs.len());
        assert(rest@ =~= search@.skip(5));
        Some(from_chars(&rest))
    } else {
        None
    }
}

/// The address that shares a sheet connection: the page's protocol, host
/// and path, with the URI-encoded service URL as `gas` parameter.
pub open spec fn share_url_of(
    protocol: Seq<char>,
    host: Seq<char>,
    pathname: Seq<char>,
    encoded_gas_url: Seq<char>,
) -> Seq<char> {
    protocol + "//"@ + host + pathname + "?gas="@ + encoded_gas_url
}

/// The address that shares the sheet connection.
pub fn gas_share_url(protocol: &str, host: &str, pathname: &str, encoded_gas_url: &str) -> (r: String)
    ensures
        r@ == share_url_of(protocol@, host@, pathname@, encoded_gas_url@),
{
    let mut out: Vec<char> = Vec::new();
    extend_str(&mut out, protocol);
    extend_str(&mut out, "//");
    extend_str(&mut out, host);
    extend_str(&mut out, pathname);
    extend_str(&mut out, "?gas=");
    extend_str(&mut out, encoded_gas_url);
    from_chars(&out)
}

// ---------------------------------------------------------------------------
// Replies of the sheet service
// ---------------------------------------------------------------------------

/// What loading the project from the sheet gives, from the reply's HTTP
/// status and the project it holds.
pub fn fetch_outcome(
    ok: bool,
    status: u16,
    project: Option<crate::models::ProjectData>,
) -> (r: Result<crate::models::ProjectData, String>)
    ensures
        !ok ==> (r matches Err(e) && e@ == "APIエラー: "@ + decimal(status as nat)),
        ok ==> match project {
            Some(p) => r == Ok::<crate::models::ProjectData, String>(p),
            None => r matches Err(e) && e@ == "プロジェクトデータが空です"@,
        },
{
    if !ok {
        let mut m: Vec<char> = Vec::new();
        extend_str(&mut m, "APIエラー: ");
        push_decimal(&mut m, status as u128);
        return Err(from_chars(&m));
    }
    match project {
        Some(p) => Ok(p),
        None => Err("プロジェクトデータが空です".to_owned()),
    }
}

/// Whether the reply carries an encrypted API key to load.
pub fn has_encrypted_key(encrypted: Option<&str>) -> (b: bool)
    ensures
        b == match encrypted {
            Some(e) => e@.len() > 0,
            None => false,
        },
{
    match encrypted {
        Some(e) => to_chars(e).len() > 0,
        None => false,
    }
}

/// What saving the project to the sheet gives, from the reply's HTTP
/// status and the time stamp it holds.
pub fn save_outcome(ok: bool, status: u16, timestamp: Option<String>) -> (r: Result<String, String>)
    ensures
        !ok ==> (r matches Err(e) && e@ == "保存エラー: "@ + decimal(status as nat)),
        ok ==> (r matches Ok(t) && t@ == match timestamp {
            Some(ts) => ts@,
            None => "保存完了"@,
        }),
{
    if !ok {
        let mut m: Vec<char> = Vec::new();
        extend_str(&mut m, "保存エラー: ");
        push_decimal(&mut m, status as u128);
        return Err(from_chars(&m));
    }
    match timestamp {
        Some(t) => Ok(t),
        None => Ok("保存完了".to_owned()),
    }
}

/// The Apps Script settings accept a URL when it is not empty and lies
/// under `https://script.google.com/`.
pub fn gas_url_acceptable(url: &str) -> (b: bool)
    ensures
        b == (url@.len() > 0 && has_prefix(url@, "https://script.google.com/"@)),
{
    let u = to_chars(url);
    u.len() > 0 && starts_with_str(&u, "https://script.google.com/")
}

/// The message of the Apps Script settings after "save": a request for a
/// correct URL when it was not accepted; else, when the project was saved
/// to the sheet (`reply` is what that returned), whether it was; else that
/// the link is set up.
pub open spec fn gas_setup_message_of(
    accepted: bool,
    reply: Option<Result<Seq<char>, Seq<char>>>,
) -> Seq<char> {
    if !accepted {
        "正しいGAS URLを入力してください"@
    } else {
        match reply {
            None => "シート連携を設定しました"@,
            Some(Ok(_)) => "シート連携を設定し、データを保存しました"@,
            Some(Err(e)) => "連携設定完了、保存エラー: "@ + e,
        }
    }
}

/// The message shown by the Apps Script settings after "save".
pub fn gas_setup_message(accepted: bool, reply: Option<&Result<String, String>>) -> (r: String)
    ensures
        r@ == gas_setup_message_of(
            accepted,
            match reply {
                None => None,
                Some(Ok(t)) => Some(Ok(t@)),
                Some(Err(e)) => Some(Err(e@)),
            },
        ),
{
    if !accepted {
        return "正しいGAS URLを入力してください".to_string();
    }
    match reply {
        None => "シート連携を設定しました".to_string(),
        Some(Ok(_)) => "シート連携を設定し、データを保存しました".to_string(),
        Some(Err(e)) => {
            let mut v: Vec<char> = Vec::new();
            extend_str(&mut v, "連携設定完了、保存エラー: ");
            extend_str(&mut v, e.as_str());
            from_chars(&v)
        },
    }
}

/// The Apps Script URL a request goes to: an error when none is set.
pub fn gas_url_required(gas_url: Option<&str>) -> (r: Result<String, String>)
    ensures
        match gas_url {
            Some(u) => r matches Ok(v) && v@ == u@,
            None => r matches Err(e) && e@ == "GAS URLが設定されていません"@,
        },
{
    match gas_url {
        Some(u) => Ok(u.to_owned()),
        None => Err("GAS URLが設定されていません".to_owned()),
    }
}

/// What saving the Apps Script settings calls for.
#[derive(Debug, Clone, Copy, PartialEq, Eq, Structural)]
pub enum GasSaveAction {
    /// The URL was refused; nothing is stored.
    Refuse,
    /// Store the URL, save the project to the sheet, then the API key and
    /// the URL to the sheet.
    StoreAndSync,
    /// Store the URL, then save the API key and the URL to the sheet.
    StoreOnly,
    /// Forget the stored URL.
    Forget,
}

/// The Apps Script settings of the dashboard: whether a sheet is linked and
/// whether the settings dialog is open.
#[derive(Debug, Clone, Copy, PartialEq, Eq, Structural)]
pub struct GasSettings {
    pub connected: bool,
    pub dialog_open: bool,
}

impl GasSettings {
    /// "Save" in the settings dialog with `url` typed in, while a project
    /// is loaded or not: an acceptable URL links the sheet and closes the
    /// dialog (and the project, if any, is saved to it); any other is
    /// refused and the dialog stays as it is.
    pub fn save(&mut self, url: &str, has_project: bool) -> (action: GasSaveAction)
        ensures
            if url@.len() > 0 && has_prefix(url@, "https://script.google.com/"@) {
                &&& final(self).connected
                &&& !final(self).dialog_open
                &&& action == if has_project {
                    GasSaveAction::StoreAndSync
                } else {
                    GasSaveAction::StoreOnly
                }
            } else {
                &&& *final(self) == *old(self)
                &&& action == GasSaveAction::Refuse
            },
    {
        if gas_url_acceptable(url) {
            self.connected = true;
            self.dialog_open = false;
            if has_project {
                GasSaveAction::StoreAndSync
            } else {
                GasSaveAction::StoreOnly
            }
        } else {
            GasSaveAction::Refuse
        }
    }

    /// "Unlink" in the settings dialog: the sheet is no longer linked and
    /// the stored URL is forgotten; the dialog stays open.
    pub fn unlink(&mut self) -> (action: GasSaveAction)
        ensures
            !final(self).connected,
            final(self).dialog_open == old(self).dialog_open,
            action == GasSaveAction::Forget,
    {
        self.connected = false;
        GasSaveAction::Forget
    }
}

} // verus!
