//! The dashboard's decisions: from its state and an event (a menu choice or
//! a message from an embedded page) to its next state and the outside work
//! to do (clear the cache, download, save and sync the project).

use vstd::prelude::*;
use crate::dashboard::{
    add_days_fits, check_views, date_results, existence_results, needs_warning_date,
    run_date_check, run_existence_check, CheckMode, CheckResult, CheckView,
};
use crate::models::{CheckResultData, Contractor, DocStatus, ProjectData, ProjectDocs, ViewMode};
use crate::text::{chars_eq, to_chars, trim, trimmed};

verus! {

// ---------------------------------------------------------------------------
// Messages from embedded pages
// ---------------------------------------------------------------------------

/// The kinds of message an embedded page posts to the dashboard.
#[derive(Debug, Clone, Copy, PartialEq, Eq, Structural)]
pub enum MessageKind {
    /// The API key was set up.
    ApiKeySetupComplete,
    /// An AI check produced a result.
    CheckResult,
    /// The AI check was cancelled, or the page went back.
    Cancelled,
}

/// The kind of a message with type `t`.
pub open spec fn message_kind_of(t: Seq<char>) -> Option<MessageKind> {
    if t == "apikey-setup-complete"@ {
        Some(MessageKind::ApiKeySetupComplete)
    } else if t == "ai-check-result"@ {
        Some(MessageKind::CheckResult)
    } else if t == "ai-check-cancel"@ || t == "back"@ {
        Some(MessageKind::Cancelled)
    } else {
        None
    }
}

/// The kind of a posted message, from its `type`; none for others.
pub fn message_kind(message_type: &str) -> (r: Option<MessageKind>)
    ensures
        r == message_kind_of(message_type@),
{
    let t = to_chars(message_type);
    if chars_eq(&t, &to_chars("apikey-setup-complete")) {
        Some(MessageKind::ApiKeySetupComplete)
    } else if chars_eq(&t, &to_chars("ai-check-result")) {
        Some(MessageKind::CheckResult)
    } else if chars_eq(&t, &to_chars("ai-check-cancel")) || chars_eq(&t, &to_chars("back")) {
        Some(MessageKind::Cancelled)
    } else {
        None
    }
}

// ---------------------------------------------------------------------------
// Recording a check result
// ---------------------------------------------------------------------------

/// `i` is the first contractor of `cs` whose name, trimmed, is `name`
/// trimmed.
pub open spec fn first_named_at(cs: Seq<Contractor>, name: Seq<char>, i: int) -> bool {
    0 <= i < cs.len() && trim(cs[i].name@) == trim(name) && forall|j: int|
        0 <= j < i ==> trim(cs[j].name@) != trim(name)
}

/// `d1` is `d0` with check result `r` recorded at `now`.
pub open spec fn with_check(d0: DocStatus, d1: DocStatus, r: CheckResultData, now: Seq<char>) -> bool {
    &&& d1.check_result == Some(r)
    &&& crate::regex_support::opt_string(d1.last_checked) == Some(now)
    &&& d1.status == d0.status
    &&& d1.file == d0.file
    &&& d1.url == d0.url
    &&& d1.note == d0.note
    &&& d1.valid_from == d0.valid_from
    &&& d1.valid_until == d0.valid_until
}

/// `c1` is `c0` with check result `r` recorded at `now` on the document
/// with key `key`; `c0` itself when there is none.
pub open spec fn contractor_with_check(
    c0: Contractor,
    c1: Contractor,
    key: Seq<char>,
    r: CheckResultData,
    now: Seq<char>,
) -> bool {
    &&& c1.id == c0.id
    &&& c1.name == c0.name
    &&& c1.role == c0.role
    &&& c1.docs@.len() == c0.docs@.len()
    &&& match crate::editors::key_index(c0.docs@, key) {
        Some(k) => (forall|j: int| 0 <= j < c0.docs@.len() && j != k ==> c1.docs@[j] == c0.docs@[j])
            && c1.docs@[k].0 == c0.docs@[k].0 && with_check(c0.docs@[k].1, c1.docs@[k].1, r, now),
        None => c1.docs@ == c0.docs@,
    }
}

/// Records check result `result` at `now` on the document of `c` whose key
/// is `key`; whether there is one.
fn record_in_contractor(c: &mut Contractor, key: &Vec<char>, result: CheckResultData, now: &str) -> (found: bool)
    ensures
        contractor_with_check(*old(c), *final(c), key@, result, now@),
        found == crate::editors::has_key(old(c).docs@, key@),
        !found ==> *final(c) == *old(c),
{
    let ghost old_docs = c.docs@;
    let mut k: usize = 0;
    while k < c.docs.len()
        invariant
            k <= c.docs@.len(),
            c.docs@ == old_docs,
            forall|j: int| 0 <= j < k ==> old_docs[j].0@ != key@,
        ensures
            k <= c.docs@.len(),
            c.docs@ == old_docs,
            forall|j: int| 0 <= j < k ==> old_docs[j].0@ != key@,
            k < c.docs@.len() ==> old_docs[k as int].0@ == key@,
        decreases c.docs.len() - k,
    {
        if chars_eq(&to_chars(c.docs[k].0.as_str()), key) {
            break;
        }
        k = k + 1;
    }
    if k < c.docs.len() {
        proof {
            assert(crate::editors::has_key(old_docs, key@));
            let w = choose|w: int| 0 <= w < old_docs.len() && old_docs[w].0@ == key@ && forall|j: int|
                0 <= j < w ==> old_docs[j].0@ != key@;
            assert(w == k) by {
                if w < k {
                    assert(old_docs[w].0@ != key@);
                } else if w > k {
                    assert(old_docs[k as int].0@ == key@);
                }
            }
        }
        let (dk, mut d) = c.docs.remove(k);
        d.check_result = Some(result);
        d.last_checked = Some(now.to_owned());
        c.docs.insert(k, (dk, d));
        assert(c.docs@ =~= old_docs.update(k as int, (old_docs[k as int].0, d)));
        true
    } else {
        assert(!crate::editors::has_key(old_docs, key@));
        false
    }
}

/// Records check result `result`, made at `now`, on document `doc_key` of
/// the first contractor named `contractor` (names and key compared
/// trimmed). Returns whether such a document was found; nothing changes
/// when not.
pub fn record_check_result(
    project: &mut ProjectData,
    contractor: &str,
    doc_key: &str,
    result: CheckResultData,
    now: &str,
) -> (updated: bool)
    requires
        old(project).well_formed(),
    ensures
        final(project).well_formed(),
        final(project).same_but_contractors(*old(project)),
        final(project).contractors@.len() == old(project).contractors@.len(),
        forall|i: int|
            0 <= i < old(project).contractors@.len() && !first_named_at(
                old(project).contractors@,
                contractor@,
                i,
            ) ==> final(project).contractors@[i] == old(project).contractors@[i],
        forall|i: int|
            #![trigger first_named_at(old(project).contractors@, contractor@, i)]
            first_named_at(old(project).contractors@, contractor@, i) ==> contractor_with_check(
                old(project).contractors@[i],
                final(project).contractors@[i],
                trim(doc_key@),
                result,
                now@,
            ),
        updated == exists|i: int|
            #![trigger first_named_at(old(project).contractors@, contractor@, i)]
            first_named_at(old(project).contractors@, contractor@, i)
                && crate::editors::has_key(old(project).contractors@[i].docs@, trim(doc_key@)),
        !updated ==> *final(project) == *old(project),
{
    let ghost old_cs = project.contractors@;
    let key = trimmed(&to_chars(doc_key));
    match find_named(&project.contractors, contractor) {
        Some(i) => {
            match crate::editors::find_key(&project.contractors[i].docs, &key) {
                Some(_) => {
                    let mut c = project.contractors.remove(i);
                    let found = record_in_contractor(&mut c, &key, result, now);
                    project.contractors.insert(i, c);
                    assert(project.contractors@ =~= old_cs.update(i as int, c));
                    found
                },
                None => false,
            }
        },
        None => false,
    }
}

/// The first contractor whose trimmed name is `name` trimmed.
fn find_named(cs: &Vec<Contractor>, name: &str) -> (r: Option<usize>)
    ensures
        match r {
            Some(i) => first_named_at(cs@, name@, i as int) && forall|j: int|
                #![trigger first_named_at(cs@, name@, j)]
                first_named_at(cs@, name@, j) ==> j == i,
            None => forall|j: int| 0 <= j < cs@.len() ==> !first_named_at(cs@, name@, j),
        },
{
    let target = trimmed(&to_chars(name));
    let mut i: usize = 0;
    while i < cs.len()
        invariant
            i <= cs@.len(),
            target@ == trim(name@),
            forall|j: int| 0 <= j < i ==> trim(cs@[j].name@) != trim(name@),
        decreases cs.len() - i,
    {
        let n = trimmed(&to_chars(cs[i].name.as_str()));
        if chars_eq(&n, &target) {
            assert forall|j: int| #![trigger first_named_at(cs@, name@, j)]
                first_named_at(cs@, name@, j) implies j == i by {
                if j < i {
                    assert(trim(cs@[j].name@) != trim(name@));
                } else if j > i {
                    assert(trim(cs@[i as int].name@) == trim(name@));
                }
            }
            return Some(i);
        }
        i = i + 1;
    }
    None
}

// ---------------------------------------------------------------------------
// The dashboard as a state machine
// ---------------------------------------------------------------------------

/// The dashboard's state.
pub struct DashboardState {
    pub project: Option<ProjectData>,
    pub check_mode: CheckMode,
    pub check_results: Vec<CheckResult>,
    pub edit_mode: bool,
    pub view_mode: ViewMode,
    pub menu_open: bool,
    pub api_connected: bool,
}

impl DashboardState {
    /// The dashboard's invariant: its project, if any, is well formed.
    pub open spec fn well_formed(&self) -> bool {
        match self.project {
            Some(p) => p.well_formed(),
            None => true,
        }
    }
}

/// What happens on the dashboard.
pub enum DashboardEvent {
    /// The menu button was pressed.
    ToggleMenu,
    /// "New project" was chosen.
    NewProject,
    /// "Document existence check" was chosen.
    ExistenceCheck,
    /// "Date check" was chosen, on day `today` (`YYYY-MM-DD`).
    DateCheck { today: String },
    /// "Clear check results" was chosen.
    ClearCheckResults,
    /// "Edit mode" was toggled.
    ToggleEditMode,
    /// The OCR view was toggled.
    ToggleOcrViewer,
    /// "API key setup" was chosen.
    OpenApiKeySetup,
    /// "Export JSON" was chosen.
    ExportJson,
    /// "Clear cache" was chosen.
    ClearCache,
    /// The API key setup page finished; `api_key_valid` is whether a valid
    /// key is now stored, `sheet_connected` whether a sheet URL is set.
    ApiKeySetupComplete { api_key_valid: bool, sheet_connected: bool },
    /// The check page sent a result for a contractor's document (what was
    /// missing or could not be read is `None`), received at `now`.
    CheckResultReceived {
        contractor: Option<String>,
        doc_key: Option<String>,
        result: Option<CheckResultData>,
        now: String,
    },
    /// The check page was cancelled or went back.
    CheckCancelled,
}

/// The outside work an event calls for.
#[derive(Debug, Clone, Copy, PartialEq, Eq, Structural)]
pub enum DashboardAction {
    /// Nothing.
    Nothing,
    /// Clear the cached project.
    ClearCache,
    /// Download the project as JSON.
    DownloadJson,
    /// Cache the project and save it to the sheet.
    SaveAndSync,
    /// Save the API key to the sheet.
    SaveApiKeyToSheet,
}

/// The project that "New project" starts: named "新規工事", with the prime
/// contractor only.
pub open spec fn is_new_project(p: ProjectData) -> bool {
    &&& p.project_name@ == "新規工事"@
    &&& p.client@ == ""@
    &&& p.period@ == ""@
    &&& p.period_start is None
    &&& p.period_end is None
    &&& p.site_agent is None
    &&& p.chief_engineer is None
    &&& p.project_docs.sekou_taikeizu is None
    &&& p.project_docs.sekou_taisei_daicho is None
    &&& p.project_docs.shitauke_keiyaku is None
    &&& p.contractors@.len() == 1
    &&& p.contractors@[0].id@ == "prime"@
    &&& p.contractors@[0].name@ == "元請業者"@
    &&& p.contractors@[0].role@ == "元請"@
    &&& p.contractors@[0].docs@.len() == 0
    &&& p.contracts@.len() == 0
}

/// The date check can run on `state` for `today`: the warning date 30 days
/// on stays within the calendar arithmetic's range when it is needed.
pub open spec fn date_check_ok(state: DashboardState, today: Seq<char>) -> bool {
    match state.project {
        Some(p) => needs_warning_date(p.contractors@, today) ==> add_days_fits(today, 30),
        None => true,
    }
}

fn new_project() -> (p: ProjectData)
    ensures
        is_new_project(p),
{
    let mut contractors: Vec<Contractor> = Vec::new();
    contractors.push(
        Contractor {
            id: "prime".to_owned(),
            name: "元請業者".to_owned(),
            role: "元請".to_owned(),
            docs: Vec::new(),
        },
    );
    ProjectData {
        project_name: "新規工事".to_owned(),
        client: "".to_owned(),
        period: "".to_owned(),
        period_start: None,
        period_end: None,
        site_agent: None,
        chief_engineer: None,
        project_docs: ProjectDocs::default(),
        contractors,
        contracts: Vec::new(),
    }
}

impl DashboardState {
    /// The dashboard as it opens: no project, no check, the dashboard view.
    pub fn new(api_connected: bool) -> (r: Self)
        ensures
            r.project is None,
            r.check_mode == CheckMode::Inactive,
            r.check_results@.len() == 0,
            !r.edit_mode,
            r.view_mode is Dashboard,
            !r.menu_open,
            r.api_connected == api_connected,
            r.well_formed(),
    {
        DashboardState {
            project: None,
            check_mode: CheckMode::Inactive,
            check_results: Vec::new(),
            edit_mode: false,
            view_mode: ViewMode::Dashboard,
            menu_open: false,
            api_connected,
        }
    }

    /// Moves the dashboard on by one event and says what outside work it
    /// calls for.
    pub fn step(&mut self, event: DashboardEvent) -> (action: DashboardAction)
        requires
            old(self).well_formed(),
            event matches DashboardEvent::DateCheck { today } ==> date_check_ok(*old(self), today@),
        ensures
            final(self).well_formed(),
            match event {
                DashboardEvent::ToggleMenu => {
                    &&& final(self).menu_open == !old(self).menu_open
                    &&& final(self).project == old(self).project
                    &&& final(self).check_mode == old(self).check_mode
                    &&& final(self).check_results == old(self).check_results
                    &&& final(self).edit_mode == old(self).edit_mode
                    &&& final(self).view_mode == old(self).view_mode
                    &&& action == DashboardAction::Nothing
                },
                DashboardEvent::NewProject => {
                    &&& !final(self).menu_open
                    &&& final(self).project matches Some(p) && is_new_project(p)
                    &&& final(self).edit_mode
                    &&& final(self).check_mode == old(self).check_mode
                    &&& final(self).check_results == old(self).check_results
                    &&& final(self).view_mode == old(self).view_mode
                    &&& action == DashboardAction::Nothing
                },
                DashboardEvent::ExistenceCheck => {
                    &&& !final(self).menu_open
                    &&& final(self).project == old(self).project
                    &&& match old(self).project {
                        Some(p) => final(self).check_mode == CheckMode::Existence && check_views(
                            final(self).check_results@,
                        ) == existence_results(p.contractors@),
                        None => final(self).check_mode == old(self).check_mode
                            && final(self).check_results == old(self).check_results,
                    }
                    &&& final(self).edit_mode == old(self).edit_mode
                    &&& final(self).view_mode == old(self).view_mode
                    &&& action == DashboardAction::Nothing
                },
                DashboardEvent::DateCheck { today } => {
                    &&& !final(self).menu_open
                    &&& final(self).project == old(self).project
                    &&& match old(self).project {
                        Some(p) => final(self).check_mode == CheckMode::Date && check_views(
                            final(self).check_results@,
                        ) == date_results(p.contractors@, today@),
                        None => final(self).check_mode == old(self).check_mode
                            && final(self).check_results == old(self).check_results,
                    }
                    &&& final(self).edit_mode == old(self).edit_mode
                    &&& final(self).view_mode == old(self).view_mode
                    &&& action == DashboardAction::Nothing
                },
                DashboardEvent::ClearCheckResults => {
                    &&& !final(self).menu_open
                    &&& final(self).check_mode == CheckMode::Inactive
                    &&& final(self).check_results@.len() == 0
                    &&& final(self).project == old(self).project
                    &&& final(self).edit_mode == old(self).edit_mode
                    &&& final(self).view_mode == old(self).view_mode
                    &&& action == DashboardAction::Nothing
                },
                DashboardEvent::ToggleEditMode => {
                    &&& !final(self).menu_open
                    &&& final(self).edit_mode == !old(self).edit_mode
                    &&& final(self).project == old(self).project
                    &&& final(self).check_mode == old(self).check_mode
                    &&& final(self).check_results == old(self).check_results
                    &&& final(self).view_mode == old(self).view_mode
                    &&& action == DashboardAction::Nothing
                },
                DashboardEvent::ToggleOcrViewer => {
                    &&& !final(self).menu_open
                    &&& (if old(self).view_mode is OcrViewer {
                        final(self).view_mode is Dashboard
                    } else {
                        final(self).view_mode is OcrViewer
                    })
                    &&& final(self).project == old(self).project
                    &&& final(self).check_mode == old(self).check_mode
                    &&& final(self).check_results == old(self).check_results
                    &&& final(self).edit_mode == old(self).edit_mode
                    &&& action == DashboardAction::Nothing
                },
                DashboardEvent::OpenApiKeySetup => {
                    &&& !final(self).menu_open
                    &&& final(self).view_mode is ApiKeySetup
                    &&& final(self).project == old(self).project
                    &&& final(self).check_mode == old(self).check_mode
                    &&& final(self).check_results == old(self).check_results
                    &&& final(self).edit_mode == old(self).edit_mode
                    &&& action == DashboardAction::Nothing
                },
                DashboardEvent::ExportJson => {
                    &&& !final(self).menu_open
                    &&& final(self).project == old(self).project
                    &&& final(self).check_mode == old(self).check_mode
                    &&& final(self).check_results == old(self).check_results
                    &&& final(self).edit_mode == old(self).edit_mode
                    &&& final(self).view_mode == old(self).view_mode
                    &&& action == if old(self).project is Some {
                        DashboardAction::DownloadJson
                    } else {
                        DashboardAction::Nothing
                    }
                },
                DashboardEvent::ClearCache => {
                    &&& !final(self).menu_open
                    &&& final(self).project is None
                    &&& final(self).check_mode == CheckMode::Inactive
                    &&& final(self).check_results@.len() == 0
                    &&& final(self).edit_mode == old(self).edit_mode
                    &&& final(self).view_mode == old(self).view_mode
                    &&& action == DashboardAction::ClearCache
                },
                DashboardEvent::ApiKeySetupComplete { api_key_valid, sheet_connected } => {
                    &&& final(self).api_connected == api_key_valid
                    &&& final(self).view_mode is Dashboard
                    &&& final(self).project == old(self).project
                    &&& final(self).check_mode == old(self).check_mode
                    &&& final(self).check_results == old(self).check_results
                    &&& final(self).edit_mode == old(self).edit_mode
                    &&& final(self).menu_open == old(self).menu_open
                    &&& action == if sheet_connected {
                        DashboardAction::SaveApiKeyToSheet
                    } else {
                        DashboardAction::Nothing
                    }
                },
                DashboardEvent::CheckResultReceived { contractor, doc_key, result, now } => {
                    &&& final(self).check_mode == CheckMode::Inactive
                    &&& final(self).check_results@.len() == 0
                    &&& final(self).view_mode is Dashboard
                    &&& final(self).edit_mode == old(self).edit_mode
                    &&& final(self).menu_open == old(self).menu_open
                    &&& match (contractor, doc_key, result, old(self).project) {
                        (Some(c), Some(k), Some(r), Some(p0)) => {
                            &&& action == DashboardAction::SaveAndSync
                            &&& final(self).project matches Some(p1) && p1.same_but_contractors(p0)
                                && p1.contractors@.len() == p0.contractors@.len() && (forall|i: int|
                                0 <= i < p0.contractors@.len() && !first_named_at(
                                    p0.contractors@,
                                    c@,
                                    i,
                                ) ==> p1.contractors@[i] == p0.contractors@[i]) && (forall|i: int|
                                #![trigger first_named_at(p0.contractors@, c@, i)]
                                first_named_at(p0.contractors@, c@, i) ==> contractor_with_check(
                                    p0.contractors@[i],
                                    p1.contractors@[i],
                                    trim(k@),
                                    r,
                                    now@,
                                ))
                        },
                        _ => action == DashboardAction::Nothing && final(self).project
                            == old(self).project,
                    }
                },
                DashboardEvent::CheckCancelled => {
                    &&& final(self).check_mode == CheckMode::Inactive
                    &&& final(self).check_results@.len() == 0
                    &&& final(self).view_mode is Dashboard
                    &&& final(self).project == old(self).project
                    &&& final(self).edit_mode == old(self).edit_mode
                    &&& final(self).menu_open == old(self).menu_open
                    &&& action == DashboardAction::Nothing
                },
            },
            final(self).api_connected == match event {
                DashboardEvent::ApiKeySetupComplete { api_key_valid, .. } => api_key_valid,
                _ => old(self).api_connected,
            },
    {
        match event {
            DashboardEvent::ToggleMenu => {
                self.menu_open = !self.menu_open;
                DashboardAction::Nothing
            },
            DashboardEvent::NewProject => {
                self.menu_open = false;
                self.project = Some(new_project());
                self.edit_mode = true;
                DashboardAction::Nothing
            },
            DashboardEvent::ExistenceCheck => {
                self.menu_open = false;
                match &self.project {
                    Some(p) => {
                        let results = run_existence_check(p);
                        self.check_results = results;
                        self.check_mode = CheckMode::Existence;
                    },
                    None => {},
                }
                DashboardAction::Nothing
            },
            DashboardEvent::DateCheck { today } => {
                self.menu_open = false;
                match &self.project {
                    Some(p) => {
                        let results = run_date_check(p, today.as_str());
                        self.check_results = results;
                        self.check_mode = CheckMode::Date;
                    },
                    None => {},
                }
                DashboardAction::Nothing
            },
            DashboardEvent::ClearCheckResults => {
                self.menu_open = false;
                self.check_mode = CheckMode::Inactive;
                self.check_results = Vec::new();
                DashboardAction::Nothing
            },
            DashboardEvent::ToggleEditMode => {
                self.menu_open = false;
                self.edit_mode = !self.edit_mode;
                DashboardAction::Nothing
            },
            DashboardEvent::ToggleOcrViewer => {
                self.menu_open = false;
                let next = match self.view_mode {
                    ViewMode::OcrViewer => ViewMode::Dashboard,
                    _ => ViewMode::OcrViewer,
                };
                self.view_mode = next;
                DashboardAction::Nothing
            },
            DashboardEvent::OpenApiKeySetup => {
                self.menu_open = false;
                self.view_mode = ViewMode::ApiKeySetup;
                DashboardAction::Nothing
            },
            DashboardEvent::ExportJson => {
                self.menu_open = false;
                if self.project.is_some() {
                    DashboardAction::DownloadJson
                } else {
                    DashboardAction::Nothing
                }
            },
            DashboardEvent::ClearCache => {
                self.project = None;
                self.check_mode = CheckMode::Inactive;
                self.check_results = Vec::new();
                self.menu_open = false;
                DashboardAction::ClearCache
            },
            DashboardEvent::ApiKeySetupComplete { api_key_valid, sheet_connected } => {
                self.api_connected = api_key_valid;
                self.view_mode = ViewMode::Dashboard;
                if sheet_connected {
                    DashboardAction::SaveApiKeyToSheet
                } else {
                    DashboardAction::Nothing
                }
            },
            DashboardEvent::CheckResultReceived { contractor, doc_key, result, now } => {
                let action = match (contractor, doc_key, result) {
                    (Some(c), Some(k), Some(r)) => {
                        match self.project.take() {
                            Some(mut p) => {
                                let _ = record_check_result(&mut p, c.as_str(), k.as_str(), r, now.as_str());
                                self.project = Some(p);
                                DashboardAction::SaveAndSync
                            },
                            None => DashboardAction::Nothing,
                        }
                    },
                    _ => DashboardAction::Nothing,
                };
                self.check_mode = CheckMode::Inactive;
                self.check_results = Vec::new();
                self.view_mode = ViewMode::Dashboard;
                action
            },
            DashboardEvent::CheckCancelled => {
                self.check_mode = CheckMode::Inactive;
                self.check_results = Vec::new();
                self.view_mode = ViewMode::Dashboard;
                DashboardAction::Nothing
            },
        }
    }
}

} // verus!
