//! Data of the construction-system dashboard: projects, contractors, their
//! documents and AI check results, UI state, and document file types.

use vstd::prelude::*;
use crate::text::{has_sub, has_suffix, lowercase, to_chars, to_lowercase, contains_str, ends_with_str};

verus! {

// ============================================
// Project data
// ============================================

/// A construction project with its contractors and documents.
#[derive(Debug, Clone)]
pub struct ProjectData {
    pub project_name: String,
    pub client: String,
    pub period: String,
    pub period_start: Option<String>,
    pub period_end: Option<String>,
    pub site_agent: Option<String>,
    pub chief_engineer: Option<String>,
    pub project_docs: ProjectDocs,
    pub contractors: Vec<Contractor>,
    pub contracts: Vec<Contract>,
}

impl ProjectData {
    /// The project's invariant: each contractor's document keys are
    /// distinct.
    pub open spec fn well_formed(self) -> bool {
        contractors_wf(self.contractors@)
    }

    /// Everything of the project but its contractors is as in `other`.
    pub open spec fn same_but_contractors(self, other: ProjectData) -> bool {
        &&& self.project_name == other.project_name
        &&& self.client == other.client
        &&& self.period == other.period
        &&& self.period_start == other.period_start
        &&& self.period_end == other.period_end
        &&& self.site_agent == other.site_agent
        &&& self.chief_engineer == other.chief_engineer
        &&& self.project_docs == other.project_docs
        &&& self.contracts == other.contracts
    }
}

/// Project-wide documents (system diagram, system ledger, subcontracts).
#[derive(Debug, Clone)]
pub struct ProjectDocs {
    pub sekou_taikeizu: Option<DocLink>,
    pub sekou_taisei_daicho: Option<DocLink>,
    pub shitauke_keiyaku: Option<DocLink>,
}

impl Default for ProjectDocs {
    fn default() -> (r: Self)
        ensures
            r.sekou_taikeizu is None,
            r.sekou_taisei_daicho is None,
            r.shitauke_keiyaku is None,
    {
        ProjectDocs { sekou_taikeizu: None, sekou_taisei_daicho: None, shitauke_keiyaku: None }
    }
}

/// A link to a project-wide document.
#[derive(Debug, Clone)]
pub struct DocLink {
    pub name: String,
    pub url: Option<String>,
    pub status: bool,
}

/// A contractor with its documents, keyed by document key. Keys are
/// distinct (see [`Contractor::keys_distinct`]).
#[derive(Debug, Clone)]
pub struct Contractor {
    pub id: String,
    pub name: String,
    pub role: String,
    pub docs: Vec<(String, DocStatus)>,
}

impl Contractor {
    /// No document key occurs twice: the contractor's invariant.
    pub open spec fn keys_distinct(&self) -> bool {
        crate::editors::distinct_keys(self.docs@)
    }
}

/// Every contractor of `cs` keeps its invariant.
pub open spec fn contractors_wf(cs: Seq<Contractor>) -> bool {
    forall|i: int| 0 <= i < cs.len() ==> (#[trigger] cs[i]).keys_distinct()
}

/// The state of one document of a contractor.
#[derive(Debug, Clone)]
pub struct DocStatus {
    pub status: bool,
    pub file: Option<String>,
    pub url: Option<String>,
    pub note: Option<String>,
    pub valid_from: Option<String>,
    pub valid_until: Option<String>,
    pub check_result: Option<CheckResultData>,
    pub last_checked: Option<String>,
}

/// A contract of the project.
#[derive(Debug, Clone)]
pub struct Contract {
    pub name: String,
    pub url: Option<String>,
    pub contractor: Option<String>,
}

impl Default for Contract {
    fn default() -> (r: Self)
        ensures
            r.name@ == Seq::<char>::empty(),
            r.url is None,
            r.contractor is None,
    {
        Contract { name: String::new(), url: None, contractor: None }
    }
}

// ============================================
// AI check results
// ============================================

/// The result of an AI check of one document.
#[derive(Debug)]
pub struct CheckResultData {
    pub status: String,
    pub summary: String,
    pub items: Vec<CheckItem>,
    pub missing_fields: Vec<CheckMissingField>,
}

impl Default for CheckResultData {
    fn default() -> (r: Self)
        ensures
            r.status@ == Seq::<char>::empty(),
            r.summary@ == Seq::<char>::empty(),
            r.items@.len() == 0,
            r.missing_fields@.len() == 0,
    {
        CheckResultData {
            status: String::new(),
            summary: String::new(),
            items: Vec::new(),
            missing_fields: Vec::new(),
        }
    }
}

impl CheckResultData {
    /// Both results hold the same status, summary, findings and missing
    /// fields.
    pub open spec fn same_as(self, other: CheckResultData) -> bool {
        &&& self.status == other.status
        &&& self.summary == other.summary
        &&& self.items@ == other.items@
        &&& self.missing_fields@ == other.missing_fields@
    }
}

impl Clone for CheckResultData {
    fn clone(&self) -> (r: Self)
        ensures
            r.same_as(*self),
    {
        let items = self.items.clone();
        let missing_fields = self.missing_fields.clone();
        assert(items@ =~= self.items@);
        assert(missing_fields@ =~= self.missing_fields@);
        CheckResultData {
            status: self.status.clone(),
            summary: self.summary.clone(),
            items,
            missing_fields,
        }
    }
}

/// One finding of an AI check.
#[derive(Debug)]
pub struct CheckItem {
    pub item_type: String,
    pub message: String,
}

impl Clone for CheckItem {
    fn clone(&self) -> (r: Self)
        ensures
            r == *self,
    {
        CheckItem { item_type: self.item_type.clone(), message: self.message.clone() }
    }
}

/// A field an AI check found missing.
#[derive(Debug)]
pub struct CheckMissingField {
    pub field: String,
    pub location: String,
}

impl Clone for CheckMissingField {
    fn clone(&self) -> (r: Self)
        ensures
            r == *self,
    {
        CheckMissingField { field: self.field.clone(), location: self.location.clone() }
    }
}

// ============================================
// UI state
// ============================================

/// Check-result tooltip state (shown on hover).
#[derive(Clone)]
pub struct CheckResultTooltipState {
    pub visible: bool,
    pub x: i32,
    pub y: i32,
    pub contractor_name: String,
    pub doc_key: String,
    pub doc_label: String,
    pub check_result: Option<CheckResultData>,
    pub last_checked: Option<String>,
    pub hover_timer_id: Option<i32>,
}

impl Default for CheckResultTooltipState {
    fn default() -> (r: Self)
        ensures
            !r.visible,
            r.x == 0,
            r.y == 0,
            r.contractor_name@ == Seq::<char>::empty(),
            r.doc_key@ == Seq::<char>::empty(),
            r.doc_label@ == Seq::<char>::empty(),
            r.check_result is None,
            r.last_checked is None,
            r.hover_timer_id is None,
    {
        CheckResultTooltipState {
            visible: false,
            x: 0,
            y: 0,
            contractor_name: String::new(),
            doc_key: String::new(),
            doc_label: String::new(),
            check_result: None,
            last_checked: None,
            hover_timer_id: None,
        }
    }
}

/// Context-menu state (right click or long press).
#[derive(Clone)]
pub struct ContextMenuState {
    pub visible: bool,
    pub x: i32,
    pub y: i32,
    pub contractor_name: String,
    pub contractor_id: String,
    pub doc_key: String,
    pub doc_label: String,
    pub url: Option<String>,
    pub has_check_result: bool,
}

impl Default for ContextMenuState {
    fn default() -> (r: Self)
        ensures
            !r.visible,
            r.x == 0,
            r.y == 0,
            r.contractor_name@ == Seq::<char>::empty(),
            r.contractor_id@ == Seq::<char>::empty(),
            r.doc_key@ == Seq::<char>::empty(),
            r.doc_label@ == Seq::<char>::empty(),
            r.url is None,
            !r.has_check_result,
    {
        ContextMenuState {
            visible: false,
            x: 0,
            y: 0,
            contractor_name: String::new(),
            contractor_id: String::new(),
            doc_key: String::new(),
            doc_label: String::new(),
            url: None,
            has_check_result: false,
        }
    }
}

// ============================================
// View mode
// ============================================

/// Which screen the dashboard shows.
#[derive(Debug, Clone, PartialEq, Eq)]
pub enum ViewMode {
    Dashboard,
    OcrViewer,
    ApiKeySetup,
    AiChecker {
        contractor: String,
        doc_type: String,
        file_id: String,
        doc_key: String,
        contractor_id: String,
    },
    PdfViewer {
        contractor: String,
        doc_type: String,
        url: String,
        doc_key: String,
        contractor_id: String,
    },
    SpreadsheetViewer {
        contractor: String,
        doc_type: String,
        url: String,
        doc_key: String,
        contractor_id: String,
    },
    PdfEditor { contractor: String, doc_type: String, original_url: String },
}

impl Default for ViewMode {
    fn default() -> (r: Self)
        ensures
            r is Dashboard,
    {
        ViewMode::Dashboard
    }
}

// ============================================
// File types
// ============================================

/// The kind of file a document URL points to.
#[derive(Clone, Copy, PartialEq, Eq, Debug, Structural)]
pub enum DocFileType {
    Pdf,
    GoogleSpreadsheet,
    Excel,
    GoogleDoc,
    Image,
    Unknown,
}

/// The file type of a document URL, given its lowercased form `u`.
pub open spec fn file_type_of(u: Seq<char>) -> DocFileType {
    if has_sub(u, "docs.google.com/spreadsheets"@) && has_sub(u, "rtpof=true"@) {
        DocFileType::Excel
    } else if has_sub(u, "docs.google.com/spreadsheets"@) {
        DocFileType::GoogleSpreadsheet
    } else if has_sub(u, "docs.google.com/document"@) {
        DocFileType::GoogleDoc
    } else if has_sub(u, "drive.google.com/file"@) {
        if has_sub(u, "mime=application/pdf"@) || has_sub(u, "type=pdf"@) {
            DocFileType::Pdf
        } else if has_sub(u, "mime=application/vnd.openxmlformats"@) || has_sub(
            u,
            "mime=application/vnd.ms-excel"@,
        ) || has_sub(u, "type=xlsx"@) || has_sub(u, "type=xls"@) {
            DocFileType::Excel
        } else if has_sub(u, "mime=image/"@) || has_sub(u, "type=image"@) {
            DocFileType::Image
        } else if has_sub(u, ".pdf"@) {
            DocFileType::Pdf
        } else if has_sub(u, ".xlsx"@) || has_sub(u, ".xls"@) {
            DocFileType::Excel
        } else if has_sub(u, ".png"@) || has_sub(u, ".jpg"@) || has_sub(u, ".jpeg"@) {
            DocFileType::Image
        } else {
            DocFileType::Pdf
        }
    } else if has_suffix(u, ".pdf"@) {
        DocFileType::Pdf
    } else if has_suffix(u, ".xlsx"@) || has_suffix(u, ".xls"@) {
        DocFileType::Excel
    } else if has_suffix(u, ".png"@) || has_suffix(u, ".jpg"@) || has_suffix(u, ".jpeg"@) {
        DocFileType::Image
    } else {
        DocFileType::Unknown
    }
}

/// The file type of a URL that is already lowercase.
pub fn classify_lowercase_url(url_lower: &str) -> (r: DocFileType)
    ensures
        r == file_type_of(url_lower@),
{
    let u = to_chars(url_lower);
    if contains_str(&u, "docs.google.com/spreadsheets") && contains_str(&u, "rtpof=true") {
        DocFileType::Excel
    } else if contains_str(&u, "docs.google.com/spreadsheets") {
        DocFileType::GoogleSpreadsheet
    } else if contains_str(&u, "docs.google.com/document") {
        DocFileType::GoogleDoc
    } else if contains_str(&u, "drive.google.com/file") {
        if contains_str(&u, "mime=application/pdf") || contains_str(&u, "type=pdf") {
            DocFileType::Pdf
        } else if contains_str(&u, "mime=application/vnd.openxmlformats") || contains_str(
            &u,
            "mime=application/vnd.ms-excel",
        ) || contains_str(&u, "type=xlsx") || contains_str(&u, "type=xls") {
            DocFileType::Excel
        } else if contains_str(&u, "mime=image/") || contains_str(&u, "type=image") {
            DocFileType::Image
        } else if contains_str(&u, ".pdf") {
            DocFileType::Pdf
        } else if contains_str(&u, ".xlsx") || contains_str(&u, ".xls") {
            DocFileType::Excel
        } else if contains_str(&u, ".png") || contains_str(&u, ".jpg") || contains_str(&u, ".jpeg") {
            DocFileType::Image
        } else {
            DocFileType::Pdf
        }
    } else if ends_with_str(&u, ".pdf") {
        DocFileType::Pdf
    } else if ends_with_str(&u, ".xlsx") || ends_with_str(&u, ".xls") {
        DocFileType::Excel
    } else if ends_with_str(&u, ".png") || ends_with_str(&u, ".jpg") || ends_with_str(&u, ".jpeg") {
        DocFileType::Image
    } else {
        DocFileType::Unknown
    }
}

/// File type detection: decided on the lowercased URL.
pub fn detect_file_type(url: &str) -> (r: DocFileType)
    ensures
        r == file_type_of(lowercase(url@)),
        crate::text::all_ascii(url@) ==> r == file_type_of(crate::text::ascii_lowercase(url@)),
{
    let lower = to_lowercase(url);
    classify_lowercase_url(lower.as_str())
}

} // verus!
