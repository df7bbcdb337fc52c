//! Codebase health analysis and construction-document dashboard logic.

pub mod text;
pub mod file_stats;
pub mod regex_support;
pub mod issues;
pub mod complexity;
pub mod models;
pub mod analysis;
pub mod reporter;
pub mod tasks;
pub mod spreadsheet_viewer;
pub mod pdf_viewer;
pub mod gas;
pub mod dashboard;
pub mod context_menu;
pub mod contractor_card;
pub mod tooltip;
pub mod log_trace;
pub mod encoding;
pub mod editors;
pub mod dashboard_state;
pub mod project_view;
pub mod check_panel;
pub mod ocr_view;
