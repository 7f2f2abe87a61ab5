//! Verified core of the Vericto command line: SQL sanitization, the check API's
//! data and retry rules, baselines, suppressions, receipts and report rendering.
pub mod api;
pub mod auth;
pub mod baseline;
pub mod baseline_run;
pub mod browser_login;
pub mod catalogue;
pub mod check;
pub mod check_run;
pub mod ci_env;
pub mod comments;
pub mod config;
pub mod docs;
pub mod doctor;
pub mod exit;
pub mod init;
pub mod json;
pub mod laws;
pub mod login;
pub mod oidc;
pub mod output;
pub mod pubkeys;
pub mod receipt;
pub mod sanitize;
pub mod scaffold;
pub mod style;
pub mod text;
pub mod verify_run;
pub mod version;
