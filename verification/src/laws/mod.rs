//! What holds of the library as a whole, stated over the fields of what goes in and what
//! comes out.
pub mod answers;
pub mod baselines;
pub mod checking;
pub mod commands;
pub mod fingerprints;
pub mod identity;
pub mod logins;
pub mod merging;
pub mod messages;
pub mod quoting;
pub mod receipts;
pub mod reports;
pub mod running;
pub mod sanitizing;
pub mod settings;
pub mod suppressing;
pub mod texts;
pub mod views;
