//! Policy decision and audit engine for a desktop application permission
//! broker.
//!
//! A privileged daemon mediates access to sensitive capabilities (network,
//! filesystem, devices, clipboard, autostart, background execution) requested
//! by unprivileged applications.  This crate holds the decision core: it
//! classifies permissions as sensitive or benign, looks up and expires cached
//! decisions, signals when a human prompt is required, persists new decisions
//! with optional time-bounded expiry, and records an audit trail of every
//! grant or deny outcome.  Transport, prompt UI and sandbox enforcement live
//! outside this crate; the core receives already-parsed identifiers and
//! permission descriptors and returns decision outcomes.

pub mod app_id;
pub mod audit;
pub mod broker;
pub mod database;
pub mod error;
pub mod paths;
pub mod policy_engine;
pub mod polkit;
pub mod types;

pub use app_id::AppId;
pub use error::ApfError;
pub use types::PromptDecision;
pub use types::grants;
