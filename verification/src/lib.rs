//! Classification, location matching and deduplication of air-raid alert
//! posts written in a mix of Ukrainian and Russian.
//!
//! A post goes through the engine in this order: lowercase, recap filter,
//! status filter, classifier, location, context window, deduplication,
//! formatter. [`AlertFilter`] owns the state; [`model`] says what each step
//! does to it, and [`laws`] what follows for every state and message.

pub mod classifier;
pub mod clock;
pub mod commands;
pub mod config;
pub mod context;
pub mod dedup;
pub mod dump;
pub mod filter;
pub mod formatter;
pub mod laws;
pub mod llm;
pub mod location;
pub mod model;
pub mod presets;
pub mod replay;
pub mod reports;
pub mod text;
pub mod threat_keywords;
pub mod threat_kind;

pub use crate::classifier::detect_threats;
pub use crate::config::TgCfg;
pub use crate::filter::AlertFilter;
pub use crate::location::{LocationConfig, Proximity};
pub use crate::presets::{kharkiv_filter, kyiv_filter};
pub use crate::threat_keywords::{is_nationwide, is_urgent};
pub use crate::threat_kind::ThreatKind;
