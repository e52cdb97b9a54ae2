//! Periodic page-value monitoring: extraction of a value from page markup,
//! a pipeline of text transformers, a rule engine deciding whether a change
//! of value deserves a notification, and the per-site state that carries the
//! last observed value from one check to the next.

pub mod number;
pub mod text;
pub mod config;
pub mod rules;
pub mod transform;
pub mod extract;
pub mod notifiers;
pub mod monitor;
