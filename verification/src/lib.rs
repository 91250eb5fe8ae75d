//! Durable work graph: goals, tasks, templates, runs, approvals, budgets.

pub mod clock;
pub mod error;
pub mod order;
pub mod text;
pub mod types;
pub mod records;
pub mod store;
pub mod templates;
pub mod lineage;
pub mod goals;
pub mod planning;
pub mod activity;
pub mod tracker;
pub mod budget;
pub mod recurring;
pub mod overview;
pub mod portability;
pub mod package_import;
pub mod telemetry;
pub mod task_list;
pub mod stamped;
pub mod laws;
pub mod browser;
pub mod code_index;
