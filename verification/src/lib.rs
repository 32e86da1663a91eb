//! Workspaces, memberships and reports of a team task tracker.
//!
//! The rows live in a database; `sql` is the boundary to it. `user` and
//! `namespace` hold the directory operations and the rules that guard them:
//! the default namespace cannot be deleted, nothing that tasks refer to can
//! be deleted, and the only owner of a namespace cannot be removed. `model`
//! states what these operations do to the stored rows and proves what
//! follows. `user_cmd` and `namespace_cmd` carry out a command and word the
//! answer.
//!
//! `team`, `workload` and `stats` compute the three reports from task
//! records; `team_render`, `workload_render` and `stats_render` write each
//! as text for a terminal, as JSON or as a markdown table, all from the same
//! figures.

pub mod clock;
pub mod error;
pub mod json;
pub mod model;
pub mod namespace;
pub mod namespace_cmd;
pub mod render;
pub mod sql;
pub mod stats;
pub mod stats_render;
pub mod status;
pub mod task;
pub mod team;
pub mod team_render;
pub mod text;
pub mod user;
pub mod user_cmd;
pub mod workload;
pub mod workload_render;
