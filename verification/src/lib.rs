//! The verified core of `cloudex`, a command line for Codex Cloud tasks.
pub mod app;
pub mod app_event;
pub mod app_key;
pub mod apply;
pub mod auth;
pub mod command;
pub mod details;
pub mod ensure;
pub mod env_api;
pub mod env_list;
pub mod input;
pub mod job;
pub mod json;
pub mod model;
pub mod number;
pub mod outcome;
pub mod order;
pub mod pieces;
pub mod pr;
pub mod remote;
pub mod reply;
pub mod report;
pub mod row;
pub mod run;
pub mod screen;
pub mod scroll;
pub mod task_id;
pub mod text;
pub mod time;
pub mod unicode;
pub mod watch;
pub mod worktree;
pub mod wrap;
