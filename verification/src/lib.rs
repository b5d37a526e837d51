//! A terminal interface over Slurm's job queue: the jobs and partitions it
//! shows, how it parses what `sacct`, `sinfo` and `squeue` print, and how it
//! answers keys and clicks, each with its contract.
pub mod app;
pub mod clipboard;
pub mod details_view;
pub mod filter;
pub mod geometry;
pub mod job;
pub mod job_list;
pub mod keymap;
pub mod laws;
pub mod layout_text;
pub mod mouse;
pub mod order;
pub mod output_panel;
pub mod output_text;
pub mod paths;
pub mod resource_list;
pub mod resources;
pub mod screen_layout;
pub mod screen_text;
pub mod selection;
pub mod sacct;
pub mod sorting;
pub mod split;
pub mod squeue_args;
pub mod test_support;
pub mod text;
pub mod ui;

pub use app::{App, AppMessage};
pub use job::Job;
pub use squeue_args::SqueueArgs;
pub use ui::{AppExit, ConfirmCancelChoice, Dialog, Focus, OutputPanelMode, ScrollAnchor};
