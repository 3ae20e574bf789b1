//! The log viewer's library: the views' state and key handling, the log
//! directory summary, snapshot decoding and the text formatting they use.
use vstd::prelude::*;

pub mod app_state;
pub mod bench;
pub mod dashboard;
pub mod demo;
pub mod data_loader;
pub mod event;
pub mod events_graph;
pub mod files;
pub mod layout;
pub mod logs;
pub mod logs_chart_widget;
pub mod logs_graph_widget;
pub mod logs_widget;
pub mod main_widget;
pub mod monitor;
pub mod numfmt;
pub mod rand;
pub mod services;
pub mod snapshot_widget;
pub mod snapshots;
pub mod sort;
pub mod system_info_widget;
pub mod tabs_widget;
pub mod text;
pub mod times;
pub mod utils;

verus! {
} // verus!
