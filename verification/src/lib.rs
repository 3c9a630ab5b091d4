//! Tramex: an analyser for 4G/5G radio traces, verified with Verus.

pub mod text;
pub mod format;
pub mod model;
pub mod event_bus;
pub mod rrc_status;
pub mod event_store;
pub mod application;
pub mod frontend;
pub mod navigation;
pub mod example;
pub mod resource_blocks;
pub mod grid_tooltip;
pub mod socket_manager;
pub mod utils;
pub mod theme;
pub mod channels;
pub mod identity;
pub mod harq;
pub mod power;
pub mod chronograph;
pub mod trame_manager;
pub mod about;
pub mod json;
pub mod rrc_field_viewer;
pub mod bst_config;
pub mod panel_message;
pub mod panels;
pub mod file_source;
