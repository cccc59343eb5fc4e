//! The terminal interface: its state, its keys and what its panes show.

pub mod app;
pub mod chrome;
pub mod config_map;
pub mod context;
pub mod create_provider;
pub mod create_sandbox;
pub mod dispatch;
pub mod draft;
pub mod draft_view;
pub mod keys;
pub mod layout;
pub mod logs;
pub mod measure;
pub mod model;
pub mod policy;
pub mod policy_pane;
pub mod popups;
pub mod provider;
pub mod provider_detail;
pub mod provider_pane;
pub mod rule_text;
pub mod scroll;
pub mod settings;
pub mod styled;
pub mod trust;
pub mod trust_view;
pub mod update_provider;
