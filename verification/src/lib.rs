//! Verified core of a terminal process and memory monitor.
pub mod text;
pub mod history;
pub mod snapshot;
pub mod num;
pub mod view;
pub mod collector;
pub mod columns;
pub mod owners;
pub mod sort;
pub mod tree;
pub mod navigation;
pub mod filter;
pub mod config;
pub mod input;
pub mod format;
pub mod app_state;
pub mod labels;
