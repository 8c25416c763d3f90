//! Window placement rules and queries for the COSMIC desktop.
pub mod cli;
pub mod compositor;
pub mod daemon;
pub mod decimal;
pub mod document;
pub mod editor;
pub mod error;
pub mod globs;
pub mod launch;
pub mod list;
pub mod model;
pub mod order;
pub mod panel;
pub mod query;
pub mod records;
pub mod rules;
pub mod text;
pub mod tracker;
pub mod watcher;
pub mod wayland;
