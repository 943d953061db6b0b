//! Retained widget-tree UI: alignment vocabulary, interactive hits, the button
//! press state machine and the UI engine handle.
pub mod engine;
pub mod layout;
pub mod widget;
