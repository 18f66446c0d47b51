//! A status bar's refresh engine: two-sided layout of widgets, a per-widget
//! refresh schedule, and the decisions of the event loop that drives them.

pub mod config;
pub mod engine;
pub mod layout;
pub mod redraw;
pub mod text;
pub mod widgets;
