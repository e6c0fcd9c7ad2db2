//! Directory listing core: a calendar clock that renders timestamps as
//! `Mon DD HH:MM`, and a layout engine that packs names into the fewest rows
//! that fit a terminal.

pub mod calendar;
pub mod entry;
pub mod layout;
pub mod listing;
pub mod mode;
pub mod paint;
pub mod render;
pub mod text;
pub mod time;
pub mod time_order;
