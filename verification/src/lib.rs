use vstd::prelude::*;

pub mod frame;
pub mod text;
pub mod ui;
pub mod wrap;
pub mod library;
pub mod draw;
pub mod bottom;
pub mod downloads;
pub mod cards;
pub mod popup;
pub mod tui;
pub mod ipc;
pub mod update;
pub mod note;
pub mod cli;
pub mod resolve;
pub mod webseed;
pub mod daemon;
pub mod screen;
