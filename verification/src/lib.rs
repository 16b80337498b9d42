//! A fixed-size grid of character cells with a modal, vi-like editor on top.
//!
//! The crate has three parts: the grid model itself ([`grid`]), a widget that
//! fills a grid region with a table of consecutive code points
//! ([`char_table`]), and the modal editor that turns key events into cursor
//! and cell mutations ([`poem`]).

pub mod char_table;
pub mod grid;
pub mod poem;
