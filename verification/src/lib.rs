//! A personal command-line stack manager's core: named ordered lists
//! of short text items, where the end of the sequence is the
//! most-recent ("top") item. This crate holds the verified logic —
//! the reordering effects (swap, rotate, cycle), the read-only view
//! effects (peek, list, head, tail, count, is-empty), and the
//! formatter that renders labeled rows as CSV, TSV, JSON or human
//! text. Loading and saving stacks, printing, and process exit stay
//! with the surrounding program: every effect here takes the loaded
//! items and hands back the new items, the lines to print, and (for
//! is-empty) the exit code.

pub mod items;
pub mod jsonval;
pub mod numfmt;
pub mod output;
pub mod paths;
pub mod shuffle;
pub mod views;
