//! Normalises the UTF-8 byte-order mark of text files.
//!
//! [`fix_rule`] turns the requested mode and the per-extension overrides into a
//! [`fix_rule::FixRule`], which decides for each extension whether the mark is
//! added or removed; [`formatter`] sorts the files of a run by that decision;
//! [`fixer`] carries the decision out on one file as a small state machine
//! whose input and output steps the caller performs; [`encoding`] tells UTF-8
//! text from other bytes.
pub mod encoding;
pub mod fix_rule;
pub mod fixer;
pub mod formatter;
