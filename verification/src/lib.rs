//! Scanning engine of a duplicate and unwanted-file finder: exclusion
//! patterns, per-entry filtering, grouping of discovered files, progress
//! reports and the bookkeeping around them, with machine-checked contracts.
//!
//! The library reads neither the file system nor the clock. Callers read
//! directories and hand the outcome over as plain values; every decision
//! taken on those values is made, and proved, here. Paths are handled as
//! text.

pub mod common;
pub mod common_dir_traversal;
pub mod common_directory;
pub mod common_extensions;
pub mod common_items;
pub mod common_tool;
pub mod common_traits;
pub mod progress_data;
pub mod sorting;
pub mod text;
