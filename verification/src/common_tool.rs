//! The settings that every tool carries.

use vstd::prelude::*;
use crate::common_dir_traversal::ToolType;
use crate::common_directory::Directories;
use crate::common_extensions::Extensions;
use crate::common_items::ExcludedItems;

verus! {

/// The smallest file that a tool looks at unless it is told otherwise.
pub const DEFAULT_MINIMAL_FILE_SIZE: u64 = 8192;

/// The settings shared by all tools.
pub struct CommonToolData {
    /// The tool these settings belong to.
    pub tool_type: ToolType,
    /// The directory lists.
    pub directories: Directories,
    /// The extension allow-list.
    pub extensions: Extensions,
    /// The exclusion expressions.
    pub excluded_items: ExcludedItems,
    /// Whether directories below the included ones are entered.
    pub recursive_search: bool,
    /// The smallest size that a file may have, itself included.
    pub minimal_file_size: u64,
    /// The largest size that a file may have, itself included.
    pub maximal_file_size: u64,
}

impl CommonToolData {
    /// The settings a tool starts with: a recursive scan of nothing yet,
    /// that excludes nothing and keeps files of 8192 bytes and more.
    pub fn new(tool_type: ToolType) -> (r: Self)
        ensures
            r.tool_type == tool_type,
            r.recursive_search,
            r.minimal_file_size == DEFAULT_MINIMAL_FILE_SIZE,
            r.maximal_file_size == u64::MAX,
            r.directories.included_directories@.len() == 0,
            r.directories.excluded_directories@.len() == 0,
            r.directories.reference_directories@.len() == 0,
            r.directories.exclude_other_filesystems is None,
            r.excluded_items.expressions().len() == 0,
            r.extensions.allowed_extensions().len() == 0,
    {
        CommonToolData {
            tool_type,
            directories: Directories::new(),
            extensions: Extensions::new(),
            excluded_items: ExcludedItems::new(),
            recursive_search: true,
            minimal_file_size: DEFAULT_MINIMAL_FILE_SIZE,
            maximal_file_size: u64::MAX,
        }
    }

    /// Sets the smallest size that a file may have.
    pub fn set_minimal_file_size(&mut self, minimal_file_size: u64)
        ensures
            *final(self) == (CommonToolData { minimal_file_size, ..*old(self) }),
    {
        self.minimal_file_size = minimal_file_size;
    }

    /// Sets the largest size that a file may have.
    pub fn set_maximal_file_size(&mut self, maximal_file_size: u64)
        ensures
            *final(self) == (CommonToolData { maximal_file_size, ..*old(self) }),
    {
        self.maximal_file_size = maximal_file_size;
    }

    /// Says whether directories below the included ones are entered.
    pub fn set_recursive_search(&mut self, recursive_search: bool)
        ensures
            *final(self) == (CommonToolData { recursive_search, ..*old(self) }),
    {
        self.recursive_search = recursive_search;
    }
}

} // verus!
