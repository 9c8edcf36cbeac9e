//! The directories of a scan: where it starts, what it leaves out, and what
//! counts as reference material.

use vstd::prelude::*;
use vstd::string::StringExecFns;
use crate::text::has_prefix;
use crate::text::same_text;
use crate::text::starts_with_bytes;
use crate::text::utf8;

verus! {

/// `/`, which separates the components of a path.
pub const SLASH: u8 = 47u8;

/// `\`, which separates them too where the platform writes paths with it.
pub const BACKSLASH: u8 = 92u8;

/// The byte separates two components of a path.
pub open spec fn is_separator(byte: u8) -> bool {
    byte == SLASH || byte == BACKSLASH
}

/// `path` is `dir` itself or lies below it: it begins with `dir`, and what
/// follows, if anything, starts a new component.
pub open spec fn lies_within(dir: Seq<u8>, path: Seq<u8>) -> bool {
    &&& has_prefix(path, dir)
    &&& path.len() == dir.len() || (dir.len() > 0 && is_separator(dir.last())) || is_separator(
        path[dir.len() as int],
    )
}

/// The warning for an entry whose device could not be read.
pub open spec fn device_warning(path: Seq<char>, reason: Seq<char>) -> Seq<char> {
    "Cannot read the device of "@ + path + ", reason "@ + reason
}

/// The directory lists of a scan.
pub struct Directories {
    /// Where the scan starts.
    pub included_directories: Vec<String>,
    /// Directories that the scan does not enter.
    pub excluded_directories: Vec<String>,
    /// Directories whose files are the ones to keep of their groups.
    pub reference_directories: Vec<String>,
    /// Whether to stay on the file systems of the included directories.
    pub exclude_other_filesystems: Option<bool>,
    /// The devices of the included directories.
    pub included_dev_ids: Vec<u64>,
}

impl Directories {
    /// `path` is one of the excluded directories.
    pub open spec fn excludes(&self, path: Seq<char>) -> bool {
        exists|i: int|
            0 <= i < self.excluded_directories@.len() && (
            #[trigger] self.excluded_directories@[i])@ == path
    }

    /// `path` is a reference directory or lies below one.
    pub open spec fn references(&self, path: Seq<char>) -> bool {
        exists|i: int|
            0 <= i < self.reference_directories@.len() && lies_within(
                utf8((#[trigger] self.reference_directories@[i])@),
                utf8(path),
            )
    }

    /// Whether the scan stays on the file systems of its included
    /// directories.
    pub open spec fn stays_on_filesystems(&self) -> bool {
        self.exclude_other_filesystems == Some(true)
    }

    /// What the boundary check says of an entry whose device was read as
    /// `device`: whether it lies on another file system, or why that is not
    /// known.
    pub open spec fn other_filesystem(
        &self,
        path: Seq<char>,
        device: Result<u64, String>,
    ) -> Result<bool, Seq<char>> {
        match device {
            Ok(id) => Ok(!self.included_dev_ids@.contains(id)),
            Err(reason) => Err(device_warning(path, reason@)),
        }
    }

    /// Empty lists, and no boundary check.
    pub fn new() -> (r: Self)
        ensures
            r.included_directories@.len() == 0,
            r.excluded_directories@.len() == 0,
            r.reference_directories@.len() == 0,
            r.exclude_other_filesystems is None,
            r.included_dev_ids@.len() == 0,
    {
        Directories {
            included_directories: Vec::new(),
            excluded_directories: Vec::new(),
            reference_directories: Vec::new(),
            exclude_other_filesystems: None,
            included_dev_ids: Vec::new(),
        }
    }

    /// Replaces the included directories.
    pub fn set_included_directory(&mut self, included_directory: Vec<String>)
        ensures
            final(self).included_directories == included_directory,
            final(self).excluded_directories == old(self).excluded_directories,
            final(self).reference_directories == old(self).reference_directories,
            final(self).exclude_other_filesystems == old(self).exclude_other_filesystems,
            final(self).included_dev_ids == old(self).included_dev_ids,
    {
        self.included_directories = included_directory;
    }

    /// Replaces the excluded directories.
    pub fn set_excluded_directory(&mut self, excluded_directory: Vec<String>)
        ensures
            final(self).excluded_directories == excluded_directory,
            final(self).included_directories == old(self).included_directories,
            final(self).reference_directories == old(self).reference_directories,
            final(self).exclude_other_filesystems == old(self).exclude_other_filesystems,
            final(self).included_dev_ids == old(self).included_dev_ids,
    {
        self.excluded_directories = excluded_directory;
    }

    /// Replaces the reference directories.
    pub fn set_reference_directory(&mut self, reference_directory: Vec<String>)
        ensures
            final(self).reference_directories == reference_directory,
            final(self).included_directories == old(self).included_directories,
            final(self).excluded_directories == old(self).excluded_directories,
            final(self).exclude_other_filesystems == old(self).exclude_other_filesystems,
            final(self).included_dev_ids == old(self).included_dev_ids,
    {
        self.reference_directories = reference_directory;
    }

    /// Switches the boundary check on or off, with the devices that count
    /// as the scan's own.
    pub fn set_exclude_other_filesystems(&mut self, exclude: bool, included_dev_ids: Vec<u64>)
        ensures
            final(self).exclude_other_filesystems == Some(exclude),
            final(self).included_dev_ids == included_dev_ids,
            final(self).included_directories == old(self).included_directories,
            final(self).excluded_directories == old(self).excluded_directories,
            final(self).reference_directories == old(self).reference_directories,
    {
        self.exclude_other_filesystems = Some(exclude);
        self.included_dev_ids = included_dev_ids;
    }

    /// Tells whether `path` is one of the excluded directories.
    pub fn is_excluded(&self, path: &str) -> (r: bool)
        ensures
            r == self.excludes(path@),
    {
        let mut i: usize = 0;
        while i < self.excluded_directories.len()
            invariant
                i <= self.excluded_directories.len(),
                forall|j: int| 0 <= j < i ==> (#[trigger] self.excluded_directories@[j])@ != path@,
            decreases self.excluded_directories.len() - i,
        {
            if same_text(self.excluded_directories[i].as_str(), path) {
                return true;
            }
            i += 1;
        }
        false
    }

    /// Tells whether the scan stays on the file systems of its included
    /// directories.
    pub fn exclude_other_filesystems(&self) -> (r: bool)
        ensures
            r == self.stays_on_filesystems(),
    {
        match self.exclude_other_filesystems {
            Some(exclude) => exclude,
            None => false,
        }
    }

    /// Tells whether an entry lies on another file system than the included
    /// directories, from the device that was read for it.
    pub fn is_on_other_filesystems(&self, path: &str, device: &Result<u64, String>) -> (r: Result<
        bool,
        String,
    >)
        ensures
            match self.other_filesystem(path@, *device) {
                Ok(other) => r == Ok::<bool, String>(other),
                Err(warning) => r is Err && r->Err_0@ == warning,
            },
    {
        match device {
            Ok(id) => {
                let mut i: usize = 0;
                while i < self.included_dev_ids.len()
                    invariant
                        i <= self.included_dev_ids.len(),
                        *device == Ok::<u64, String>(*id),
                        forall|j: int| 0 <= j < i ==> self.included_dev_ids@[j] != *id,
                    decreases self.included_dev_ids.len() - i,
                {
                    if self.included_dev_ids[i] == *id {
                        assert(self.included_dev_ids@.contains(*id)) by {
                            assert(self.included_dev_ids@[i as int] == *id);
                        }
                        return Ok(false);
                    }
                    i += 1;
                }
                Ok(true)
            },
            Err(reason) => Err(
                String::from_str("Cannot read the device of ").concat(path).concat(
                    ", reason ",
                ).concat(reason.as_str()),
            ),
        }
    }

    /// Tells whether `path` is a reference directory or lies below one.
    pub fn is_in_referenced_directory(&self, path: &str) -> (r: bool)
        ensures
            r == self.references(path@),
    {
        let bytes = path.as_bytes();
        let mut i: usize = 0;
        while i < self.reference_directories.len()
            invariant
                i <= self.reference_directories.len(),
                bytes@ == utf8(path@),
                forall|j: int|
                    0 <= j < i ==> !lies_within(
                        utf8((#[trigger] self.reference_directories@[j])@),
                        utf8(path@),
                    ),
            decreases self.reference_directories.len() - i,
        {
            let dir = self.reference_directories[i].as_str().as_bytes();
            if starts_with_bytes(bytes, dir) {
                if bytes.len() == dir.len() || (dir.len() > 0 && (dir[dir.len() - 1] == SLASH
                    || dir[dir.len() - 1] == BACKSLASH)) || bytes[dir.len()] == SLASH
                    || bytes[dir.len()] == BACKSLASH {
                    return true;
                }
            }
            i += 1;
        }
        false
    }
}

} // verus!
