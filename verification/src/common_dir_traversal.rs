//! Walking directory trees level by level and grouping what is found.
//!
//! Reading a directory is the caller's part. What was read comes in as
//! [`DirEntryData`] records, and everything decided on them is decided
//! here: which entries count, which directories are entered next, which
//! warnings are raised, and how the files found are grouped.

use std::collections::BTreeMap;
use std::sync::atomic::AtomicBool;
use std::sync::atomic::AtomicUsize;
use std::sync::Arc;
use vstd::prelude::*;
use vstd::string::StringExecFns;
use crate::common::check_if_stop_received;
use crate::common::count_checked_items;
use crate::common::WorkContinueStatus;
use crate::common_directory::Directories;
use crate::common_extensions::Extensions;
use crate::common_items::ExcludedItems;
use crate::common_tool::CommonToolData;
use crate::common_traits::ResultEntry;
use crate::progress_data::ProgressData;
use crate::sorting::sort_by_path;
use crate::sorting::sort_entries_by_path;
use crate::text::push_text;
use crate::text::texts;
use crate::text::utf8;

verus! {

/// The tool on whose behalf a scan runs; it labels progress reports.
#[derive(Debug, PartialEq, Eq, Clone, Copy, Default, Structural)]
pub enum ToolType {
    Duplicate,
    EmptyFolders,
    EmptyFiles,
    InvalidSymlinks,
    BrokenFiles,
    BadExtensions,
    BigFile,
    SameMusic,
    SimilarImages,
    SimilarVideos,
    TemporaryFiles,
    /// No tool: the placeholder that a scan must not run under.
    #[default]
    NotSet,
}

/// How a tool tells its groups apart; it labels progress reports.
#[derive(PartialEq, Eq, Clone, Debug, Copy, Default, Structural)]
pub enum CheckingMethod {
    /// No method: the tool has only one way to work.
    #[default]
    NotSet,
    Name,
    SizeName,
    Size,
    Hash,
    AudioTags,
    AudioContent,
}

/// One file that a scan found, or one symlink where symlinks are
/// collected.
#[derive(Clone, Debug, Default, PartialEq, Eq, Hash)]
pub struct FileEntry {
    /// The full path.
    pub path: String,
    /// The size in bytes.
    pub size: u64,
    /// The modification time in seconds since the Unix epoch; 0 where the
    /// file system gave none or one before the epoch.
    pub modified_date: u64,
}

impl ResultEntry for FileEntry {
    open spec fn path_text(&self) -> Seq<char> {
        self.path@
    }

    open spec fn modified_date_value(&self) -> u64 {
        self.modified_date
    }

    open spec fn size_value(&self) -> u64 {
        self.size
    }

    fn get_path(&self) -> (r: &str) {
        self.path.as_str()
    }

    fn get_modified_date(&self) -> (r: u64) {
        self.modified_date
    }

    fn get_size(&self) -> (r: u64) {
        self.size
    }
}

/// Why a symlink is invalid.
#[derive(Clone, Debug, PartialEq, Eq, Copy, Structural)]
pub enum ErrorType {
    InfiniteRecursion,
    NonExistentFile,
}

impl ErrorType {
    /// The words for the error.
    pub open spec fn text(&self) -> Seq<char> {
        match self {
            ErrorType::InfiniteRecursion => "Infinite recursion"@,
            ErrorType::NonExistentFile => "Non existent file"@,
        }
    }

    /// The error in words.
    pub fn to_string(&self) -> (r: String)
        ensures
            r@ == self.text(),
    {
        match self {
            ErrorType::InfiniteRecursion => String::from_str("Infinite recursion"),
            ErrorType::NonExistentFile => String::from_str("Non existent file"),
        }
    }
}

/// What a scan gathers.
#[derive(Copy, Clone, Eq, PartialEq, Debug, Structural)]
pub enum Collect {
    /// Symlinks, for a later look at where they point.
    InvalidSymlinks,
    /// Regular files.
    Files,
}

/// What kind of thing a directory entry is.
#[derive(Eq, PartialEq, Copy, Clone, Debug, Structural)]
pub enum EntryType {
    File,
    Dir,
    Symlink,
    Other,
}

/// What the file system says of an entry's type.
#[derive(Eq, PartialEq, Copy, Clone, Debug, Structural)]
pub struct FileTypeFlags {
    pub is_dir: bool,
    pub is_symlink: bool,
    pub is_file: bool,
}

/// The modification time of an entry, as far as it could be read.
#[derive(Clone, Debug, PartialEq, Eq)]
pub enum ModifiedTime {
    /// This many whole seconds after the Unix epoch.
    SinceEpoch(u64),
    /// Some time before the Unix epoch.
    BeforeEpoch,
    /// Not known, and why.
    Unavailable(String),
}

/// The metadata of an entry.
#[derive(Clone, Debug, PartialEq, Eq)]
pub struct EntryMetadata {
    /// The size in bytes.
    pub size: u64,
    /// When the entry was last modified.
    pub modified: ModifiedTime,
}

/// One entry of a directory, as the caller read it.
#[derive(Debug)]
pub struct DirEntryData {
    /// The full path of the entry.
    pub path: String,
    /// Its name within the directory.
    pub file_name: String,
    /// Its type, where that could be read.
    pub file_type: Option<FileTypeFlags>,
    /// Its own metadata, a symlink's rather than its target's, or why
    /// there is none.
    pub metadata: Result<EntryMetadata, String>,
    /// The device it lies on, or why that is not known.
    pub device: Result<u64, String>,
}

/// The warning for a directory that could not be opened.
pub open spec fn cannot_open_dir(dir: Seq<char>, reason: Seq<char>) -> Seq<char> {
    "Cannot open dir "@ + dir + ", reason "@ + reason
}

/// The warning for a directory entry that could not be read.
pub open spec fn cannot_read_entry(dir: Seq<char>, reason: Seq<char>) -> Seq<char> {
    "Cannot read entry in dir "@ + dir + ", reason "@ + reason
}

/// The warning for an entry whose metadata could not be read.
pub open spec fn cannot_read_metadata(dir: Seq<char>, reason: Seq<char>) -> Seq<char> {
    "Cannot read metadata in dir "@ + dir + ", reason "@ + reason
}

/// The warning for an entry modified before the Unix epoch.
pub open spec fn modified_before_epoch(name: Seq<char>, is_folder: bool) -> Seq<char> {
    if is_folder {
        "Folder "@ + name + " seems to be modified before Unix Epoch"@
    } else {
        "File "@ + name + " seems to be modified before Unix Epoch"@
    }
}

/// The warning for an entry without a modification time.
pub open spec fn no_modification_date(
    name: Seq<char>,
    reason: Seq<char>,
    is_folder: bool,
) -> Seq<char> {
    if is_folder {
        "Unable to get modification date from folder "@ + name + ", reason "@ + reason
    } else {
        "Unable to get modification date from file "@ + name + ", reason "@ + reason
    }
}

/// The seconds since the Unix epoch that stand for a modification time: the
/// time itself where it is known and not before the epoch, else 0.
pub open spec fn modified_seconds(modified: ModifiedTime) -> u64 {
    match modified {
        ModifiedTime::SinceEpoch(seconds) => seconds,
        ModifiedTime::BeforeEpoch => 0,
        ModifiedTime::Unavailable(_) => 0,
    }
}

/// The warnings that a modification time gives rise to: none where it is
/// known and not before the epoch, else one.
pub open spec fn modified_warnings(
    modified: ModifiedTime,
    name: Seq<char>,
    is_folder: bool,
) -> Seq<Seq<char>> {
    match modified {
        ModifiedTime::SinceEpoch(_) => Seq::empty(),
        ModifiedTime::BeforeEpoch => seq![modified_before_epoch(name, is_folder)],
        ModifiedTime::Unavailable(reason) => seq![no_modification_date(name, reason@, is_folder)],
    }
}

/// The kind of an entry, from what the file system says of its type.
pub open spec fn kind_of(flags: FileTypeFlags) -> EntryType {
    if flags.is_dir {
        EntryType::Dir
    } else if flags.is_symlink {
        EntryType::Symlink
    } else if flags.is_file {
        EntryType::File
    } else {
        EntryType::Other
    }
}

/// Tells the kind of an entry from what the file system says of its type.
pub fn entry_type(file_type: FileTypeFlags) -> (r: EntryType)
    ensures
        r == kind_of(file_type),
{
    if file_type.is_dir {
        EntryType::Dir
    } else if file_type.is_symlink {
        EntryType::Symlink
    } else if file_type.is_file {
        EntryType::File
    } else {
        EntryType::Other
    }
}

/// Hands on the entries of a directory that could be opened; for one that
/// could not, raises a warning and gives nothing.
pub fn common_read_dir(
    current_folder: &str,
    read: Result<Vec<Result<DirEntryData, String>>, String>,
    warnings: &mut Vec<String>,
) -> (r: Option<Vec<Result<DirEntryData, String>>>)
    ensures
        match read {
            Ok(entries) => r == Some(entries) && texts(final(warnings)@) == texts(old(warnings)@),
            Err(reason) => r is None && texts(final(warnings)@) == texts(old(warnings)@).push(
                cannot_open_dir(current_folder@, reason@),
            ),
        },
{
    match read {
        Ok(entries) => Some(entries),
        Err(reason) => {
            push_text(
                warnings,
                String::from_str("Cannot open dir ").concat(current_folder).concat(
                    ", reason ",
                ).concat(reason.as_str()),
            );
            None
        },
    }
}

/// Hands on an entry that could be read; for one that could not, raises a
/// warning and gives nothing.
pub fn common_get_entry_data<'a>(
    entry: &'a Result<DirEntryData, String>,
    warnings: &mut Vec<String>,
    current_folder: &str,
) -> (r: Option<&'a DirEntryData>)
    ensures
        match *entry {
            Ok(data) => r == Some(&data) && texts(final(warnings)@) == texts(old(warnings)@),
            Err(reason) => r is None && texts(final(warnings)@) == texts(old(warnings)@).push(
                cannot_read_entry(current_folder@, reason@),
            ),
        },
{
    match entry {
        Ok(data) => Some(data),
        Err(reason) => {
            push_text(
                warnings,
                String::from_str("Cannot read entry in dir ").concat(current_folder).concat(
                    ", reason ",
                ).concat(reason.as_str()),
            );
            None
        },
    }
}

/// Hands on the metadata of an entry where it could be read; where it
/// could not, raises a warning and gives nothing.
pub fn common_get_metadata_dir<'a>(
    entry_data: &'a DirEntryData,
    warnings: &mut Vec<String>,
    current_folder: &str,
) -> (r: Option<&'a EntryMetadata>)
    ensures
        match entry_data.metadata {
            Ok(metadata) => r == Some(&metadata) && texts(final(warnings)@) == texts(
                old(warnings)@,
            ),
            Err(reason) => r is None && texts(final(warnings)@) == texts(old(warnings)@).push(
                cannot_read_metadata(current_folder@, reason@),
            ),
        },
{
    match &entry_data.metadata {
        Ok(metadata) => Some(metadata),
        Err(reason) => {
            push_text(
                warnings,
                String::from_str("Cannot read metadata in dir ").concat(current_folder).concat(
                    ", reason ",
                ).concat(reason.as_str()),
            );
            None
        },
    }
}

/// The modification time of an entry in seconds since the Unix epoch.
///
/// A time before the epoch, or none at all, counts as 0 and raises a
/// warning.
pub fn get_modified_time(
    metadata: &EntryMetadata,
    warnings: &mut Vec<String>,
    current_file_name: &str,
    is_folder: bool,
) -> (r: u64)
    ensures
        r == modified_seconds(metadata.modified),
        texts(final(warnings)@) == texts(old(warnings)@) + modified_warnings(
            metadata.modified,
            current_file_name@,
            is_folder,
        ),
{
    match &metadata.modified {
        ModifiedTime::SinceEpoch(seconds) => {
            assert(texts(warnings@) + Seq::<Seq<char>>::empty() =~= texts(warnings@));
            *seconds
        },
        ModifiedTime::BeforeEpoch => {
            let ghost before = texts(warnings@);
            if is_folder {
                push_text(
                    warnings,
                    String::from_str("Folder ").concat(current_file_name).concat(
                        " seems to be modified before Unix Epoch",
                    ),
                );
            } else {
                push_text(
                    warnings,
                    String::from_str("File ").concat(current_file_name).concat(
                        " seems to be modified before Unix Epoch",
                    ),
                );
            }
            assert(texts(warnings@) =~= before + seq![
                modified_before_epoch(current_file_name@, is_folder),
            ]);
            0
        },
        ModifiedTime::Unavailable(reason) => {
            let ghost before = texts(warnings@);
            if is_folder {
                push_text(
                    warnings,
                    String::from_str("Unable to get modification date from folder ").concat(
                        current_file_name,
                    ).concat(", reason ").concat(reason.as_str()),
                );
            } else {
                push_text(
                    warnings,
                    String::from_str("Unable to get modification date from file ").concat(
                        current_file_name,
                    ).concat(", reason ").concat(reason.as_str()),
                );
            }
            assert(texts(warnings@) =~= before + seq![
                no_modification_date(current_file_name@, reason@, is_folder),
            ]);
            0
        },
    }
}

/// The entry lies on another file system than the scan may leave its own
/// for.
pub open spec fn crosses_boundary(
    directories: &Directories,
    path: Seq<char>,
    device: Result<u64, String>,
) -> bool {
    directories.stays_on_filesystems() && directories.other_filesystem(path, device) == Ok::<
        bool,
        Seq<char>,
    >(true)
}

/// The warnings of the boundary check: one where the scan stays on its
/// file systems and the entry's device is not known.
pub open spec fn boundary_warnings(
    directories: &Directories,
    path: Seq<char>,
    device: Result<u64, String>,
) -> Seq<Seq<char>> {
    if directories.stays_on_filesystems() {
        match directories.other_filesystem(path, device) {
            Ok(_) => Seq::empty(),
            Err(warning) => seq![warning],
        }
    } else {
        Seq::empty()
    }
}

/// A directory is entered on the next level: the scan is recursive, and
/// neither the excluded directories, the exclusion expressions nor the
/// boundary check keep it out.
pub open spec fn dir_mode_enters(
    recursive_search: bool,
    entry: &DirEntryData,
    directories: &Directories,
    excluded_items: &ExcludedItems,
) -> bool {
    &&& recursive_search
    &&& !directories.excludes(entry.path@)
    &&& !excluded_items.excludes(utf8(entry.path@))
    &&& !crosses_boundary(directories, entry.path@, entry.device)
}

/// The warnings that a directory gives rise to.
pub open spec fn dir_mode_warnings(
    recursive_search: bool,
    entry: &DirEntryData,
    directories: &Directories,
    excluded_items: &ExcludedItems,
) -> Seq<Seq<char>> {
    if recursive_search && !directories.excludes(entry.path@) && !excluded_items.excludes(
        utf8(entry.path@),
    ) {
        boundary_warnings(directories, entry.path@, entry.device)
    } else {
        Seq::empty()
    }
}

/// A file or symlink passes the filters: its extension is allowed, no
/// exclusion expression matches its path, and the boundary check lets it
/// through.
pub open spec fn passes_filters(
    entry: &DirEntryData,
    extensions: &Extensions,
    directories: &Directories,
    excluded_items: &ExcludedItems,
) -> bool {
    &&& extensions.allows(utf8(entry.file_name@))
    &&& !excluded_items.excludes(utf8(entry.path@))
    &&& !crosses_boundary(directories, entry.path@, entry.device)
}

/// The warnings that the filters give rise to.
pub open spec fn filter_warnings(
    entry: &DirEntryData,
    extensions: &Extensions,
    directories: &Directories,
    excluded_items: &ExcludedItems,
) -> Seq<Seq<char>> {
    if extensions.allows(utf8(entry.file_name@)) && !excluded_items.excludes(utf8(entry.path@)) {
        boundary_warnings(directories, entry.path@, entry.device)
    } else {
        Seq::empty()
    }
}

/// The record of an entry with this metadata.
pub open spec fn entry_of(entry: &DirEntryData, metadata: EntryMetadata) -> FileEntry {
    FileEntry {
        path: entry.path,
        size: metadata.size,
        modified_date: modified_seconds(metadata.modified),
    }
}

/// The size lies within the bounds, which both count as inside.
pub open spec fn size_within(size: u64, minimal_file_size: u64, maximal_file_size: u64) -> bool {
    minimal_file_size <= size <= maximal_file_size
}

/// What a file adds to the files found: its record, where it passes the
/// filters, its metadata could be read and its size lies within the
/// bounds; else nothing.
pub open spec fn file_mode_entries(
    entry: &DirEntryData,
    extensions: &Extensions,
    directories: &Directories,
    excluded_items: &ExcludedItems,
    minimal_file_size: u64,
    maximal_file_size: u64,
) -> Seq<FileEntry> {
    if passes_filters(entry, extensions, directories, excluded_items) {
        match entry.metadata {
            Ok(metadata) => if size_within(metadata.size, minimal_file_size, maximal_file_size) {
                seq![entry_of(entry, metadata)]
            } else {
                Seq::empty()
            },
            Err(_) => Seq::empty(),
        }
    } else {
        Seq::empty()
    }
}

/// The warnings that a file gives rise to.
pub open spec fn file_mode_warnings(
    entry: &DirEntryData,
    extensions: &Extensions,
    directories: &Directories,
    excluded_items: &ExcludedItems,
    minimal_file_size: u64,
    maximal_file_size: u64,
) -> Seq<Seq<char>> {
    filter_warnings(entry, extensions, directories, excluded_items) + (if passes_filters(
        entry,
        extensions,
        directories,
        excluded_items,
    ) {
        match entry.metadata {
            Ok(metadata) => if size_within(metadata.size, minimal_file_size, maximal_file_size) {
                modified_warnings(metadata.modified, entry.path@, false)
            } else {
                Seq::empty()
            },
            Err(reason) => seq![cannot_read_metadata(entry.path@, reason@)],
        }
    } else {
        Seq::empty()
    })
}

/// A file whose metadata could be read and that passes the filters is kept
/// exactly when its size is no smaller than the lower bound and no larger
/// than the upper one: a file of exactly either bound is kept, one a byte
/// outside is not.
pub proof fn lemma_size_bounds_are_inclusive(
    entry: &DirEntryData,
    extensions: &Extensions,
    directories: &Directories,
    excluded_items: &ExcludedItems,
    minimal_file_size: u64,
    maximal_file_size: u64,
)
    requires
        passes_filters(entry, extensions, directories, excluded_items),
        entry.metadata is Ok,
    ensures
        ({
            let size = entry.metadata->Ok_0.size;
            let kept = file_mode_entries(
                entry,
                extensions,
                directories,
                excluded_items,
                minimal_file_size,
                maximal_file_size,
            );
            &&& minimal_file_size <= size <= maximal_file_size ==> kept == seq![
                entry_of(entry, entry.metadata->Ok_0),
            ]
            &&& (size < minimal_file_size || size > maximal_file_size) ==> kept.len() == 0
            &&& minimal_file_size <= maximal_file_size && (size == minimal_file_size || size
                == maximal_file_size) ==> kept.len() == 1
            &&& (size + 1 == minimal_file_size || size == maximal_file_size + 1) ==> kept.len()
                == 0
        }),
{
}

/// Decides whether the boundary check keeps an entry out, and raises its
/// warning where the entry's device is not known.
fn check_boundary(
    directories: &Directories,
    path: &str,
    device: &Result<u64, String>,
    warnings: &mut Vec<String>,
) -> (crosses: bool)
    ensures
        crosses == crosses_boundary(directories, path@, *device),
        texts(final(warnings)@) == texts(old(warnings)@) + boundary_warnings(
            directories,
            path@,
            *device,
        ),
{
    let ghost before = texts(warnings@);
    if directories.exclude_other_filesystems() {
        match directories.is_on_other_filesystems(path, device) {
            Ok(other) => {
                assert(before + Seq::<Seq<char>>::empty() =~= before);
                other
            },
            Err(warning) => {
                push_text(warnings, warning);
                assert(texts(warnings@) =~= before + seq![warning@]);
                false
            },
        }
    } else {
        assert(before + Seq::<Seq<char>>::empty() =~= before);
        false
    }
}

/// Handles a regular file where files are collected: where it passes the
/// filters and its size lies within the bounds, its record joins
/// `fe_result`.
pub fn process_file_in_file_mode(
    entry_data: &DirEntryData,
    warnings: &mut Vec<String>,
    fe_result: &mut Vec<FileEntry>,
    extensions: &Extensions,
    directories: &Directories,
    excluded_items: &ExcludedItems,
    minimal_file_size: u64,
    maximal_file_size: u64,
)
    ensures
        final(fe_result)@ == old(fe_result)@ + file_mode_entries(
            entry_data,
            extensions,
            directories,
            excluded_items,
            minimal_file_size,
            maximal_file_size,
        ),
        texts(final(warnings)@) == texts(old(warnings)@) + file_mode_warnings(
            entry_data,
            extensions,
            directories,
            excluded_items,
            minimal_file_size,
            maximal_file_size,
        ),
{
    let ghost warned = texts(warnings@);
    let ghost found = fe_result@;
    let ghost none = Seq::<Seq<char>>::empty();
    assert(found + Seq::<FileEntry>::empty() =~= found);
    assert(warned + (none + none) =~= warned);
    if !extensions.check_if_entry_have_valid_extension(entry_data.file_name.as_str()) {
        return ;
    }
    let current_file_name = entry_data.path.as_str();
    if excluded_items.is_excluded(current_file_name) {
        return ;
    }
    let crosses = check_boundary(directories, current_file_name, &entry_data.device, warnings);
    let ghost filtered = texts(warnings@);
    assert(filtered + none =~= filtered);
    if crosses {
        return ;
    }
    let metadata = match common_get_metadata_dir(entry_data, warnings, current_file_name) {
        Some(metadata) => metadata,
        None => {
            assert(texts(warnings@) =~= warned + (filter_warnings(
                entry_data,
                extensions,
                directories,
                excluded_items,
            ) + seq![cannot_read_metadata(entry_data.path@, entry_data.metadata->Err_0@)]));
            return ;
        },
    };
    if minimal_file_size <= metadata.size && metadata.size <= maximal_file_size {
        let modified_date = get_modified_time(metadata, warnings, current_file_name, false);
        let fe = FileEntry {
            size: metadata.size,
            modified_date,
            path: entry_data.path.clone(),
        };
        fe_result.push(fe);
        assert(fe_result@ =~= found + seq![entry_of(entry_data, *metadata)]);
        assert(texts(warnings@) =~= warned + (filter_warnings(
            entry_data,
            extensions,
            directories,
            excluded_items,
        ) + modified_warnings(metadata.modified, entry_data.path@, false)));
    }
}

/// Handles a directory: where the scan is recursive and nothing keeps the
/// directory out, its path joins `dir_result`, to be read on the next
/// level.
pub fn process_dir_in_file_symlink_mode(
    recursive_search: bool,
    entry_data: &DirEntryData,
    directories: &Directories,
    dir_result: &mut Vec<String>,
    warnings: &mut Vec<String>,
    excluded_items: &ExcludedItems,
)
    ensures
        final(dir_result)@ == if dir_mode_enters(
            recursive_search,
            entry_data,
            directories,
            excluded_items,
        ) {
            old(dir_result)@.push(entry_data.path)
        } else {
            old(dir_result)@
        },
        texts(final(warnings)@) == texts(old(warnings)@) + dir_mode_warnings(
            recursive_search,
            entry_data,
            directories,
            excluded_items,
        ),
{
    let ghost warned = texts(warnings@);
    assert(warned + Seq::<Seq<char>>::empty() =~= warned);
    if !recursive_search {
        return ;
    }
    let dir_path = entry_data.path.as_str();
    if directories.is_excluded(dir_path) {
        return ;
    }
    if excluded_items.is_excluded(dir_path) {
        return ;
    }
    if check_boundary(directories, dir_path, &entry_data.device, warnings) {
        return ;
    }
    dir_result.push(entry_data.path.clone());
}

/// Handles a symlink where symlinks are collected: where it passes the
/// filters, its record, made from the link's own metadata, joins
/// `fe_result`.
pub fn process_symlink_in_symlink_mode(
    entry_data: &DirEntryData,
    warnings: &mut Vec<String>,
    fe_result: &mut Vec<FileEntry>,
    extensions: &Extensions,
    directories: &Directories,
    excluded_items: &ExcludedItems,
)
    ensures
        final(fe_result)@ == old(fe_result)@ + file_mode_entries(
            entry_data,
            extensions,
            directories,
            excluded_items,
            0,
            u64::MAX,
        ),
        texts(final(warnings)@) == texts(old(warnings)@) + file_mode_warnings(
            entry_data,
            extensions,
            directories,
            excluded_items,
            0,
            u64::MAX,
        ),
{
    process_file_in_file_mode(
        entry_data,
        warnings,
        fe_result,
        extensions,
        directories,
        excluded_items,
        0,
        u64::MAX,
    );
}

/// The rules that decide what a scan keeps.
pub struct TraversalRules {
    /// What is gathered: files or symlinks.
    pub collect: Collect,
    /// Whether directories below the roots are entered.
    pub recursive_search: bool,
    /// The directory lists.
    pub directories: Directories,
    /// The exclusion expressions.
    pub excluded_items: ExcludedItems,
    /// The extension allow-list.
    pub extensions: Extensions,
    /// The smallest size that a file may have, itself included.
    pub minimal_file_size: u64,
    /// The largest size that a file may have, itself included.
    pub maximal_file_size: u64,
}

/// What was found in some part of a directory.
pub struct Found {
    /// The directories to read on the next level.
    pub dirs: Seq<String>,
    /// The warnings raised, as texts.
    pub warnings: Seq<Seq<char>>,
    /// The records of the files that are kept.
    pub entries: Seq<FileEntry>,
    /// How many files were looked at, kept or not.
    pub files_seen: nat,
}

impl Found {
    /// Nothing at all.
    pub open spec fn nothing() -> Found {
        Found { dirs: Seq::empty(), warnings: Seq::empty(), entries: Seq::empty(), files_seen: 0 }
    }

    /// What was found first, then what was found next.
    pub open spec fn followed_by(self, next: Found) -> Found {
        Found {
            dirs: self.dirs + next.dirs,
            warnings: self.warnings + next.warnings,
            entries: self.entries + next.entries,
            files_seen: self.files_seen + next.files_seen,
        }
    }
}

impl TraversalRules {
    /// What one entry that could be read adds.
    ///
    /// A directory may be entered on the next level. A regular file counts
    /// as seen, and is kept where files are collected and it passes the
    /// filters. A symlink counts and is kept where symlinks are collected;
    /// where files are, it is passed over, as is everything that is
    /// neither directory, file nor symlink, and every entry whose type is
    /// not known.
    pub open spec fn data_found(&self, data: &DirEntryData) -> Found {
        match data.file_type {
            None => Found::nothing(),
            Some(flags) => match (kind_of(flags), self.collect) {
                (EntryType::Dir, _) => Found {
                    dirs: if dir_mode_enters(
                        self.recursive_search,
                        data,
                        &self.directories,
                        &self.excluded_items,
                    ) {
                        seq![data.path]
                    } else {
                        Seq::empty()
                    },
                    warnings: dir_mode_warnings(
                        self.recursive_search,
                        data,
                        &self.directories,
                        &self.excluded_items,
                    ),
                    entries: Seq::empty(),
                    files_seen: 0,
                },
                (EntryType::File, Collect::Files) => Found {
                    dirs: Seq::empty(),
                    warnings: file_mode_warnings(
                        data,
                        &self.extensions,
                        &self.directories,
                        &self.excluded_items,
                        self.minimal_file_size,
                        self.maximal_file_size,
                    ),
                    entries: file_mode_entries(
                        data,
                        &self.extensions,
                        &self.directories,
                        &self.excluded_items,
                        self.minimal_file_size,
                        self.maximal_file_size,
                    ),
                    files_seen: 1,
                },
                (EntryType::File, Collect::InvalidSymlinks) => Found {
                    dirs: Seq::empty(),
                    warnings: Seq::empty(),
                    entries: Seq::empty(),
                    files_seen: 1,
                },
                (EntryType::Symlink, Collect::InvalidSymlinks) => Found {
                    dirs: Seq::empty(),
                    warnings: file_mode_warnings(
                        data,
                        &self.extensions,
                        &self.directories,
                        &self.excluded_items,
                        0,
                        u64::MAX,
                    ),
                    entries: file_mode_entries(
                        data,
                        &self.extensions,
                        &self.directories,
                        &self.excluded_items,
                        0,
                        u64::MAX,
                    ),
                    files_seen: 1,
                },
                (EntryType::Symlink, Collect::Files) => Found::nothing(),
                (EntryType::Other, _) => Found::nothing(),
            },
        }
    }

    /// What one entry of a directory adds: a warning where it could not be
    /// read, else what its data add.
    pub open spec fn entry_found(
        &self,
        folder: Seq<char>,
        entry: Result<DirEntryData, String>,
    ) -> Found {
        match entry {
            Ok(data) => self.data_found(&data),
            Err(reason) => Found {
                dirs: Seq::empty(),
                warnings: seq![cannot_read_entry(folder, reason@)],
                entries: Seq::empty(),
                files_seen: 0,
            },
        }
    }

    /// What the entries of a directory add, one after the other.
    pub open spec fn entries_found(
        &self,
        folder: Seq<char>,
        entries: Seq<Result<DirEntryData, String>>,
    ) -> Found
        decreases entries.len(),
    {
        if entries.len() == 0 {
            Found::nothing()
        } else {
            self.entries_found(folder, entries.drop_last()).followed_by(
                self.entry_found(folder, entries.last()),
            )
        }
    }

    /// What a directory adds: a warning where it could not be opened, else
    /// what its entries add.
    pub open spec fn folder_found(
        &self,
        folder: Seq<char>,
        read: Result<Vec<Result<DirEntryData, String>>, String>,
    ) -> Found {
        match read {
            Ok(entries) => self.entries_found(folder, entries@),
            Err(reason) => Found {
                dirs: Seq::empty(),
                warnings: seq![cannot_open_dir(folder, reason@)],
                entries: Seq::empty(),
                files_seen: 0,
            },
        }
    }

    /// Handles one entry of a directory, and tells whether it counts as a
    /// file that was looked at.
    pub fn process_entry(
        &self,
        current_folder: &str,
        entry: &Result<DirEntryData, String>,
        dir_result: &mut Vec<String>,
        warnings: &mut Vec<String>,
        fe_result: &mut Vec<FileEntry>,
    ) -> (counted: bool)
        ensures
            final(dir_result)@ == old(dir_result)@ + self.entry_found(current_folder@, *entry).dirs,
            texts(final(warnings)@) == texts(old(warnings)@) + self.entry_found(
                current_folder@,
                *entry,
            ).warnings,
            final(fe_result)@ == old(fe_result)@ + self.entry_found(
                current_folder@,
                *entry,
            ).entries,
            self.entry_found(current_folder@, *entry).files_seen == if counted {
                1nat
            } else {
                0nat
            },
    {
        let ghost dirs = dir_result@;
        let ghost warned = texts(warnings@);
        let ghost found = fe_result@;
        assert(dirs + Seq::<String>::empty() =~= dirs);
        assert(warned + Seq::<Seq<char>>::empty() =~= warned);
        assert(found + Seq::<FileEntry>::empty() =~= found);
        let entry_data = match common_get_entry_data(entry, warnings, current_folder) {
            Some(entry_data) => entry_data,
            None => {
                assert(texts(warnings@) =~= warned + seq![
                    cannot_read_entry(current_folder@, entry->Err_0@),
                ]);
                return false;
            },
        };
        let file_type = match entry_data.file_type {
            Some(file_type) => file_type,
            None => {
                return false;
            },
        };
        match entry_type(file_type) {
            EntryType::Dir => {
                process_dir_in_file_symlink_mode(
                    self.recursive_search,
                    entry_data,
                    &self.directories,
                    dir_result,
                    warnings,
                    &self.excluded_items,
                );
                assert(dir_result@ =~= dirs + self.data_found(entry_data).dirs);
                false
            },
            EntryType::File => {
                match self.collect {
                    Collect::Files => {
                        process_file_in_file_mode(
                            entry_data,
                            warnings,
                            fe_result,
                            &self.extensions,
                            &self.directories,
                            &self.excluded_items,
                            self.minimal_file_size,
                            self.maximal_file_size,
                        );
                    },
                    Collect::InvalidSymlinks => {},
                }
                true
            },
            EntryType::Symlink => {
                match self.collect {
                    Collect::InvalidSymlinks => {
                        process_symlink_in_symlink_mode(
                            entry_data,
                            warnings,
                            fe_result,
                            &self.extensions,
                            &self.directories,
                            &self.excluded_items,
                        );
                        true
                    },
                    Collect::Files => false,
                }
            },
            EntryType::Other => false,
        }
    }
}

/// What two lists of entries add, one after the other, is what the two as
/// one list add.
pub proof fn lemma_entries_found_in_two_steps(
    rules: &TraversalRules,
    folder: Seq<char>,
    first: Seq<Result<DirEntryData, String>>,
    second: Seq<Result<DirEntryData, String>>,
)
    ensures
        rules.entries_found(folder, first + second).dirs == rules.entries_found(folder, first).dirs
            + rules.entries_found(folder, second).dirs,
        rules.entries_found(folder, first + second).warnings == rules.entries_found(
            folder,
            first,
        ).warnings + rules.entries_found(folder, second).warnings,
        rules.entries_found(folder, first + second).entries == rules.entries_found(
            folder,
            first,
        ).entries + rules.entries_found(folder, second).entries,
        rules.entries_found(folder, first + second).files_seen == rules.entries_found(
            folder,
            first,
        ).files_seen + rules.entries_found(folder, second).files_seen,
    decreases second.len(),
{
    let one = rules.entries_found(folder, first);
    if second.len() == 0 {
        assert(first + second =~= first);
        assert(one.dirs + Seq::<String>::empty() =~= one.dirs);
        assert(one.warnings + Seq::<Seq<char>>::empty() =~= one.warnings);
        assert(one.entries + Seq::<FileEntry>::empty() =~= one.entries);
    } else {
        let shorter = second.drop_last();
        lemma_entries_found_in_two_steps(rules, folder, first, shorter);
        assert((first + second).drop_last() =~= first + shorter);
        assert((first + second).last() == second.last());
        let two = rules.entries_found(folder, shorter);
        let last = rules.entry_found(folder, second.last());
        assert((one.dirs + two.dirs) + last.dirs =~= one.dirs + (two.dirs + last.dirs));
        assert((one.warnings + two.warnings) + last.warnings =~= one.warnings + (two.warnings
            + last.warnings));
        assert((one.entries + two.entries) + last.entries =~= one.entries + (two.entries
            + last.entries));
    }
}

/// Which files of a directory are kept, and how many are looked at, does
/// not depend on the order in which the directory was listed.
pub proof fn lemma_kept_entries_ignore_listing_order(
    rules: &TraversalRules,
    folder: Seq<char>,
    first: Seq<Result<DirEntryData, String>>,
    second: Seq<Result<DirEntryData, String>>,
)
    requires
        first.to_multiset() == second.to_multiset(),
    ensures
        rules.entries_found(folder, first).entries.to_multiset() == rules.entries_found(
            folder,
            second,
        ).entries.to_multiset(),
        rules.entries_found(folder, first).files_seen == rules.entries_found(
            folder,
            second,
        ).files_seen,
    decreases first.len(),
{
    broadcast use vstd::seq_lib::group_to_multiset_ensures;

    first.to_multiset_ensures();
    second.to_multiset_ensures();
    if first.len() > 0 {
        let x = first.last();
        let shorter = first.drop_last();
        assert(shorter.push(x) =~= first);
        assert(first.to_multiset().count(x) > 0);
        assert(second.contains(x));
        let j = choose|j: int| 0 <= j < second.len() && second[j] == x;
        let before = second.take(j);
        let after = second.skip(j + 1);
        let without = second.remove(j);
        assert(without =~= before + after);
        assert(second =~= (before + seq![x]) + after);
        assert(shorter.to_multiset() =~= first.to_multiset().remove(x));
        assert(without.to_multiset() =~= second.to_multiset().remove(x));
        lemma_kept_entries_ignore_listing_order(rules, folder, shorter, without);
        lemma_entries_found_in_two_steps(rules, folder, before, after);
        lemma_entries_found_in_two_steps(rules, folder, before, seq![x]);
        lemma_entries_found_in_two_steps(rules, folder, before + seq![x], after);
        let one = rules.entry_found(folder, x);
        let single = seq![x];
        assert(single.len() == 1 && single.last() == x);
        assert(single.drop_last().len() == 0);
        assert(rules.entries_found(folder, single.drop_last()) == Found::nothing());
        assert(rules.entries_found(folder, single) == Found::nothing().followed_by(one));
        assert(rules.entries_found(folder, seq![x]).entries =~= one.entries);
        assert(rules.entries_found(folder, seq![x]).files_seen == one.files_seen);
        let b = rules.entries_found(folder, before).entries;
        let a = rules.entries_found(folder, after).entries;
        vstd::seq_lib::lemma_multiset_commutative(b, a);
        vstd::seq_lib::lemma_multiset_commutative(b, one.entries);
        vstd::seq_lib::lemma_multiset_commutative(b + one.entries, a);
        vstd::seq_lib::lemma_multiset_commutative(
            rules.entries_found(folder, shorter).entries,
            one.entries,
        );
        assert(rules.entries_found(folder, first).entries.to_multiset() =~= rules.entries_found(
            folder,
            second,
        ).entries.to_multiset());
    }
}

/// The records of a directory are handed on in the same order however the
/// directory was listed, as long as no path is kept twice.
pub proof fn lemma_scan_ignores_listing_order(
    rules: &TraversalRules,
    folder: Seq<char>,
    first: Seq<Result<DirEntryData, String>>,
    second: Seq<Result<DirEntryData, String>>,
)
    requires
        first.to_multiset() == second.to_multiset(),
        forall|i: int, j: int|
            0 <= i < j < rules.entries_found(folder, first).entries.len() ==> (
            #[trigger] rules.entries_found(folder, first).entries[i]).path@ != (
            #[trigger] rules.entries_found(folder, first).entries[j]).path@,
    ensures
        sort_by_path(rules.entries_found(folder, first).entries) == sort_by_path(
            rules.entries_found(folder, second).entries,
        ),
{
    lemma_kept_entries_ignore_listing_order(rules, folder, first, second);
    crate::sorting::lemma_sort_by_path_unique(
        rules.entries_found(folder, first).entries,
        rules.entries_found(folder, second).entries,
    );
}

/// What one worker brings back from one directory.
#[derive(Debug)]
pub struct FolderOutcome {
    /// The directories to read on the next level.
    pub dirs: Vec<String>,
    /// The warnings raised.
    pub warnings: Vec<String>,
    /// The records of the files that are kept, in the order they were read.
    pub entries: Vec<FileEntry>,
    /// How many files were looked at, kept or not.
    pub files_seen: usize,
}

impl FolderOutcome {
    /// The outcome as a mathematical record.
    pub open spec fn found(&self) -> Found {
        Found {
            dirs: self.dirs@,
            warnings: texts(self.warnings@),
            entries: self.entries@,
            files_seen: self.files_seen as nat,
        }
    }
}

/// Goes through what was read of one directory.
///
/// The stop flag is looked at before every entry. Once it is set the
/// directory is given up and nothing of it is handed on. Otherwise the
/// outcome is what the rules make of the entries, and the number of files
/// looked at is added to `items_counter` in one step.
pub fn scan_folder(
    rules: &TraversalRules,
    current_folder: &str,
    read: Result<Vec<Result<DirEntryData, String>>, String>,
    stop_flag: &Arc<AtomicBool>,
    items_counter: &Arc<AtomicUsize>,
) -> (r: Option<FolderOutcome>)
    ensures
        r is Some ==> r->Some_0.found() == rules.folder_found(current_folder@, read),
        read is Err ==> r is Some,
        read is Ok && read->Ok_0@.len() == 0 ==> r is Some,
{
    let mut dir_result: Vec<String> = Vec::new();
    let mut warnings: Vec<String> = Vec::new();
    let mut fe_result: Vec<FileEntry> = Vec::new();
    assert(texts(warnings@) =~= Seq::<Seq<char>>::empty());
    let entries = match common_read_dir(current_folder, read, &mut warnings) {
        Some(entries) => entries,
        None => {
            let outcome = FolderOutcome {
                dirs: dir_result,
                warnings,
                entries: fe_result,
                files_seen: 0,
            };
            assert(outcome.found().warnings =~= rules.folder_found(
                current_folder@,
                read,
            ).warnings);
            return Some(outcome);
        },
    };
    let mut counter: usize = 0;
    let mut i: usize = 0;
    while i < entries.len()
        invariant
            i <= entries.len(),
            counter <= i,
            read is Ok && read->Ok_0 == entries,
            dir_result@ == rules.entries_found(current_folder@, entries@.take(i as int)).dirs,
            texts(warnings@) == rules.entries_found(
                current_folder@,
                entries@.take(i as int),
            ).warnings,
            fe_result@ == rules.entries_found(current_folder@, entries@.take(i as int)).entries,
            counter == rules.entries_found(current_folder@, entries@.take(i as int)).files_seen,
        decreases entries.len() - i,
    {
        if check_if_stop_received(stop_flag) {
            return None;
        }
        assert(entries@.take(i + 1).drop_last() =~= entries@.take(i as int));
        let counted = rules.process_entry(
            current_folder,
            &entries[i],
            &mut dir_result,
            &mut warnings,
            &mut fe_result,
        );
        if counted {
            counter += 1;
        }
        i += 1;
    }
    assert(entries@.take(i as int) =~= entries@);
    if counter > 0 {
        // One step for the whole directory rather than one for each file.
        count_checked_items(items_counter, counter);
    }
    Some(FolderOutcome { dirs: dir_result, warnings, entries: fe_result, files_seen: counter })
}

/// Keys of this type are ordered the way an ordered map needs them to be.
///
/// This holds of the integers, of tuples and options of them, and of
/// every other type whose order the verifier knows.
pub open spec fn keys_in_order<K: Ord>() -> bool {
    vstd::laws_cmp::obeys_cmp::<K>()
}

/// The keys that scans are most often grouped by are ordered as a map needs
/// them: sizes, inodes where there are any, and pairs of numbers.
pub proof fn lemma_number_keys_are_in_order()
    ensures
        keys_in_order::<u64>(),
        keys_in_order::<usize>(),
        keys_in_order::<Option<u64>>(),
        keys_in_order::<(u64, u64)>(),
{
    broadcast use vstd::laws_cmp::group_laws_cmp;

}

/// The groups of a map: under each key the records filed there, in the
/// order they were filed.
pub open spec fn groups<K>(map: Map<K, Vec<FileEntry>>) -> Map<K, Seq<FileEntry>> {
    map.map_values(|group: Vec<FileEntry>| group@)
}

/// The groups after one more record was filed under `key`: behind the
/// records that are there already, or as the first of a new group.
pub open spec fn file_under<K>(
    filed_so_far: Map<K, Seq<FileEntry>>,
    key: K,
    entry: FileEntry,
) -> Map<K, Seq<FileEntry>> {
    filed_so_far.insert(
        key,
        if filed_so_far.contains_key(key) {
            filed_so_far[key].push(entry)
        } else {
            seq![entry]
        },
    )
}

/// The groups after the records were filed one after the other, the
/// `i`-th under the `i`-th key.
pub open spec fn filed<K>(
    filed_so_far: Map<K, Seq<FileEntry>>,
    keys: Seq<K>,
    entries: Seq<FileEntry>,
) -> Map<K, Seq<FileEntry>>
    decreases entries.len(),
{
    if entries.len() == 0 || keys.len() != entries.len() {
        filed_so_far
    } else {
        file_under(
            filed(filed_so_far, keys.drop_last(), entries.drop_last()),
            keys.last(),
            entries.last(),
        )
    }
}

/// `keys` are keys that the grouping function gives for `entries`, one for
/// each.
pub open spec fn keyed_by<K, F: Fn(&FileEntry) -> K>(
    group_by: &F,
    entries: Seq<FileEntry>,
    keys: Seq<K>,
) -> bool {
    &&& keys.len() == entries.len()
    &&& forall|i: int| 0 <= i < entries.len() ==> group_by.ensures((&#[trigger] entries[i],), keys[i])
}

/// The grouping function gives every record one key and no other.
pub open spec fn gives_one_key<K, F: Fn(&FileEntry) -> K>(group_by: &F) -> bool {
    forall|entry: FileEntry, one: K, other: K|
        #![trigger group_by.ensures((&entry,), one), group_by.ensures((&entry,), other)]
        group_by.ensures((&entry,), one) && group_by.ensures((&entry,), other) ==> one == other
}

/// The key that the grouping function gives for a record.
pub open spec fn key_given<K, F: Fn(&FileEntry) -> K>(group_by: &F, entry: FileEntry) -> K {
    choose|key: K| group_by.ensures((&entry,), key)
}

/// The keys that the grouping function gives for the records, one for
/// each.
pub open spec fn keys_given<K, F: Fn(&FileEntry) -> K>(
    group_by: &F,
    entries: Seq<FileEntry>,
) -> Seq<K> {
    Seq::new(entries.len(), |i: int| key_given(group_by, entries[i]))
}

/// Where the grouping function gives every record one key, the keys under
/// which records are filed are those keys.
pub proof fn lemma_keys_are_the_keys_given<K, F: Fn(&FileEntry) -> K>(
    group_by: &F,
    entries: Seq<FileEntry>,
    keys: Seq<K>,
)
    requires
        keyed_by(group_by, entries, keys),
        gives_one_key(group_by),
    ensures
        keys == keys_given(group_by, entries),
{
    assert forall|i: int| 0 <= i < entries.len() implies keys[i] == keys_given(
        group_by,
        entries,
    )[i] by {
        let entry = entries[i];
        assert(group_by.ensures((&entry,), keys[i]));
        assert(group_by.ensures((&entry,), key_given(group_by, entry)));
    }
    assert(keys =~= keys_given(group_by, entries));
}

/// The groups after a run of levels, each filed as a whole under the keys
/// that the grouping function gives.
pub open spec fn filed_by_levels<K, F: Fn(&FileEntry) -> K>(
    filed_so_far: Map<K, Seq<FileEntry>>,
    group_by: &F,
    levels: Seq<Seq<FolderOutcome>>,
) -> Map<K, Seq<FileEntry>>
    decreases levels.len(),
{
    if levels.len() == 0 {
        filed_so_far
    } else {
        filed(
            filed_by_levels(filed_so_far, group_by, levels.drop_last()),
            keys_given(group_by, level_entries(levels.last())),
            level_entries(levels.last()),
        )
    }
}

/// Two levels bring the same records, directory by directory, and none of
/// the first's directories brings a path twice.
pub open spec fn same_records(first: Seq<FolderOutcome>, second: Seq<FolderOutcome>) -> bool {
    &&& first.len() == second.len()
    &&& forall|k: int|
        0 <= k < first.len() ==> (#[trigger] first[k]).entries@.to_multiset()
            == second[k].entries@.to_multiset()
    &&& forall|k: int, i: int, j: int|
        0 <= k < first.len() && 0 <= i < j < first[k].entries@.len() ==> (
        #[trigger] first[k].entries@[i]).path@ != (#[trigger] first[k].entries@[j]).path@
}

/// Two runs agree: where they start from the same groups and their levels
/// bring the same records, directory by directory, they end with the same
/// groups, each holding the same records in the same order. How the
/// directories were listed, and which worker read which of them when,
/// changes nothing.
pub proof fn lemma_runs_agree<K, F: Fn(&FileEntry) -> K>(
    filed_so_far: Map<K, Seq<FileEntry>>,
    group_by: &F,
    first: Seq<Seq<FolderOutcome>>,
    second: Seq<Seq<FolderOutcome>>,
)
    requires
        first.len() == second.len(),
        forall|level: int|
            0 <= level < first.len() ==> same_records(#[trigger] first[level], second[level]),
    ensures
        filed_by_levels(filed_so_far, group_by, first) == filed_by_levels(
            filed_so_far,
            group_by,
            second,
        ),
    decreases first.len(),
{
    if first.len() > 0 {
        assert forall|level: int| 0 <= level < first.drop_last().len() implies same_records(
            #[trigger] first.drop_last()[level],
            second.drop_last()[level],
        ) by {
            assert(same_records(first[level], second[level]));
        }
        lemma_runs_agree(filed_so_far, group_by, first.drop_last(), second.drop_last());
        assert(same_records(first[first.len() - 1], second[first.len() - 1]));
        lemma_level_entries_deterministic(first.last(), second.last());
    }
}

/// Filing one batch and then another is filing the two as one.
pub proof fn lemma_filed_in_two_steps<K>(
    filed_so_far: Map<K, Seq<FileEntry>>,
    keys: Seq<K>,
    entries: Seq<FileEntry>,
    more_keys: Seq<K>,
    more_entries: Seq<FileEntry>,
)
    requires
        keys.len() == entries.len(),
        more_keys.len() == more_entries.len(),
    ensures
        filed(filed(filed_so_far, keys, entries), more_keys, more_entries) == filed(
            filed_so_far,
            keys + more_keys,
            entries + more_entries,
        ),
    decreases more_entries.len(),
{
    if more_entries.len() == 0 {
        assert(keys + more_keys =~= keys);
        assert(entries + more_entries =~= entries);
    } else {
        lemma_filed_in_two_steps(
            filed_so_far,
            keys,
            entries,
            more_keys.drop_last(),
            more_entries.drop_last(),
        );
        assert((keys + more_keys).drop_last() =~= keys + more_keys.drop_last());
        assert((entries + more_entries).drop_last() =~= entries + more_entries.drop_last());
    }
}

/// The records filed under a key; none where the key has no group.
pub open spec fn group_of<K>(filed_so_far: Map<K, Seq<FileEntry>>, key: K) -> Seq<FileEntry> {
    if filed_so_far.contains_key(key) {
        filed_so_far[key]
    } else {
        Seq::empty()
    }
}

/// The records whose key is `key`, in the order of the list.
pub open spec fn entries_with_key<K>(keys: Seq<K>, entries: Seq<FileEntry>, key: K) -> Seq<
    FileEntry,
>
    decreases entries.len(),
{
    if entries.len() == 0 || keys.len() != entries.len() {
        Seq::empty()
    } else {
        let before = entries_with_key(keys.drop_last(), entries.drop_last(), key);
        if keys.last() == key {
            before.push(entries.last())
        } else {
            before
        }
    }
}

/// After filing, the group of a key holds what it held before and then the
/// records filed under that key, in the order they came; and a key has a
/// group exactly when it had one before or a record was filed under it.
pub proof fn lemma_filed_groups<K>(
    filed_so_far: Map<K, Seq<FileEntry>>,
    keys: Seq<K>,
    entries: Seq<FileEntry>,
    key: K,
)
    requires
        keys.len() == entries.len(),
    ensures
        group_of(filed(filed_so_far, keys, entries), key) == group_of(filed_so_far, key)
            + entries_with_key(keys, entries, key),
        filed(filed_so_far, keys, entries).contains_key(key) == (filed_so_far.contains_key(key)
            || keys.contains(key)),
    decreases entries.len(),
{
    if entries.len() == 0 {
        assert(group_of(filed_so_far, key) + Seq::<FileEntry>::empty() =~= group_of(
            filed_so_far,
            key,
        ));
    } else {
        let shorter_keys = keys.drop_last();
        let shorter = entries.drop_last();
        lemma_filed_groups(filed_so_far, shorter_keys, shorter, key);
        let before = filed(filed_so_far, shorter_keys, shorter);
        let picked = entries_with_key(shorter_keys, shorter, key);
        if keys.last() == key {
            assert(keys[keys.len() - 1] == key);
            assert(group_of(filed_so_far, key) + picked.push(entries.last()) =~= (group_of(
                filed_so_far,
                key,
            ) + picked).push(entries.last()));
        } else {
            if keys.contains(key) {
                let i = choose|i: int| 0 <= i < keys.len() && keys[i] == key;
                assert(shorter_keys[i] == key);
            }
        }
        if shorter_keys.contains(key) {
            let i = choose|i: int| 0 <= i < shorter_keys.len() && shorter_keys[i] == key;
            assert(keys[i] == key);
        }
    }
}

/// Records that all have one key make one group, which holds them in the
/// order they came.
pub proof fn lemma_one_key_one_group<K>(key: K, keys: Seq<K>, entries: Seq<FileEntry>)
    requires
        keys.len() == entries.len(),
        entries.len() > 0,
        forall|i: int| 0 <= i < keys.len() ==> keys[i] == key,
    ensures
        filed(Map::<K, Seq<FileEntry>>::empty(), keys, entries) == Map::<
            K,
            Seq<FileEntry>,
        >::empty().insert(key, entries),
    decreases entries.len(),
{
    let nothing = Map::<K, Seq<FileEntry>>::empty();
    if entries.len() == 1 {
        assert(filed(nothing, keys.drop_last(), entries.drop_last()) == nothing);
        assert(seq![entries.last()] =~= entries);
    } else {
        lemma_one_key_one_group(key, keys.drop_last(), entries.drop_last());
        assert(entries.drop_last().push(entries.last()) =~= entries);
        assert(nothing.insert(key, entries.drop_last()).insert(key, entries) =~= nothing.insert(
            key,
            entries,
        ));
    }
}

/// Files one record under its key.
pub fn add_to_group<K: Ord>(grouped: &mut BTreeMap<K, Vec<FileEntry>>, key: K, entry: FileEntry)
    ensures
        keys_in_order::<K>() ==> groups(final(grouped)@) == file_under(
            groups(old(grouped)@),
            key,
            entry,
        ),
{
    let mut group = match grouped.remove(&key) {
        Some(group) => group,
        None => Vec::new(),
    };
    group.push(entry);
    grouped.insert(key, group);
    proof {
        if keys_in_order::<K>() {
            assert(groups(grouped@) =~= file_under(groups(old(grouped)@), key, entry));
        }
    }
}

/// Files the records in the order given, each under the key that the
/// grouping function gives for it.
pub fn group_entries<K: Ord, F: Fn(&FileEntry) -> K>(
    grouped: &mut BTreeMap<K, Vec<FileEntry>>,
    entries: Vec<FileEntry>,
    group_by: &F,
)
    requires
        forall|entry: &FileEntry| group_by.requires((entry,)),
    ensures
        keys_in_order::<K>() ==> exists|keys: Seq<K>|
            keyed_by(group_by, entries@, keys) && groups(final(grouped)@) == #[trigger] filed(
                groups(old(grouped)@),
                keys,
                entries@,
            ),
{
    let ghost mut keys: Seq<K> = Seq::empty();
    for entry in it: entries
        invariant
            it.seq() == entries@,
            forall|entry: &FileEntry| group_by.requires((entry,)),
            keyed_by(group_by, entries@.take(it.index() as int), keys),
            keys_in_order::<K>() ==> groups(grouped@) == filed(
                groups(old(grouped)@),
                keys,
                entries@.take(it.index() as int),
            ),
    {
        let key = group_by(&entry);
        proof {
            let before = entries@.take(it.index() as int);
            let after = entries@.take(it.index() + 1);
            assert(after.drop_last() =~= before);
            assert(keys.push(key).drop_last() =~= keys);
            assert forall|i: int| 0 <= i < after.len() implies group_by.ensures(
                (&#[trigger] after[i],),
                keys.push(key)[i],
            ) by {
                if i < before.len() {
                    assert(after[i] == before[i]);
                }
            }
            keys = keys.push(key);
        }
        add_to_group(grouped, key, entry);
    }
    proof {
        assert(entries@.take(entries@.len() as int) =~= entries@);
    }
}

/// The directories that a level hands on to the next, batch after batch.
pub open spec fn level_dirs(segments: Seq<FolderOutcome>) -> Seq<String>
    decreases segments.len(),
{
    if segments.len() == 0 {
        Seq::empty()
    } else {
        level_dirs(segments.drop_last()) + segments.last().dirs@
    }
}

/// The warnings of a level, batch after batch.
pub open spec fn level_warnings(segments: Seq<FolderOutcome>) -> Seq<Seq<char>>
    decreases segments.len(),
{
    if segments.len() == 0 {
        Seq::empty()
    } else {
        level_warnings(segments.drop_last()) + texts(segments.last().warnings@)
    }
}

/// The records of a level in the order they are filed: batch after batch,
/// and within each batch by path.
pub open spec fn level_entries(segments: Seq<FolderOutcome>) -> Seq<FileEntry>
    decreases segments.len(),
{
    if segments.len() == 0 {
        Seq::empty()
    } else {
        level_entries(segments.drop_last()) + sort_by_path(segments.last().entries@)
    }
}

/// The order in which a level's records are filed does not depend on the
/// order in which a directory's files were read: two runs whose batches
/// hold the same records, no path twice within a batch, file them alike.
pub proof fn lemma_level_entries_deterministic(
    first: Seq<FolderOutcome>,
    second: Seq<FolderOutcome>,
)
    requires
        first.len() == second.len(),
        forall|k: int|
            0 <= k < first.len() ==> (#[trigger] first[k]).entries@.to_multiset()
                == second[k].entries@.to_multiset(),
        forall|k: int, i: int, j: int|
            0 <= k < first.len() && 0 <= i < j < first[k].entries@.len() ==> (
            #[trigger] first[k].entries@[i]).path@ != (#[trigger] first[k].entries@[j]).path@,
    ensures
        level_entries(first) == level_entries(second),
    decreases first.len(),
{
    if first.len() > 0 {
        let n = first.len() - 1;
        assert forall|k: int| 0 <= k < n implies (#[trigger] first.drop_last()[k]).entries@.to_multiset()
            == second.drop_last()[k].entries@.to_multiset() by {
            assert(first.drop_last()[k] == first[k]);
            assert(second.drop_last()[k] == second[k]);
        }
        assert forall|k: int, i: int, j: int|
            0 <= k < n && 0 <= i < j < first.drop_last()[k].entries@.len() implies (
        #[trigger] first.drop_last()[k].entries@[i]).path@ != (
        #[trigger] first.drop_last()[k].entries@[j]).path@ by {
            assert(first.drop_last()[k] == first[k]);
            assert(first[k].entries@[i].path@ != first[k].entries@[j].path@);
        }
        lemma_level_entries_deterministic(first.drop_last(), second.drop_last());
        let a = first[n].entries@;
        let b = second[n].entries@;
        assert(a.to_multiset() == b.to_multiset());
        assert forall|i: int, j: int| 0 <= i < j < a.len() implies a[i].path@ != a[j].path@ by {
            assert(first[n].entries@[i].path@ != first[n].entries@[j].path@);
        }
        crate::sorting::lemma_sort_by_path_unique(a, b);
    }
}

/// The largest number of directories that one worker takes at a time, so
/// that a level is spread over the workers evenly.
pub const FOLDERS_PER_BATCH: usize = 2;

/// A scan between two levels: what is left to read, and what was found.
pub struct TraversalState<K> {
    /// The directories of the next level, in the order they will be read.
    pub folders_to_check: Vec<String>,
    /// Every warning raised so far.
    pub warnings: Vec<String>,
    /// The records found so far, by key.
    pub grouped_file_entries: BTreeMap<K, Vec<FileEntry>>,
}

/// What a scan does next.
#[derive(Debug, PartialEq, Eq, Clone, Copy, Structural)]
pub enum TraversalAction {
    /// Read the directories of the next level and merge what they hold.
    ReadFolders,
    /// Give up: the stop flag was set.
    Stop,
    /// Hand the result over: nothing is left to read.
    Finish,
}

/// The next step of a scan with this many directories left to read.
///
/// A scan with nothing left is done, whatever the stop flag says. One with
/// directories left stops where the flag is set, and reads them where it
/// is not.
pub open spec fn action_for(folders_left: nat, stop_received: bool) -> TraversalAction {
    if folders_left == 0 {
        TraversalAction::Finish
    } else if stop_received {
        TraversalAction::Stop
    } else {
        TraversalAction::ReadFolders
    }
}

/// A scan that has a root directory and finds the stop flag set before its
/// first level reads nothing and is stopped.
pub proof fn lemma_stop_before_start(root_dirs: nat)
    requires
        root_dirs > 0,
    ensures
        action_for(root_dirs, true) == TraversalAction::Stop,
{
}

/// Decides the next step of a scan, from its state and from what the stop
/// flag said.
pub fn next_action<K>(state: &TraversalState<K>, stop_received: bool) -> (action: TraversalAction)
    ensures
        action == action_for(state.folders_to_check@.len(), stop_received),
{
    if state.folders_to_check.len() == 0 {
        TraversalAction::Finish
    } else if stop_received {
        TraversalAction::Stop
    } else {
        TraversalAction::ReadFolders
    }
}

/// Takes in what the workers brought back from one level.
///
/// The directories found become the next level, in the order of the
/// batches. The warnings join those raised before. The records of each
/// batch are put in the order of their paths and then filed under their
/// keys, batch after batch.
pub fn merge_level<K: Ord, F: Fn(&FileEntry) -> K>(
    state: &mut TraversalState<K>,
    segments: Vec<FolderOutcome>,
    group_by: &F,
)
    requires
        forall|entry: &FileEntry| group_by.requires((entry,)),
    ensures
        final(state).folders_to_check@ == level_dirs(segments@),
        texts(final(state).warnings@) == texts(old(state).warnings@) + level_warnings(segments@),
        keys_in_order::<K>() ==> exists|keys: Seq<K>|
            keyed_by(group_by, level_entries(segments@), keys) && groups(
                final(state).grouped_file_entries@,
            ) == #[trigger] filed(
                groups(old(state).grouped_file_entries@),
                keys,
                level_entries(segments@),
            ),
        keys_in_order::<K>() && gives_one_key(group_by) ==> groups(
            final(state).grouped_file_entries@,
        ) == filed(
            groups(old(state).grouped_file_entries@),
            keys_given(group_by, level_entries(segments@)),
            level_entries(segments@),
        ),
{
    let ghost mut keys: Seq<K> = Seq::empty();
    let ghost warned = texts(state.warnings@);
    state.folders_to_check = Vec::new();
    assert(warned + Seq::<Seq<char>>::empty() =~= warned);
    for segment in it: segments
        invariant
            it.seq() == segments@,
            forall|entry: &FileEntry| group_by.requires((entry,)),
            state.folders_to_check@ == level_dirs(segments@.take(it.index() as int)),
            texts(state.warnings@) == warned + level_warnings(segments@.take(it.index() as int)),
            keys_in_order::<K>() ==> keyed_by(
                group_by,
                level_entries(segments@.take(it.index() as int)),
                keys,
            ),
            keys_in_order::<K>() ==> groups(state.grouped_file_entries@) == filed(
                groups(old(state).grouped_file_entries@),
                keys,
                level_entries(segments@.take(it.index() as int)),
            ),
    {
        let ghost done = segments@.take(it.index() as int);
        let ghost next = segments@.take(it.index() + 1);
        let ghost filed_before = groups(state.grouped_file_entries@);
        let ghost warned_before = texts(state.warnings@);
        assert(next.drop_last() =~= done);
        assert(next.last() == segment);
        let FolderOutcome { dirs, warnings, entries, files_seen: _ } = segment;
        let mut dirs = dirs;
        let mut warnings = warnings;
        state.folders_to_check.append(&mut dirs);
        state.warnings.append(&mut warnings);
        assert(texts(state.warnings@) =~= warned_before + texts(segment.warnings@));
        assert(texts(state.warnings@) =~= warned + level_warnings(next));
        let sorted = sort_entries_by_path(entries);
        group_entries(&mut state.grouped_file_entries, sorted, group_by);
        proof {
            if keys_in_order::<K>() {
                let more = choose|more: Seq<K>|
                    keyed_by(group_by, sorted@, more) && groups(state.grouped_file_entries@)
                        == #[trigger] filed(filed_before, more, sorted@);
                lemma_filed_in_two_steps(
                    groups(old(state).grouped_file_entries@),
                    keys,
                    level_entries(done),
                    more,
                    sorted@,
                );
                let all = level_entries(next);
                assert(all == level_entries(done) + sorted@);
                assert forall|i: int| 0 <= i < all.len() implies group_by.ensures(
                    (&#[trigger] all[i],),
                    (keys + more)[i],
                ) by {
                    if i < level_entries(done).len() {
                        assert(all[i] == level_entries(done)[i]);
                    } else {
                        assert(all[i] == sorted@[i - level_entries(done).len()]);
                    }
                }
                keys = keys + more;
            }
        }
    }
    proof {
        assert(segments@.take(segments@.len() as int) =~= segments@);
        if keys_in_order::<K>() && gives_one_key(group_by) {
            lemma_keys_are_the_keys_given(group_by, level_entries(segments@), keys);
        }
    }
}

/// How a scan ended.
pub enum DirTraversalResult<T: Ord + PartialOrd> {
    /// It ran to its end.
    SuccessFiles {
        /// Every warning raised on the way.
        warnings: Vec<String>,
        /// The records found, by key.
        grouped_file_entries: BTreeMap<T, Vec<FileEntry>>,
    },
    /// It was stopped; nothing of what it had found is handed over.
    Stopped,
}

/// Puts a scan together piece by piece.
pub struct DirTraversalBuilder<'a, 'b, F> {
    pub group_by: Option<F>,
    pub root_dirs: Vec<String>,
    pub stop_flag: Option<&'a Arc<AtomicBool>>,
    pub progress_sender: Option<&'b crossbeam_channel::Sender<ProgressData>>,
    pub minimal_file_size: Option<u64>,
    pub maximal_file_size: Option<u64>,
    pub checking_method: CheckingMethod,
    pub collect: Collect,
    pub recursive_search: bool,
    pub directories: Option<Directories>,
    pub excluded_items: Option<ExcludedItems>,
    pub extensions: Option<Extensions>,
    pub tool_type: ToolType,
}

/// A scan that is ready to run.
pub struct DirTraversal<'a, 'b, F> {
    pub group_by: F,
    pub root_dirs: Vec<String>,
    pub stop_flag: Option<&'a Arc<AtomicBool>>,
    pub progress_sender: Option<&'b crossbeam_channel::Sender<ProgressData>>,
    pub rules: TraversalRules,
    pub checking_method: CheckingMethod,
    pub tool_type: ToolType,
}

impl<'a, 'b> DirTraversalBuilder<'a, 'b, ()> {
    /// A builder with nothing set: no roots, no grouping function, no
    /// flag, a scan for files that does not enter directories.
    pub fn new() -> (r: Self)
        ensures
            r.group_by is None,
            r.root_dirs@.len() == 0,
            r.stop_flag is None,
            r.progress_sender is None,
            r.minimal_file_size is None,
            r.maximal_file_size is None,
            r.checking_method == CheckingMethod::NotSet,
            r.collect == Collect::Files,
            !r.recursive_search,
            r.directories is None,
            r.excluded_items is None,
            r.extensions is None,
            r.tool_type == ToolType::NotSet,
    {
        DirTraversalBuilder {
            group_by: None,
            root_dirs: Vec::new(),
            stop_flag: None,
            progress_sender: None,
            checking_method: CheckingMethod::NotSet,
            minimal_file_size: None,
            maximal_file_size: None,
            collect: Collect::Files,
            recursive_search: false,
            directories: None,
            extensions: None,
            excluded_items: None,
            tool_type: ToolType::NotSet,
        }
    }
}

impl<'a, 'b> Default for DirTraversalBuilder<'a, 'b, ()> {
    fn default() -> (r: Self)
        ensures
            r.group_by is None,
            r.root_dirs@.len() == 0,
            r.stop_flag is None,
            r.progress_sender is None,
            r.minimal_file_size is None,
            r.maximal_file_size is None,
            r.checking_method == CheckingMethod::NotSet,
            r.collect == Collect::Files,
            !r.recursive_search,
            r.directories is None,
            r.excluded_items is None,
            r.extensions is None,
            r.tool_type == ToolType::NotSet,
    {
        Self::new()
    }
}

impl<'a, 'b, F> DirTraversalBuilder<'a, 'b, F> {
    /// Takes roots, filters, size bounds and tool from a tool's settings.
    pub fn common_data(self, common_tool_data: CommonToolData) -> (r: Self)
        ensures
            r.root_dirs == common_tool_data.directories.included_directories,
            r.extensions == Some(common_tool_data.extensions),
            r.excluded_items == Some(common_tool_data.excluded_items),
            r.recursive_search == common_tool_data.recursive_search,
            r.minimal_file_size == Some(common_tool_data.minimal_file_size),
            r.maximal_file_size == Some(common_tool_data.maximal_file_size),
            r.tool_type == common_tool_data.tool_type,
            r.directories is Some,
            r.directories->Some_0.excluded_directories
                == common_tool_data.directories.excluded_directories,
            r.directories->Some_0.reference_directories
                == common_tool_data.directories.reference_directories,
            r.directories->Some_0.exclude_other_filesystems
                == common_tool_data.directories.exclude_other_filesystems,
            r.directories->Some_0.included_dev_ids == common_tool_data.directories.included_dev_ids,
            r.directories->Some_0.included_directories@.len()
                == common_tool_data.directories.included_directories@.len(),
            forall|i: int|
                0 <= i < common_tool_data.directories.included_directories@.len() ==> (
                #[trigger] r.directories->Some_0.included_directories@[i])
                    == common_tool_data.directories.included_directories@[i],
            r.group_by == self.group_by,
            r.stop_flag == self.stop_flag,
            r.progress_sender == self.progress_sender,
            r.checking_method == self.checking_method,
            r.collect == self.collect,
    {
        let CommonToolData {
            tool_type,
            directories,
            extensions,
            excluded_items,
            recursive_search,
            minimal_file_size,
            maximal_file_size,
        } = common_tool_data;
        let Directories {
            included_directories,
            excluded_directories,
            reference_directories,
            exclude_other_filesystems,
            included_dev_ids,
        } = directories;
        let mut roots: Vec<String> = Vec::new();
        let mut i: usize = 0;
        while i < included_directories.len()
            invariant
                i <= included_directories.len(),
                roots@.len() == i,
                forall|j: int| 0 <= j < i ==> roots@[j] == included_directories@[j],
            decreases included_directories.len() - i,
        {
            roots.push(included_directories[i].clone());
            i += 1;
        }
        DirTraversalBuilder {
            root_dirs: included_directories,
            extensions: Some(extensions),
            excluded_items: Some(excluded_items),
            recursive_search,
            minimal_file_size: Some(minimal_file_size),
            maximal_file_size: Some(maximal_file_size),
            tool_type,
            directories: Some(
                Directories {
                    included_directories: roots,
                    excluded_directories,
                    reference_directories,
                    exclude_other_filesystems,
                    included_dev_ids,
                },
            ),
            group_by: self.group_by,
            stop_flag: self.stop_flag,
            progress_sender: self.progress_sender,
            checking_method: self.checking_method,
            collect: self.collect,
        }
    }

    /// Sets the flag by which the scan is stopped.
    pub fn stop_flag(self, stop_flag: &'a Arc<AtomicBool>) -> (r: Self)
        ensures
            r == (DirTraversalBuilder { stop_flag: Some(stop_flag), ..self }),
    {
        DirTraversalBuilder { stop_flag: Some(stop_flag), ..self }
    }

    /// Sets the channel that progress is reported on; without one, none is
    /// reported.
    pub fn progress_sender(
        self,
        progress_sender: Option<&'b crossbeam_channel::Sender<ProgressData>>,
    ) -> (r: Self)
        ensures
            r == (DirTraversalBuilder { progress_sender, ..self }),
    {
        DirTraversalBuilder { progress_sender, ..self }
    }

    /// Sets the method that labels the scan's progress.
    pub fn checking_method(self, checking_method: CheckingMethod) -> (r: Self)
        ensures
            r == (DirTraversalBuilder { checking_method, ..self }),
    {
        DirTraversalBuilder { checking_method, ..self }
    }

    /// Sets the smallest size that a file may have.
    pub fn minimal_file_size(self, minimal_file_size: u64) -> (r: Self)
        ensures
            r == (DirTraversalBuilder { minimal_file_size: Some(minimal_file_size), ..self }),
    {
        DirTraversalBuilder { minimal_file_size: Some(minimal_file_size), ..self }
    }

    /// Sets the largest size that a file may have.
    pub fn maximal_file_size(self, maximal_file_size: u64) -> (r: Self)
        ensures
            r == (DirTraversalBuilder { maximal_file_size: Some(maximal_file_size), ..self }),
    {
        DirTraversalBuilder { maximal_file_size: Some(maximal_file_size), ..self }
    }

    /// Says what the scan gathers.
    pub fn collect(self, collect: Collect) -> (r: Self)
        ensures
            r == (DirTraversalBuilder { collect, ..self }),
    {
        DirTraversalBuilder { collect, ..self }
    }

    /// Sets the function that gives each record its key.
    pub fn group_by<G, T>(self, group_by: G) -> (r: DirTraversalBuilder<'a, 'b, G>) where
        G: Fn(&FileEntry) -> T,

        ensures
            r.group_by == Some(group_by),
            r.root_dirs == self.root_dirs,
            r.stop_flag == self.stop_flag,
            r.progress_sender == self.progress_sender,
            r.directories == self.directories,
            r.extensions == self.extensions,
            r.excluded_items == self.excluded_items,
            r.recursive_search == self.recursive_search,
            r.maximal_file_size == self.maximal_file_size,
            r.minimal_file_size == self.minimal_file_size,
            r.collect == self.collect,
            r.checking_method == self.checking_method,
            r.tool_type == self.tool_type,
    {
        DirTraversalBuilder {
            group_by: Some(group_by),
            root_dirs: self.root_dirs,
            stop_flag: self.stop_flag,
            progress_sender: self.progress_sender,
            directories: self.directories,
            extensions: self.extensions,
            excluded_items: self.excluded_items,
            recursive_search: self.recursive_search,
            maximal_file_size: self.maximal_file_size,
            minimal_file_size: self.minimal_file_size,
            collect: self.collect,
            checking_method: self.checking_method,
            tool_type: self.tool_type,
        }
    }

    /// Makes the scan.
    ///
    /// A grouping function, directory lists and exclusion expressions have
    /// to be set. Size bounds that were not set are 0 and the largest
    /// number; an extension list that was not set lets every file through.
    pub fn build(self) -> (r: DirTraversal<'a, 'b, F>)
        requires
            self.group_by is Some,
            self.directories is Some,
            self.excluded_items is Some,
        ensures
            r.group_by == self.group_by->Some_0,
            r.root_dirs == self.root_dirs,
            r.stop_flag == self.stop_flag,
            r.progress_sender == self.progress_sender,
            r.checking_method == self.checking_method,
            r.tool_type == self.tool_type,
            r.rules.collect == self.collect,
            r.rules.recursive_search == self.recursive_search,
            r.rules.directories == self.directories->Some_0,
            r.rules.excluded_items == self.excluded_items->Some_0,
            r.rules.minimal_file_size == match self.minimal_file_size {
                Some(size) => size,
                None => 0,
            },
            r.rules.maximal_file_size == match self.maximal_file_size {
                Some(size) => size,
                None => u64::MAX,
            },
            match self.extensions {
                Some(extensions) => r.rules.extensions == extensions,
                None => r.rules.extensions.allowed_extensions().len() == 0,
            },
    {
        DirTraversal {
            group_by: self.group_by.unwrap(),
            root_dirs: self.root_dirs,
            stop_flag: self.stop_flag,
            progress_sender: self.progress_sender,
            checking_method: self.checking_method,
            tool_type: self.tool_type,
            rules: TraversalRules {
                collect: self.collect,
                recursive_search: self.recursive_search,
                directories: self.directories.unwrap(),
                excluded_items: self.excluded_items.unwrap(),
                extensions: match self.extensions {
                    Some(extensions) => extensions,
                    None => Extensions::new(),
                },
                minimal_file_size: match self.minimal_file_size {
                    Some(size) => size,
                    None => 0,
                },
                maximal_file_size: match self.maximal_file_size {
                    Some(size) => size,
                    None => u64::MAX,
                },
            },
        }
    }
}

impl<'a, 'b, F> DirTraversal<'a, 'b, F> {
    /// The scan may run: it works for a tool, it has a stop flag, and its
    /// grouping function takes every record.
    pub open spec fn ready<K>(&self) -> bool where F: Fn(&FileEntry) -> K {
        &&& self.tool_type != ToolType::NotSet
        &&& self.stop_flag is Some
        &&& forall|entry: &FileEntry| self.group_by.requires((entry,))
    }

    /// The state before the first level: the roots are left to read, and
    /// nothing was found yet.
    pub fn begin<K: Ord>(&self) -> (state: TraversalState<K>) where F: Fn(&FileEntry) -> K
        requires
            self.ready(),
        ensures
            state.folders_to_check@ == self.root_dirs@,
            state.warnings@.len() == 0,
            state.grouped_file_entries@ == Map::<K, Vec<FileEntry>>::empty(),
    {
        let mut folders_to_check: Vec<String> = Vec::new();
        let mut i: usize = 0;
        while i < self.root_dirs.len()
            invariant
                i <= self.root_dirs.len(),
                folders_to_check@.len() == i,
                forall|j: int| 0 <= j < i ==> folders_to_check@[j] == self.root_dirs@[j],
            decreases self.root_dirs.len() - i,
        {
            folders_to_check.push(self.root_dirs[i].clone());
            i += 1;
        }
        assert(folders_to_check@ =~= self.root_dirs@);
        TraversalState {
            folders_to_check,
            warnings: Vec::new(),
            grouped_file_entries: BTreeMap::new(),
        }
    }

    /// Decides the next step, looking at the stop flag where directories
    /// are left to read.
    ///
    /// The flag may change at any moment: a scan with directories left
    /// stops or reads on, and which of the two is not promised.
    pub fn poll<K: Ord>(&self, state: &TraversalState<K>) -> (action: TraversalAction) where
        F: Fn(&FileEntry) -> K,

        requires
            self.ready(),
        ensures
            action == action_for(state.folders_to_check@.len(), true) || action == action_for(
                state.folders_to_check@.len(),
                false,
            ),
    {
        if state.folders_to_check.len() == 0 {
            return next_action(state, false);
        }
        let stop_received = check_if_stop_received(self.stop_flag.unwrap());
        next_action(state, stop_received)
    }

    /// Goes through what was read of one directory; see [`scan_folder`].
    pub fn scan<K: Ord>(
        &self,
        current_folder: &str,
        read: Result<Vec<Result<DirEntryData, String>>, String>,
        items_counter: &Arc<AtomicUsize>,
    ) -> (r: Option<FolderOutcome>) where F: Fn(&FileEntry) -> K
        requires
            self.ready(),
        ensures
            r is Some ==> r->Some_0.found() == self.rules.folder_found(current_folder@, read),
            read is Err ==> r is Some,
            read is Ok && read->Ok_0@.len() == 0 ==> r is Some,
    {
        scan_folder(&self.rules, current_folder, read, self.stop_flag.unwrap(), items_counter)
    }

    /// Takes in what the workers brought back from one level, one result
    /// for each directory in the order the directories were listed; see
    /// [`absorb_level`].
    pub fn absorb<K: Ord>(
        &self,
        state: &mut TraversalState<K>,
        results: Vec<Option<FolderOutcome>>,
    ) -> (status: WorkContinueStatus) where F: Fn(&FileEntry) -> K
        requires
            self.ready(),
        ensures
            status == if all_scanned(results@) {
                WorkContinueStatus::Continue
            } else {
                WorkContinueStatus::Stop
            },
            !all_scanned(results@) ==> *final(state) == *old(state),
            all_scanned(results@) ==> {
                &&& final(state).folders_to_check@ == level_dirs(outcomes_of(results@))
                &&& texts(final(state).warnings@) == texts(old(state).warnings@) + level_warnings(
                    outcomes_of(results@),
                )
                &&& keys_in_order::<K>() ==> exists|keys: Seq<K>|
                    keyed_by(&self.group_by, level_entries(outcomes_of(results@)), keys) && groups(
                        final(state).grouped_file_entries@,
                    ) == #[trigger] filed(
                        groups(old(state).grouped_file_entries@),
                        keys,
                        level_entries(outcomes_of(results@)),
                    )
                &&& keys_in_order::<K>() && gives_one_key(&self.group_by) ==> groups(
                    final(state).grouped_file_entries@,
                ) == filed(
                    groups(old(state).grouped_file_entries@),
                    keys_given(&self.group_by, level_entries(outcomes_of(results@))),
                    level_entries(outcomes_of(results@)),
                )
            },
    {
        absorb_level(state, results, &self.group_by)
    }
}

/// Every worker brought something back.
pub open spec fn all_scanned(results: Seq<Option<FolderOutcome>>) -> bool {
    forall|i: int| 0 <= i < results.len() ==> (#[trigger] results[i]) is Some
}

/// What the workers brought back, where every one brought something.
pub open spec fn outcomes_of(results: Seq<Option<FolderOutcome>>) -> Seq<FolderOutcome> {
    Seq::new(results.len(), |i: int| results[i]->Some_0)
}

/// The outcomes of a level whose every directory was gone through; none
/// where a worker gave a directory up because the stop flag was set.
pub fn collect_level(results: Vec<Option<FolderOutcome>>) -> (r: Option<Vec<FolderOutcome>>)
    ensures
        match r {
            Some(segments) => all_scanned(results@) && segments@ == outcomes_of(results@),
            None => !all_scanned(results@),
        },
{
    let mut segments: Vec<FolderOutcome> = Vec::new();
    for result in it: results
        invariant
            it.seq() == results@,
            segments@.len() == it.index(),
            forall|i: int| 0 <= i < it.index() ==> (#[trigger] results@[i]) == Some(segments@[i]),
    {
        match result {
            Some(segment) => {
                segments.push(segment);
            },
            None => {
                assert(results@[it.index() as int] is None);
                return None;
            },
        }
    }
    assert(segments@ =~= outcomes_of(results@));
    Some(segments)
}

/// Takes in a level, unless a worker gave a directory up.
///
/// Where every directory was gone through, the level is merged as
/// [`merge_level`] says and the scan goes on. Where one was given up, the
/// state stays as it is and the scan is to stop: nothing of a level that
/// was cut short is kept.
pub fn absorb_level<K: Ord, F: Fn(&FileEntry) -> K>(
    state: &mut TraversalState<K>,
    results: Vec<Option<FolderOutcome>>,
    group_by: &F,
) -> (status: WorkContinueStatus)
    requires
        forall|entry: &FileEntry| group_by.requires((entry,)),
    ensures
        status == if all_scanned(results@) {
            WorkContinueStatus::Continue
        } else {
            WorkContinueStatus::Stop
        },
        !all_scanned(results@) ==> *final(state) == *old(state),
        all_scanned(results@) ==> {
            &&& final(state).folders_to_check@ == level_dirs(outcomes_of(results@))
            &&& texts(final(state).warnings@) == texts(old(state).warnings@) + level_warnings(
                outcomes_of(results@),
            )
            &&& keys_in_order::<K>() ==> exists|keys: Seq<K>|
                keyed_by(group_by, level_entries(outcomes_of(results@)), keys) && groups(
                    final(state).grouped_file_entries@,
                ) == #[trigger] filed(
                    groups(old(state).grouped_file_entries@),
                    keys,
                    level_entries(outcomes_of(results@)),
                )
            &&& keys_in_order::<K>() && gives_one_key(group_by) ==> groups(
                final(state).grouped_file_entries@,
            ) == filed(
                groups(old(state).grouped_file_entries@),
                keys_given(group_by, level_entries(outcomes_of(results@))),
                level_entries(outcomes_of(results@)),
            )
        },
{
    match collect_level(results) {
        Some(segments) => {
            merge_level(state, segments, group_by);
            WorkContinueStatus::Continue
        },
        None => WorkContinueStatus::Stop,
    }
}

/// The result of a scan that ran to its end.
pub fn finish<K: Ord>(state: TraversalState<K>) -> (r: DirTraversalResult<K>)
    ensures
        r == (DirTraversalResult::SuccessFiles {
            warnings: state.warnings,
            grouped_file_entries: state.grouped_file_entries,
        }),
{
    DirTraversalResult::SuccessFiles {
        warnings: state.warnings,
        grouped_file_entries: state.grouped_file_entries,
    }
}

/// What is kept of a group of records that share an inode.
pub open spec fn one_per_inode(key: Option<u64>, group: Seq<FileEntry>) -> Seq<FileEntry> {
    if key is Some && group.len() > 1 {
        group.take(1)
    } else {
        group
    }
}

/// Keeps the first record of a group whose key is an inode, and every
/// record of the group without one.
///
/// The names of one inode are hard links to one file, which needs looking
/// at only once.
pub fn take_1_per_inode(group: (Option<u64>, Vec<FileEntry>)) -> (r: Vec<FileEntry>)
    ensures
        r@ == one_per_inode(group.0, group.1@),
{
    let (key, mut entries) = group;
    if key.is_some() {
        entries.truncate(1);
    }
    entries
}

} // verus!
