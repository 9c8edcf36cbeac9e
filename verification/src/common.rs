//! What the tools share: matching of exclusion expressions, the stop flag,
//! thread settings, configuration folders and small helpers on paths.

use std::sync::atomic::AtomicBool;
use std::sync::atomic::AtomicUsize;
use std::sync::Arc;
use vstd::prelude::*;
use vstd::string::StrSliceExecFns;
use vstd::string::StringExecFns;
use crate::common_dir_traversal::dir_mode_enters;
use crate::common_dir_traversal::dir_mode_warnings;
use crate::common_dir_traversal::process_dir_in_file_symlink_mode;
use crate::common_dir_traversal::DirEntryData;
use crate::common_directory::Directories;
use crate::common_items::pattern_matches;
use crate::common_items::ExcludedItems;
use crate::common_items::SingleExcludedItem;
use crate::common_traits::ResultEntry;
use crate::text::has_prefix;
use crate::text::push_text;
use crate::text::same_text;
use crate::text::starts_with_bytes;
use crate::text::texts;
use crate::text::utf8;

verus! {

/// `String::push` appends one character to the end of the string.
pub assume_specification[ String::push ](s: &mut String, ch: char)
    ensures
        final(s)@ == old(s)@.push(ch),
;

/// rayon's `ThreadPoolBuildError`, carried through without a look inside.
#[verifier::external_type_specification]
#[verifier::external_body]
pub struct ExThreadPoolBuildError(rayon::ThreadPoolBuildError);

/// The stack size of the threads that tools start themselves.
pub const DEFAULT_THREAD_SIZE: usize = 8388608;

/// The stack size of each worker of the shared pool.
pub const DEFAULT_WORKER_THREAD_SIZE: usize = 4194304;

/// Milliseconds that the progress reporter sleeps between two looks.
pub const LOOP_DURATION: u32 = 20;

/// Milliseconds that have to pass between two progress reports.
pub const SEND_PROGRESS_DATA_TIME_BETWEEN: u32 = 200;

/// The name under which a file waits while a hard link takes its place.
pub const TEMP_HARDLINK_FILE: &'static str = "rzeczek.rxrxrxl";

/// Whether work goes on or was asked to stop.
#[derive(Debug, PartialEq, Eq, Clone, Copy, Structural)]
pub enum WorkContinueStatus {
    Continue,
    Stop,
}

/// Tells whether an exclusion expression matches the text of a path.
///
/// An expression without a literal segment matches everything. Any other
/// is first held against the path segment by segment, since a path that
/// lacks one of them cannot match; then the anchors at both ends are
/// tried; and at last the segments are looked for one after another, each
/// behind the end of the one before.
pub fn regex_check(expression_item: &SingleExcludedItem, directory_name: &str) -> (r: bool)
    ensures
        r == pattern_matches(expression_item.expression(), utf8(directory_name@)),
{
    expression_item.matches(directory_name.as_bytes())
}

/// Reads the stop flag.
///
/// The flag belongs to the caller and may change at any moment, so nothing
/// is promised of the answer.
#[inline]
pub fn check_if_stop_received(stop_flag: &Arc<AtomicBool>) -> bool {
    stop_flag.load(std::sync::atomic::Ordering::Relaxed)
}

/// Adds `checked` to a shared counter of progress.
///
/// Workers call this once for each directory, so that the counter is not
/// fought over for every single file.
pub fn count_checked_items(items_counter: &Arc<AtomicUsize>, checked: usize) {
    items_counter.fetch_add(checked, std::sync::atomic::Ordering::Relaxed);
}

/// The words of a crash message.
pub open spec fn crash_message(
    library_name: Seq<char>,
    file_path: Seq<char>,
    home_library_url: Seq<char>,
) -> Seq<char> {
    library_name + " library crashed when opening \""@ + file_path
        + "\", please check if this is fixed with the latest version of "@ + library_name
        + " and if it is not fixed, please report bug here - "@ + home_library_url
}

/// The message for a library that crashed on a file.
pub fn create_crash_message(library_name: &str, file_path: &str, home_library_url: &str) -> (r:
    String)
    ensures
        r@ == crash_message(library_name@, file_path@, home_library_url@),
{
    String::from_str(library_name).concat(" library crashed when opening \"").concat(
        file_path,
    ).concat("\", please check if this is fixed with the latest version of ").concat(
        library_name,
    ).concat(" and if it is not fixed, please report bug here - ").concat(home_library_url)
}

/// How much a line of the log matters.
#[derive(Debug, PartialEq, Eq, Clone, Copy, Structural)]
pub enum LogLevel {
    Info,
    Warn,
}

/// One line for the log.
#[derive(Debug, PartialEq, Eq)]
pub struct LogLine {
    pub level: LogLevel,
    pub text: String,
}

/// The lines to log for a list of notes and a list of warnings: every note
/// as information, then every warning as a warning, each list in its own
/// order.
pub fn print_infos_and_warnings(infos: Vec<String>, warnings: Vec<String>) -> (lines: Vec<LogLine>)
    ensures
        lines@.len() == infos@.len() + warnings@.len(),
        forall|i: int|
            0 <= i < infos@.len() ==> (#[trigger] lines@[i]) == (LogLine {
                level: LogLevel::Info,
                text: infos@[i],
            }),
        forall|i: int|
            0 <= i < warnings@.len() ==> (#[trigger] lines@[infos@.len() + i]) == (LogLine {
                level: LogLevel::Warn,
                text: warnings@[i],
            }),
{
    let mut lines: Vec<LogLine> = Vec::new();
    for info in it: infos
        invariant
            it.seq() == infos@,
            lines@.len() == it.index(),
            forall|i: int|
                0 <= i < it.index() ==> (#[trigger] lines@[i]) == (LogLine {
                    level: LogLevel::Info,
                    text: infos@[i],
                }),
    {
        lines.push(LogLine { level: LogLevel::Info, text: info });
    }
    for warning in it: warnings
        invariant
            it.seq() == warnings@,
            lines@.len() == infos@.len() + it.index(),
            forall|i: int|
                0 <= i < infos@.len() ==> (#[trigger] lines@[i]) == (LogLine {
                    level: LogLevel::Info,
                    text: infos@[i],
                }),
            forall|i: int|
                0 <= i < it.index() ==> (#[trigger] lines@[infos@.len() + i]) == (LogLine {
                    level: LogLevel::Warn,
                    text: warnings@[i],
                }),
    {
        lines.push(LogLine { level: LogLevel::Warn, text: warning });
    }
    lines
}

/// A message from this module is let through to the log.
pub open spec fn module_is_logged(module_name: Seq<char>) -> bool {
    ||| has_prefix(utf8(module_name), utf8("krokiet"@))
    ||| has_prefix(utf8(module_name), utf8("czkawka"@))
    ||| has_prefix(utf8(module_name), utf8("log_panics"@))
}

/// Tells whether a message is let through to the log, from the path of the
/// module it comes from: one without a module is, and so is one from the
/// application's own modules.
pub fn filtering_messages(module_name: Option<&str>) -> (r: bool)
    ensures
        r == match module_name {
            Some(module_name) => module_is_logged(module_name@),
            None => true,
        },
{
    match module_name {
        Some(module_name) => {
            let path = module_name.as_bytes();
            starts_with_bytes(path, "krokiet".as_bytes()) || starts_with_bytes(
                path,
                "czkawka".as_bytes(),
            ) || starts_with_bytes(path, "log_panics".as_bytes())
        },
        None => true,
    }
}

/// A switch of the environment is on: the variable is set to `1` or to
/// `true`.
pub open spec fn flag_is_set(value: Option<&str>) -> bool {
    match value {
        Some(value) => value@ == "1"@ || value@ == "true"@,
        None => false,
    }
}

/// Tells whether a switch of the environment is on, from the value of its
/// variable.
pub fn env_flag_is_set(value: Option<&str>) -> (r: bool)
    ensures
        r == flag_is_set(value),
{
    match value {
        Some(value) => same_text(value, "1") || same_text(value, "true"),
        None => false,
    }
}

/// Tells whether messages are shown on the terminal: always, unless the
/// program was started with the terminal switched off and the environment
/// does not switch it on again.
pub fn terminal_logging_enabled(disabled_terminal_printing: bool, enabled_by_environment: bool) -> (r:
    bool)
    ensures
        r == (!disabled_terminal_printing || enabled_by_environment),
{
    !disabled_terminal_printing || enabled_by_environment
}

/// The number of threads that the machine offers, from what a look at the
/// hardware gave: that number where it is known and not 0, else 1.
pub open spec fn resolved_threads(available_parallelism: Option<usize>) -> usize {
    match available_parallelism {
        Some(threads) => if threads >= 1 {
            threads
        } else {
            1
        },
        None => 1,
    }
}

/// The number of threads that the machine offers, never 0.
pub fn get_all_available_threads(available_parallelism: Option<usize>) -> (r: usize)
    ensures
        r == resolved_threads(available_parallelism),
        r >= 1,
{
    match available_parallelism {
        Some(threads) => if threads >= 1 {
            threads
        } else {
            1
        },
        None => 1,
    }
}

/// The thread settings of the process. They exist once the shared pool of
/// workers was built, which happens once.
#[derive(Debug)]
pub struct ThreadSettings {
    number_of_threads: usize,
    all_available_threads: usize,
}

impl ThreadSettings {
    /// The number of threads that was asked for; 0 stands for all.
    pub closed spec fn requested(&self) -> usize {
        self.number_of_threads
    }

    /// The number of threads that the machine offers.
    pub closed spec fn available(&self) -> usize {
        self.all_available_threads
    }

    /// The machine offers at least one thread.
    #[verifier::type_invariant]
    pub closed spec fn well_formed(&self) -> bool {
        self.all_available_threads >= 1
    }

    /// The number of threads that work: the number asked for, or all that
    /// the machine offers where 0 was asked for.
    pub open spec fn effective(&self) -> usize {
        if self.requested() >= 1 {
            self.requested()
        } else {
            self.available()
        }
    }
}

/// Why the shared pool of workers could not be built.
#[derive(Debug)]
pub struct ThreadPoolFailure {
    /// What the pool said.
    pub reason: String,
}

/// Where the paths of configuration and cache lie.
#[derive(Debug, Clone)]
pub struct ConfigCachePath {
    pub config_folder: String,
    pub cache_folder: String,
}

/// What the process was set up with: its thread settings and the folders of
/// configuration and cache, each once it was settled. It is handed to
/// whoever needs either.
#[derive(Debug)]
pub struct CoreContext {
    threads: Option<ThreadSettings>,
    config_cache_path: Option<Option<ConfigCachePath>>,
}

impl CoreContext {
    /// The thread settings, once they were stored.
    pub closed spec fn threads(&self) -> Option<ThreadSettings> {
        self.threads
    }

    /// What was settled of the folders of configuration and cache, once it
    /// was stored: the folders, or that there are none.
    pub closed spec fn config_cache_path(&self) -> Option<Option<ConfigCachePath>> {
        self.config_cache_path
    }

    /// A context in which nothing is settled yet.
    pub fn new() -> (r: Self)
        ensures
            r.threads() is None,
            r.config_cache_path() is None,
    {
        CoreContext { threads: None, config_cache_path: None }
    }

    /// Tells whether thread settings were stored.
    pub fn has_threads(&self) -> (r: bool)
        ensures
            r == self.threads() is Some,
    {
        self.threads.is_some()
    }

    /// Tells whether the folders of configuration and cache were settled.
    pub fn has_config_cache_path(&self) -> (r: bool)
        ensures
            r == self.config_cache_path() is Some,
    {
        self.config_cache_path.is_some()
    }

    /// Stores the thread settings, unless some were stored before: the
    /// first settings stay. Tells whether these were stored.
    pub fn store_threads(&mut self, threads: ThreadSettings) -> (stored: bool)
        ensures
            stored == old(self).threads() is None,
            final(self).threads() == if stored {
                Some(threads)
            } else {
                old(self).threads()
            },
            final(self).config_cache_path() == old(self).config_cache_path(),
    {
        if self.threads.is_some() {
            return false;
        }
        self.threads = Some(threads);
        true
    }

    /// Stores what was settled of the folders of configuration and cache,
    /// unless that was done before: what was stored first stays. Tells
    /// whether this was stored.
    pub fn store_config_cache_path(&mut self, config_cache_path: Option<ConfigCachePath>) -> (stored:
        bool)
        ensures
            stored == old(self).config_cache_path() is None,
            final(self).config_cache_path() == if stored {
                Some(config_cache_path)
            } else {
                old(self).config_cache_path()
            },
            final(self).threads() == old(self).threads(),
    {
        if self.config_cache_path.is_some() {
            return false;
        }
        self.config_cache_path = Some(config_cache_path);
        true
    }
}

/// The folders of configuration and cache; none where they could not be
/// set. They have to be settled before they are asked for.
pub fn get_config_cache_path(context: &CoreContext) -> (r: Option<ConfigCachePath>)
    requires
        context.config_cache_path() is Some,
    ensures
        r == context.config_cache_path()->Some_0,
{
    match &context.config_cache_path {
        Some(Some(path)) => Some(
            ConfigCachePath {
                config_folder: path.config_folder.clone(),
                cache_folder: path.cache_folder.clone(),
            },
        ),
        _ => None,
    }
}

/// The number of threads that work, never 0: the number that was asked
/// for, or all that the machine offers where 0 was asked for. The thread
/// settings have to be stored before the number is asked for.
pub fn get_number_of_threads(context: &CoreContext) -> (r: usize)
    requires
        context.threads() is Some,
    ensures
        r == context.threads()->Some_0.effective(),
        r >= 1,
{
    match &context.threads {
        Some(threads) => {
            proof {
                use_type_invariant(threads);
            }
            if threads.number_of_threads >= 1 {
                threads.number_of_threads
            } else {
                threads.all_available_threads
            }
        },
        None => 1,
    }
}

/// Builds the shared pool of workers with `num_threads` workers, each with
/// a stack of `stack_size` bytes, by rayon's `ThreadPoolBuilder`:
/// `new`, `num_threads`, `stack_size` and `build_global`.
///
/// Whether the pool can be built depends on whether the process has built
/// or used one before, so nothing is claimed of the result. A count of 0
/// is left out: rayon would take the number from the environment then.
#[verifier::external_body]
fn build_global_pool(num_threads: usize, stack_size: usize) -> (r: Result<
    (),
    rayon::ThreadPoolBuildError,
>)
    requires
        num_threads >= 1,
{
    rayon::ThreadPoolBuilder::new().num_threads(num_threads).stack_size(stack_size).build_global()
}

/// The words of rayon's `ThreadPoolBuildError`, by its `Display`.
/// Nothing is claimed of them.
#[verifier::external_body]
fn describe_pool_error(error: &rayon::ThreadPoolBuildError) -> (r: String) {
    error.to_string()
}

/// The thread settings after an attempt to build the shared pool: the
/// settings where it was built, the reason where it was not.
pub fn thread_settings_from(
    thread_number: usize,
    available_parallelism: Option<usize>,
    built: Result<(), String>,
) -> (r: Result<ThreadSettings, ThreadPoolFailure>)
    ensures
        match built {
            Ok(_) => r is Ok && r->Ok_0.requested() == thread_number && r->Ok_0.available()
                == resolved_threads(available_parallelism),
            Err(reason) => r is Err && r->Err_0.reason == reason,
        },
{
    match built {
        Ok(_) => Ok(
            ThreadSettings {
                number_of_threads: thread_number,
                all_available_threads: get_all_available_threads(available_parallelism),
            },
        ),
        Err(reason) => Err(ThreadPoolFailure { reason }),
    }
}

/// The number of workers that the shared pool is built with.
pub open spec fn pool_size(thread_number: usize, available_parallelism: Option<usize>) -> usize {
    if thread_number >= 1 {
        thread_number
    } else {
        resolved_threads(available_parallelism)
    }
}

/// The number of workers that the shared pool is built with: the number
/// asked for, or all that the machine offers where 0 is asked for; never 0.
pub fn pool_workers(thread_number: usize, available_parallelism: Option<usize>) -> (workers: usize)
    ensures
        workers == pool_size(thread_number, available_parallelism),
        workers >= 1,
{
    if thread_number >= 1 {
        thread_number
    } else {
        get_all_available_threads(available_parallelism)
    }
}

/// Sets the number of threads and builds the shared pool of workers, with
/// that many workers or, where 0 is asked for, with as many as the machine
/// offers, each with a stack of `DEFAULT_WORKER_THREAD_SIZE` bytes.
///
/// The pool can be built once in a process. Whether this attempt is the
/// first is for the pool to say, so success is not promised; where it is
/// reported, the settings are the ones asked for.
pub fn set_number_of_threads(thread_number: usize, available_parallelism: Option<usize>) -> (r:
    Result<ThreadSettings, ThreadPoolFailure>)
    ensures
        r is Ok ==> r->Ok_0.requested() == thread_number && r->Ok_0.available() == resolved_threads(
            available_parallelism,
        ) && r->Ok_0.effective() == pool_size(thread_number, available_parallelism),
{
    let built = match build_global_pool(
        pool_workers(thread_number, available_parallelism),
        DEFAULT_WORKER_THREAD_SIZE,
    ) {
        Ok(done) => Ok(done),
        Err(error) => Err(describe_pool_error(&error)),
    };
    thread_settings_from(thread_number, available_parallelism, built)
}

/// The parent of a path as `std::path::Path::parent` gives it for the path
/// syntax of the platform, as text; none for a path that ends in a root or
/// is empty.
pub uninterp spec fn parent_of(path: Seq<char>) -> Option<Seq<char>>;

/// The final component of a path as `std::path::Path::file_name` gives it
/// for the path syntax of the platform, as text; none for a path that ends
/// in `..` or is a root.
pub uninterp spec fn file_name_of(path: Seq<char>) -> Option<Seq<char>>;

/// How two paths, each given by its text or missing, compare by the order
/// of `Option<&Path>`: -1, 0 or 1 for less, equal or greater.
pub uninterp spec fn path_order(path_a: Option<Seq<char>>, path_b: Option<Seq<char>>) -> int;

/// How two names, each given by its text or missing, compare by the order
/// of `Option<&OsStr>`: -1, 0 or 1 for less, equal or greater.
pub uninterp spec fn name_order(name_a: Option<Seq<char>>, name_b: Option<Seq<char>>) -> int;

/// The text of a string that may be missing.
pub open spec fn text_of(text: Option<String>) -> Option<Seq<char>> {
    match text {
        Some(text) => Some(text@),
        None => None,
    }
}

/// The number that stands for an ordering: -1, 0 or 1.
pub open spec fn order_number(order: std::cmp::Ordering) -> int {
    match order {
        std::cmp::Ordering::Less => -1,
        std::cmp::Ordering::Equal => 0,
        std::cmp::Ordering::Greater => 1,
    }
}

/// Calls `std::path::Path::parent` on the path with this text and gives
/// the parent's text. The contract only names the result.
#[verifier::external_body]
fn path_parent(path: &str) -> (r: Option<String>)
    ensures
        match parent_of(path@) {
            Some(parent) => r is Some && r->Some_0@ == parent,
            None => r is None,
        },
{
    match std::path::Path::new(path).parent() {
        Some(parent) => Some(parent.to_string_lossy().to_string()),
        None => None,
    }
}

/// Calls `std::path::Path::file_name` on the path with this text and gives
/// the name's text. The contract only names the result.
#[verifier::external_body]
fn path_file_name(path: &str) -> (r: Option<String>)
    ensures
        match file_name_of(path@) {
            Some(name) => r is Some && r->Some_0@ == name,
            None => r is None,
        },
{
    match std::path::Path::new(path).file_name() {
        Some(name) => Some(name.to_string_lossy().into_owned()),
        None => None,
    }
}

/// Compares two paths, each given by its text or missing, with `Ord::cmp`
/// on `Option<&Path>`. The contract only names the result.
#[verifier::external_body]
fn compare_paths(path_a: &Option<String>, path_b: &Option<String>) -> (r: std::cmp::Ordering)
    ensures
        order_number(r) == path_order(text_of(*path_a), text_of(*path_b)),
{
    let a = match path_a {
        Some(text) => Some(std::path::Path::new(text)),
        None => None,
    };
    let b = match path_b {
        Some(text) => Some(std::path::Path::new(text)),
        None => None,
    };
    a.cmp(&b)
}

/// Compares two names, each given by its text or missing, with `Ord::cmp`
/// on `Option<&OsStr>`. The contract only names the result.
#[verifier::external_body]
fn compare_names(name_a: &Option<String>, name_b: &Option<String>) -> (r: std::cmp::Ordering)
    ensures
        order_number(r) == name_order(text_of(*name_a), text_of(*name_b)),
{
    let a = match name_a {
        Some(text) => Some(std::path::Path::new(text).as_os_str()),
        None => None,
    };
    let b = match name_b {
        Some(text) => Some(std::path::Path::new(text).as_os_str()),
        None => None,
    };
    a.cmp(&b)
}

/// The directory and the file name of a path as two texts, from its parent
/// and its final component: both where there is a parent, with an empty
/// name where there is no final component; two empty texts where there is
/// no parent.
pub open spec fn split_parts(
    parent: Option<Seq<char>>,
    file_name: Option<Seq<char>>,
) -> (Seq<char>, Seq<char>) {
    match (parent, file_name) {
        (Some(dir), Some(file)) => (dir, file),
        (Some(dir), None) => (dir, Seq::empty()),
        (None, _) => (Seq::empty(), Seq::empty()),
    }
}

/// The directory and the file name of a path, from its parent and its
/// final component.
pub fn split_path_parts(parent: Option<String>, file_name: Option<String>) -> (r: (String, String))
    ensures
        (r.0@, r.1@) == split_parts(
            match parent {
                Some(dir) => Some(dir@),
                None => None,
            },
            match file_name {
                Some(file) => Some(file@),
                None => None,
            },
        ),
{
    match (parent, file_name) {
        (Some(dir), Some(file)) => (dir, file),
        (Some(dir), None) => (dir, String::new()),
        (None, _) => (String::new(), String::new()),
    }
}

/// The directory and the file name of a path, as two texts.
pub fn split_path(path: &str) -> (r: (String, String))
    ensures
        (r.0@, r.1@) == split_parts(parent_of(path@), file_name_of(path@)),
{
    split_path_parts(path_parent(path), path_file_name(path))
}

/// The first ordering where it decides, else the second.
pub open spec fn first_then(first: int, second: int) -> int {
    if first != 0 {
        first
    } else {
        second
    }
}

/// The order of two things compared twice: by the first comparison where
/// that tells them apart, else by the second.
pub fn order_by_both(first: std::cmp::Ordering, second: std::cmp::Ordering) -> (r:
    std::cmp::Ordering)
    ensures
        order_number(r) == first_then(order_number(first), order_number(second)),
        r == match first {
            std::cmp::Ordering::Equal => second,
            _ => first,
        },
{
    match first {
        std::cmp::Ordering::Equal => second,
        other => other,
    }
}

/// Compares two paths by their parents and, where these are the same, by
/// their final components.
pub fn split_path_compare(path_a: &str, path_b: &str) -> (r: std::cmp::Ordering)
    ensures
        order_number(r) == first_then(
            path_order(parent_of(path_a@), parent_of(path_b@)),
            name_order(file_name_of(path_a@), file_name_of(path_b@)),
        ),
{
    let parents = compare_paths(&path_parent(path_a), &path_parent(path_b));
    let names = compare_names(&path_file_name(path_a), &path_file_name(path_b));
    order_by_both(parents, names)
}

/// Which of the two folders is meant.
#[derive(Debug, PartialEq, Eq, Clone, Copy, Structural)]
pub enum FolderKind {
    Config,
    Cache,
}

impl FolderKind {
    /// The folder's name at the head of a sentence.
    pub open spec fn title(&self) -> Seq<char> {
        match self {
            FolderKind::Config => "Config"@,
            FolderKind::Cache => "Cache"@,
        }
    }

    /// The folder's name within a sentence.
    pub open spec fn word(&self) -> Seq<char> {
        match self {
            FolderKind::Config => "config"@,
            FolderKind::Cache => "cache"@,
        }
    }

    fn title_text(&self) -> (r: &'static str)
        ensures
            r@ == self.title(),
    {
        match self {
            FolderKind::Config => "Config",
            FolderKind::Cache => "Cache",
        }
    }

    fn word_text(&self) -> (r: &'static str)
        ensures
            r@ == self.word(),
    {
        match self {
            FolderKind::Config => "config",
            FolderKind::Cache => "cache",
        }
    }
}

/// What was found at the folder that the environment names, after an
/// attempt to create it.
#[derive(Debug)]
pub enum FolderProbe {
    /// Nothing is there.
    Missing,
    /// Something is there that is no directory.
    NotDirectory,
    /// A directory, with this canonical path.
    Canonical(String),
    /// A directory whose canonical path could not be found.
    NotCanonical,
}

/// How a default folder is written in a warning.
pub open spec fn default_folder_text(default_folder: Option<String>) -> Seq<char> {
    match default_folder {
        Some(folder) => folder@,
        None => "<not available>"@,
    }
}

/// The warning that a folder's probe gives rise to, if any.
pub open spec fn folder_warning(
    env_var: Seq<char>,
    default_folder: Option<String>,
    kind: FolderKind,
    probe: FolderProbe,
) -> Option<Seq<char>> {
    if env_var.len() == 0 {
        None
    } else {
        match probe {
            FolderProbe::Missing => Some(
                kind.title() + " folder \""@ + env_var + "\" does not exist, using default folder \""@
                    + default_folder_text(default_folder) + "\""@,
            ),
            FolderProbe::NotDirectory => Some(
                kind.title() + " folder \""@ + env_var
                    + "\" is not a directory, using default folder \""@ + default_folder_text(
                    default_folder,
                ) + "\""@,
            ),
            FolderProbe::Canonical(_) => None,
            FolderProbe::NotCanonical => Some(
                "Cannot canonicalize "@ + kind.word() + " folder \""@ + env_var
                    + "\", using default folder \""@ + default_folder_text(default_folder) + "\""@,
            ),
        }
    }
}

/// The folder that is used: the canonical path of the folder that the
/// environment names, where it names one and that is a directory; else the
/// default.
pub open spec fn folder_choice(
    env_var: Seq<char>,
    default_folder: Option<String>,
    probe: FolderProbe,
) -> Option<String> {
    if env_var.len() == 0 {
        default_folder
    } else {
        match probe {
            FolderProbe::Canonical(folder) => Some(folder),
            _ => default_folder,
        }
    }
}

/// Chooses the folder of one kind.
///
/// `env_var` is what the environment names, trimmed; where it is empty the
/// default is taken and the probe is not looked at. Falling back to the
/// default raises a warning.
pub fn resolve_folder(
    env_var: &str,
    default_folder: Option<String>,
    kind: FolderKind,
    probe: FolderProbe,
    warnings: &mut Vec<String>,
) -> (r: Option<String>)
    ensures
        r == folder_choice(env_var@, default_folder, probe),
        texts(final(warnings)@) == match folder_warning(env_var@, default_folder, kind, probe) {
            Some(warning) => texts(old(warnings)@).push(warning),
            None => texts(old(warnings)@),
        },
{
    if env_var.unicode_len() == 0 {
        return default_folder;
    }
    let default_folder_str = match &default_folder {
        Some(folder) => folder.clone(),
        None => String::from_str("<not available>"),
    };
    match probe {
        FolderProbe::Missing => {
            push_text(
                warnings,
                String::from_str(kind.title_text()).concat(" folder \"").concat(env_var).concat(
                    "\" does not exist, using default folder \"",
                ).concat(default_folder_str.as_str()).concat("\""),
            );
            default_folder
        },
        FolderProbe::NotDirectory => {
            push_text(
                warnings,
                String::from_str(kind.title_text()).concat(" folder \"").concat(env_var).concat(
                    "\" is not a directory, using default folder \"",
                ).concat(default_folder_str.as_str()).concat("\""),
            );
            default_folder
        },
        FolderProbe::Canonical(folder) => Some(folder),
        FolderProbe::NotCanonical => {
            push_text(
                warnings,
                String::from_str("Cannot canonicalize ").concat(kind.word_text()).concat(
                    " folder \"",
                ).concat(env_var).concat("\", using default folder \"").concat(
                    default_folder_str.as_str(),
                ).concat("\""),
            );
            default_folder
        },
    }
}

/// The note that says which folders are used.
pub open spec fn folders_set_note(config_folder: Seq<char>, cache_folder: Seq<char>) -> Seq<char> {
    "Config folder set to \""@ + config_folder + "\" and cache folder set to \""@ + cache_folder
        + "\""@
}

/// The warning for a folder that could not be created.
pub open spec fn cannot_create_folder(
    kind: FolderKind,
    folder: Seq<char>,
    reason: Seq<char>,
) -> Seq<char> {
    "Cannot create "@ + kind.word() + " folder \""@ + folder + "\", reason "@ + reason
}

/// The warning for folders that cannot be used.
pub open spec fn folders_unset_warning() -> Seq<char> {
    "Cannot set config/cache path - config and cache will not be used."@
}

/// The folders of configuration and cache, where both were chosen.
pub fn pair_folders(config_folder: Option<String>, cache_folder: Option<String>) -> (r: Option<
    ConfigCachePath,
>)
    ensures
        r == match (config_folder, cache_folder) {
            (Some(config_folder), Some(cache_folder)) => Some(
                ConfigCachePath { config_folder, cache_folder },
            ),
            _ => None,
        },
{
    match (config_folder, cache_folder) {
        (Some(config_folder), Some(cache_folder)) => Some(
            ConfigCachePath { config_folder, cache_folder },
        ),
        _ => None,
    }
}

/// The warning for a folder that could not be created, as text.
pub fn folder_creation_warning(kind: FolderKind, folder: &str, reason: &str) -> (r: String)
    ensures
        r@ == cannot_create_folder(kind, folder@, reason@),
{
    String::from_str("Cannot create ").concat(kind.word_text()).concat(" folder \"").concat(
        folder,
    ).concat("\", reason ").concat(reason)
}

/// Settles the folders of configuration and cache, and gives the notes and
/// the warnings to log.
///
/// `paths` are the folders chosen, where both could be; `warnings` are the
/// warnings raised while choosing. Where there are folders, a note names
/// them, and each folder that had to be created and could not be (the
/// reason is given) adds a warning, the configuration folder first. Where
/// there are none, a warning says so.
pub fn set_config_cache_path(
    paths: &Option<ConfigCachePath>,
    config_creation_failure: Option<String>,
    cache_creation_failure: Option<String>,
    warnings: Vec<String>,
) -> (r: (Vec<String>, Vec<String>))
    ensures
        texts(r.0@) == match *paths {
            Some(paths) => seq![folders_set_note(paths.config_folder@, paths.cache_folder@)],
            None => Seq::<Seq<char>>::empty(),
        },
        texts(r.1@) == texts(warnings@) + match *paths {
            Some(paths) => (match config_creation_failure {
                Some(reason) => seq![
                    cannot_create_folder(FolderKind::Config, paths.config_folder@, reason@),
                ],
                None => Seq::<Seq<char>>::empty(),
            }) + (match cache_creation_failure {
                Some(reason) => seq![
                    cannot_create_folder(FolderKind::Cache, paths.cache_folder@, reason@),
                ],
                None => Seq::<Seq<char>>::empty(),
            }),
            None => seq![folders_unset_warning()],
        },
{
    let mut infos: Vec<String> = Vec::new();
    let mut warnings = warnings;
    let ghost given = texts(warnings@);
    let ghost none = Seq::<Seq<char>>::empty();
    assert(texts(infos@) =~= none);
    match paths {
        Some(paths) => {
            push_text(
                &mut infos,
                String::from_str("Config folder set to \"").concat(
                    paths.config_folder.as_str(),
                ).concat("\" and cache folder set to \"").concat(
                    paths.cache_folder.as_str(),
                ).concat("\""),
            );
            assert(texts(infos@) =~= seq![
                folders_set_note(paths.config_folder@, paths.cache_folder@),
            ]);
            let ghost first = if config_creation_failure is Some {
                seq![
                    cannot_create_folder(
                        FolderKind::Config,
                        paths.config_folder@,
                        config_creation_failure->Some_0@,
                    ),
                ]
            } else {
                none
            };
            let ghost second = if cache_creation_failure is Some {
                seq![
                    cannot_create_folder(
                        FolderKind::Cache,
                        paths.cache_folder@,
                        cache_creation_failure->Some_0@,
                    ),
                ]
            } else {
                none
            };
            if let Some(reason) = &config_creation_failure {
                push_text(
                    &mut warnings,
                    folder_creation_warning(
                        FolderKind::Config,
                        paths.config_folder.as_str(),
                        reason.as_str(),
                    ),
                );
            }
            assert(texts(warnings@) =~= given + first);
            if let Some(reason) = &cache_creation_failure {
                push_text(
                    &mut warnings,
                    folder_creation_warning(
                        FolderKind::Cache,
                        paths.cache_folder.as_str(),
                        reason.as_str(),
                    ),
                );
            }
            assert(texts(warnings@) =~= given + (first + second));
        },
        None => {
            push_text(
                &mut warnings,
                String::from_str(
                    "Cannot set config/cache path - config and cache will not be used.",
                ),
            );
            assert(texts(warnings@) =~= given + seq![folders_unset_warning()]);
        },
    }
    (infos, warnings)
}

/// What reading a directory gave: nothing, or its entries, each with its
/// path unless the entry itself could not be read.
#[derive(Debug)]
pub enum DirectoryListing {
    Unreadable,
    Entries(Vec<Option<String>>),
}

/// What a look at one entry gave.
#[derive(Debug)]
pub enum EntryInspection {
    /// Its type is not known.
    UnknownType,
    /// It is no directory.
    NotDirectory,
    /// It is a directory, and this is what reading it gave.
    Directory(DirectoryListing),
}

/// Every entry of the listing could be read.
pub open spec fn all_read(entries: Seq<Option<String>>) -> bool {
    forall|i: int| 0 <= i < entries.len() ==> (#[trigger] entries[i]) is Some
}

/// The paths of a listing whose every entry could be read.
pub open spec fn paths_of(entries: Seq<Option<String>>) -> Seq<String> {
    Seq::new(entries.len(), |i: int| entries[i]->Some_0)
}

/// Why a folder is not one that holds only empty folders, from what a look
/// at it gave.
pub open spec fn root_objection(path: Seq<char>, is_dir: bool, listing: DirectoryListing) -> Option<
    Seq<char>,
> {
    if !is_dir {
        Some("Trying to remove folder \""@ + path + "\" which is not a directory"@)
    } else {
        match listing {
            DirectoryListing::Unreadable => Some("Cannot read directory \""@ + path + "\""@),
            DirectoryListing::Entries(entries) => if all_read(entries@) {
                None
            } else {
                Some("Cannot read entry from directory \""@ + path + "\""@)
            },
        }
    }
}

/// Why a folder is not one that holds only empty folders, from what a look
/// at one of the entries below it gave.
pub open spec fn entry_objection(
    path: Seq<char>,
    entry: Seq<char>,
    inspection: EntryInspection,
) -> Option<Seq<char>> {
    match inspection {
        EntryInspection::UnknownType => Some(
            "Folder contains file with unknown type \""@ + entry + "\" inside \""@ + path + "\""@,
        ),
        EntryInspection::NotDirectory => Some(
            "Folder contains file \""@ + entry + "\" inside \""@ + path + "\""@,
        ),
        EntryInspection::Directory(DirectoryListing::Unreadable) => Some(
            "Cannot read directory \""@ + entry + "\" inside \""@ + path + "\""@,
        ),
        EntryInspection::Directory(DirectoryListing::Entries(entries)) => if all_read(entries@) {
            None
        } else {
            Some("Cannot read entry from directory \""@ + entry + "\" inside \""@ + path + "\""@)
        },
    }
}

/// The paths of a listing where every entry could be read.
fn listed_paths(entries: Vec<Option<String>>) -> (r: Option<Vec<String>>)
    ensures
        match r {
            Some(paths) => all_read(entries@) && paths@ == paths_of(entries@),
            None => !all_read(entries@),
        },
{
    let mut paths: Vec<String> = Vec::new();
    for entry in it: entries
        invariant
            it.seq() == entries@,
            paths@.len() == it.index(),
            forall|i: int| 0 <= i < it.index() ==> (#[trigger] entries@[i]) == Some(paths@[i]),
    {
        match entry {
            Some(path) => {
                paths.push(path);
            },
            None => {
                assert(entries@[it.index() as int] is None);
                return None;
            },
        }
    }
    assert(paths@ =~= paths_of(entries@));
    Some(paths)
}

/// A check, under way, that a folder holds nothing but folders that are
/// themselves empty or hold only such folders.
///
/// The file system is the caller's: the check names an entry to look at,
/// the caller looks and reports, until no entry is left or one objects.
#[derive(Debug)]
pub struct EmptyFolderCheck {
    path: String,
    entries_to_check: Vec<String>,
}

impl EmptyFolderCheck {
    /// The folder that is checked.
    pub closed spec fn path(&self) -> Seq<char> {
        self.path@
    }

    /// The entries that are still to be looked at; the last comes first.
    pub closed spec fn pending(&self) -> Seq<String> {
        self.entries_to_check@
    }

    /// The next entry to look at; none where the check is over and the
    /// folder holds only empty folders.
    pub fn next_entry(&mut self) -> (r: Option<String>)
        ensures
            final(self).path() == old(self).path(),
            match r {
                Some(entry) => old(self).pending().len() > 0 && entry == old(self).pending().last()
                    && final(self).pending() == old(self).pending().drop_last(),
                None => old(self).pending().len() == 0 && final(self).pending() == old(
                    self,
                ).pending(),
            },
    {
        self.entries_to_check.pop()
    }

    /// Takes in what a look at `entry` gave: an objection ends the check,
    /// and the entries of a directory join those still to be looked at.
    pub fn record(&mut self, entry: &str, inspection: EntryInspection) -> (r: Result<(), String>)
        ensures
            final(self).path() == old(self).path(),
            match entry_objection(old(self).path(), entry@, inspection) {
                Some(objection) => r is Err && r->Err_0@ == objection,
                None => r is Ok && final(self).pending() == old(self).pending() + paths_of(
                    inspection->Directory_0->Entries_0@,
                ),
            },
    {
        match inspection {
            EntryInspection::UnknownType => Err(
                String::from_str("Folder contains file with unknown type \"").concat(entry).concat(
                    "\" inside \"",
                ).concat(self.path.as_str()).concat("\""),
            ),
            EntryInspection::NotDirectory => Err(
                String::from_str("Folder contains file \"").concat(entry).concat(
                    "\" inside \"",
                ).concat(self.path.as_str()).concat("\""),
            ),
            EntryInspection::Directory(DirectoryListing::Unreadable) => Err(
                String::from_str("Cannot read directory \"").concat(entry).concat(
                    "\" inside \"",
                ).concat(self.path.as_str()).concat("\""),
            ),
            EntryInspection::Directory(DirectoryListing::Entries(entries)) => {
                match listed_paths(entries) {
                    Some(paths) => {
                        let mut paths = paths;
                        self.entries_to_check.append(&mut paths);
                        Ok(())
                    },
                    None => Err(
                        String::from_str("Cannot read entry from directory \"").concat(
                            entry,
                        ).concat("\" inside \"").concat(self.path.as_str()).concat("\""),
                    ),
                }
            },
        }
    }
}

/// Begins the check that a folder holds only empty folders, from what a
/// look at the folder itself gave.
///
/// A path that is no directory, a directory that cannot be read and an
/// entry that cannot be read each end the check at once, with the reason.
/// Otherwise the folder's entries are the first to be looked at.
pub fn check_if_folder_contains_only_empty_folders(
    path: &str,
    is_dir: bool,
    listing: DirectoryListing,
) -> (r: Result<EmptyFolderCheck, String>)
    ensures
        match root_objection(path@, is_dir, listing) {
            Some(objection) => r is Err && r->Err_0@ == objection,
            None => r is Ok && r->Ok_0.path() == path@ && r->Ok_0.pending() == paths_of(
                listing->Entries_0@,
            ),
        },
{
    if !is_dir {
        return Err(
            String::from_str("Trying to remove folder \"").concat(path).concat(
                "\" which is not a directory",
            ),
        );
    }
    match listing {
        DirectoryListing::Unreadable => Err(
            String::from_str("Cannot read directory \"").concat(path).concat("\""),
        ),
        DirectoryListing::Entries(entries) => match listed_paths(entries) {
            Some(paths) => Ok(
                EmptyFolderCheck { path: String::from_str(path), entries_to_check: paths },
            ),
            None => Err(
                String::from_str("Cannot read entry from directory \"").concat(path).concat("\""),
            ),
        },
    }
}

/// How a folder is removed.
#[derive(Debug, PartialEq, Eq, Clone, Copy, Structural)]
pub enum FolderRemoval {
    /// It is moved to the trash.
    ToTrash,
    /// It is deleted with all that is below it.
    Delete,
}

/// Decides on the removal of a folder from how its check went: where the
/// check objected, its objection is the result and nothing is removed;
/// where the folder holds only empty folders, the removal to make.
pub fn remove_folder_if_contains_only_empty_folders(
    checked: Result<(), String>,
    remove_to_trash: bool,
) -> (r: Result<FolderRemoval, String>)
    ensures
        r == match checked {
            Ok(_) => Ok::<FolderRemoval, String>(
                if remove_to_trash {
                    FolderRemoval::ToTrash
                } else {
                    FolderRemoval::Delete
                },
            ),
            Err(objection) => Err::<FolderRemoval, String>(objection),
        },
{
    match checked {
        Ok(_) => Ok(
            if remove_to_trash {
                FolderRemoval::ToTrash
            } else {
                FolderRemoval::Delete
            },
        ),
        Err(objection) => Err(objection),
    }
}

/// The words for a folder that could not be moved to the trash.
pub open spec fn cannot_trash_folder(path: Seq<char>, reason: Seq<char>) -> Seq<char> {
    "Cannot move folder \""@ + path + "\" to trash, reason "@ + reason
}

/// The words for a folder that could not be removed.
pub open spec fn cannot_remove_folder(path: Seq<char>, reason: Seq<char>) -> Seq<char> {
    "Cannot remove directory \""@ + path + "\", reason "@ + reason
}

/// The result of removing a folder, from how the removal went: done, or
/// the reason in words that say which way of removing failed.
pub fn folder_removal_result(path: &str, removal: FolderRemoval, outcome: Result<(), String>) -> (r:
    Result<(), String>)
    ensures
        match outcome {
            Ok(_) => r is Ok,
            Err(reason) => r is Err && r->Err_0@ == match removal {
                FolderRemoval::ToTrash => cannot_trash_folder(path@, reason@),
                FolderRemoval::Delete => cannot_remove_folder(path@, reason@),
            },
        },
{
    match outcome {
        Ok(_) => Ok(()),
        Err(reason) => match removal {
            FolderRemoval::ToTrash => Err(
                String::from_str("Cannot move folder \"").concat(path).concat(
                    "\" to trash, reason ",
                ).concat(reason.as_str()),
            ),
            FolderRemoval::Delete => Err(
                String::from_str("Cannot remove directory \"").concat(path).concat(
                    "\", reason ",
                ).concat(reason.as_str()),
            ),
        },
    }
}

/// An ASCII capital turned into its small letter; any other character as
/// it is.
pub open spec fn lower_char(c: char) -> char {
    if 'A' <= c && c <= 'Z' {
        ((c as u8) + 32) as char
    } else {
        c
    }
}

/// An ASCII small letter turned into its capital; any other character as
/// it is.
pub open spec fn upper_char(c: char) -> char {
    if 'a' <= c && c <= 'z' {
        ((c as u8) - 32) as char
    } else {
        c
    }
}

/// A slash turned into a backslash; any other character as it is.
pub open spec fn backslashed(c: char) -> char {
    if c == '/' {
        '\\'
    } else {
        c
    }
}

/// The character is one of ASCII.
pub open spec fn is_ascii_char(c: char) -> bool {
    c <= '\u{7f}'
}

/// The normal form of a Windows path.
///
/// A path that begins with a backslash is a network path and stays as it
/// is, since such paths may tell capitals from small letters. So does the
/// empty path, and one whose first character is not of ASCII. In any other
/// every slash becomes a backslash; then, where a colon follows the first
/// character, that character is a drive letter and becomes a capital and
/// the rest becomes small; else everything becomes small. Only letters of
/// ASCII change.
pub open spec fn normalized_windows_path(path: Seq<char>) -> Seq<char> {
    if path.len() == 0 || path[0] == '\\' || !is_ascii_char(path[0]) {
        path
    } else if path.len() >= 2 && path[1] == ':' {
        Seq::new(
            path.len(),
            |i: int|
                if i == 0 {
                    upper_char(backslashed(path[i]))
                } else {
                    lower_char(backslashed(path[i]))
                },
        )
    } else {
        Seq::new(path.len(), |i: int| lower_char(backslashed(path[i])))
    }
}

/// The characters of a text.
fn chars_of(text: &str) -> (r: Vec<char>)
    ensures
        r@ == text@,
{
    let mut r: Vec<char> = Vec::new();
    for c in it: text.chars()
        invariant
            it.seq() == text@,
            r@ == text@.take(it.index() as int),
    {
        r.push(c);
        assert(text@.take(it.index() + 1) =~= text@.take(it.index() as int).push(c));
    }
    assert(text@.take(text@.len() as int) =~= text@);
    r
}

/// Brings a Windows path into its normal form.
pub fn normalize_windows_path(path_to_change: &str) -> (r: String)
    ensures
        r@ == normalized_windows_path(path_to_change@),
{
    let chars = chars_of(path_to_change);
    if chars.len() == 0 || chars[0] == '\\' || chars[0] > '\u{7f}' {
        return String::from_str(path_to_change);
    }
    let drive = chars.len() >= 2 && chars[1] == ':';
    let mut r = String::new();
    let mut i: usize = 0;
    while i < chars.len()
        invariant
            i <= chars.len(),
            chars@ == path_to_change@,
            drive == (chars@.len() >= 2 && chars@[1] == ':'),
            r@.len() == i,
            forall|j: int|
                0 <= j < i ==> r@[j] == if drive && j == 0 {
                    upper_char(backslashed(chars@[j]))
                } else {
                    lower_char(backslashed(chars@[j]))
                },
        decreases chars.len() - i,
    {
        let c = if chars[i] == '/' {
            '\\'
        } else {
            chars[i]
        };
        let folded = if drive && i == 0 {
            if 'a' <= c && c <= 'z' {
                ((c as u8) - 32) as char
            } else {
                c
            }
        } else {
            if 'A' <= c && c <= 'Z' {
                ((c as u8) + 32) as char
            } else {
                c
            }
        };
        r.push(folded);
        i += 1;
    }
    assert(r@ =~= normalized_windows_path(path_to_change@));
    r
}

/// Handles a directory found while a tool walks a tree of its own: where
/// the walk is recursive and nothing keeps the directory out, its path
/// joins `dir_result`.
pub fn check_folder_children(
    dir_result: &mut Vec<String>,
    warnings: &mut Vec<String>,
    entry_data: &DirEntryData,
    recursive_search: bool,
    directories: &Directories,
    excluded_items: &ExcludedItems,
)
    ensures
        final(dir_result)@ == if dir_mode_enters(
            recursive_search,
            entry_data,
            directories,
            excluded_items,
        ) {
            old(dir_result)@.push(entry_data.path)
        } else {
            old(dir_result)@
        },
        texts(final(warnings)@) == texts(old(warnings)@) + dir_mode_warnings(
            recursive_search,
            entry_data,
            directories,
            excluded_items,
        ),
{
    process_dir_in_file_symlink_mode(
        recursive_search,
        entry_data,
        directories,
        dir_result,
        warnings,
        excluded_items,
    );
}

/// The entries of a group that lie in a reference directory, or those that
/// do not, in the order of the group.
pub open spec fn entries_where<T: ResultEntry>(
    group: Seq<T>,
    directories: &Directories,
    referenced: bool,
) -> Seq<T>
    decreases group.len(),
{
    if group.len() == 0 {
        Seq::empty()
    } else {
        let before = entries_where(group.drop_last(), directories, referenced);
        if directories.references(group.last().path_text()) == referenced {
            before.push(group.last())
        } else {
            before
        }
    }
}

/// What is kept of a group: the last of its entries from reference
/// directories, with the entries that lie elsewhere; nothing where either
/// kind is missing.
pub open spec fn reference_split<T: ResultEntry>(
    group: Seq<T>,
    directories: &Directories,
) -> Option<(T, Seq<T>)> {
    let referenced = entries_where(group, directories, true);
    let normal = entries_where(group, directories, false);
    if normal.len() == 0 || referenced.len() == 0 {
        None
    } else {
        Some((referenced.last(), normal))
    }
}

/// What is kept of a list of groups, group by group.
pub open spec fn reference_splits<T: ResultEntry>(
    groups: Seq<Vec<T>>,
    directories: &Directories,
) -> Seq<(T, Seq<T>)>
    decreases groups.len(),
{
    if groups.len() == 0 {
        Seq::empty()
    } else {
        let before = reference_splits(groups.drop_last(), directories);
        match reference_split(groups.last()@, directories) {
            Some(kept) => before.push(kept),
            None => before,
        }
    }
}

/// The pairs of a list with their second parts as sequences.
pub open spec fn pairs_of<T>(list: Seq<(T, Vec<T>)>) -> Seq<(T, Seq<T>)> {
    Seq::new(list.len(), |i: int| (list[i].0, list[i].1@))
}

/// Splits each group into the file to keep and the files to compare with
/// it.
///
/// The file to keep is the last entry of the group that lies in a
/// reference directory, the others are the entries that lie elsewhere. A
/// group without either is dropped.
pub fn filter_reference_folders_generic<T>(
    entries_to_check: Vec<Vec<T>>,
    directories: &Directories,
) -> (r: Vec<(T, Vec<T>)>) where T: ResultEntry
    ensures
        pairs_of(r@) == reference_splits(entries_to_check@, directories),
{
    let mut r: Vec<(T, Vec<T>)> = Vec::new();
    assert(pairs_of(r@) =~= Seq::<(T, Seq<T>)>::empty());
    for vec_file_entry in groups: entries_to_check
        invariant
            groups.seq() == entries_to_check@,
            pairs_of(r@) == reference_splits(
                entries_to_check@.take(groups.index() as int),
                directories,
            ),
    {
        let ghost group = vec_file_entry@;
        let mut files_from_referenced_folders: Vec<T> = Vec::new();
        let mut normal_files: Vec<T> = Vec::new();
        for e in it: vec_file_entry
            invariant
                it.seq() == group,
                files_from_referenced_folders@ == entries_where(
                    group.take(it.index() as int),
                    directories,
                    true,
                ),
                normal_files@ == entries_where(group.take(it.index() as int), directories, false),
        {
            assert(group.take(it.index() + 1).drop_last() =~= group.take(it.index() as int));
            if directories.is_in_referenced_directory(e.get_path()) {
                files_from_referenced_folders.push(e);
            } else {
                normal_files.push(e);
            }
        }
        proof {
            assert(group.take(group.len() as int) =~= group);
            assert(entries_to_check@.take(groups.index() + 1).drop_last()
                =~= entries_to_check@.take(groups.index() as int));
        }
        let ghost before = pairs_of(r@);
        if normal_files.len() > 0 {
            match files_from_referenced_folders.pop() {
                Some(file) => {
                    r.push((file, normal_files));
                    assert(pairs_of(r@) =~= before.push((file, normal_files@)));
                },
                None => {},
            }
        }
    }
    assert(entries_to_check@.take(entries_to_check@.len() as int) =~= entries_to_check@);
    r
}

/// The text of a directory's path joined with a name, as
/// `std::path::Path::join` gives it for the path syntax of the platform.
pub uninterp spec fn joined_path(dir: Seq<char>, name: Seq<char>) -> Seq<char>;

/// Joins the path with this text and a name by `std::path::Path::join`
/// and gives the result's text. The contract only names the result.
#[verifier::external_body]
fn join_path(dir: &str, name: &str) -> (r: String)
    ensures
        r@ == joined_path(dir@, name@),
{
    std::path::Path::new(dir).join(name).to_string_lossy().into_owned()
}

/// How far the replacement of a file by a hard link has come.
#[derive(Debug)]
pub enum HardLinkStage {
    /// The file is to be moved out of the way, to its temporary name.
    RenameToTemp,
    /// The link is to be made where the file was.
    CreateLink,
    /// The link could not be made, for the reason given, and the file is to
    /// be moved back.
    RenameBack(String),
    /// The link stands, and the file under its temporary name is to be
    /// removed.
    RemoveTemp,
}

/// The replacement of a file by a hard link to another, under way.
///
/// The file is never missing for good: it is moved aside before the link
/// is made, moved back where the link cannot be made, and removed only
/// once the link stands.
#[derive(Debug)]
pub struct HardLink {
    /// The file that the link will point to.
    pub src: String,
    /// The file that the link replaces.
    pub dst: String,
    /// The name under which `dst` waits meanwhile, in the same directory.
    pub temp: String,
    /// What is to be done next.
    pub stage: HardLinkStage,
}

/// One step on the file system.
#[derive(Debug)]
pub enum HardLinkAction {
    /// Rename `from` to `to`.
    Rename { from: String, to: String },
    /// Make a hard link at `link` to `target`.
    Link { target: String, link: String },
    /// Remove the file.
    RemoveFile(String),
}

/// Where a replacement stands after a step.
#[derive(Debug)]
pub enum HardLinkProgress {
    /// Another step is to be taken.
    Continue(HardLink),
    /// The replacement is over, with this result.
    Done(Result<(), String>),
}

/// What is known after the step of a stage went as `outcome` says: the
/// next stage, or the result.
///
/// A file that cannot be moved aside leaves everything as it was, and the
/// failure is the result. A link that cannot be made leads to moving the
/// file back; once that is done the failure of the link is the result,
/// and where that fails too, the failure to move back. When the link
/// stands the file moved aside is removed, and a failure there is the
/// result, though the link was made.
pub open spec fn stage_after(stage: HardLinkStage, outcome: Result<(), String>) -> Result<
    HardLinkStage,
    Result<(), String>,
> {
    match (stage, outcome) {
        (HardLinkStage::RenameToTemp, Ok(_)) => Ok(HardLinkStage::CreateLink),
        (HardLinkStage::RenameToTemp, Err(reason)) => Err(Err(reason)),
        (HardLinkStage::CreateLink, Ok(_)) => Ok(HardLinkStage::RemoveTemp),
        (HardLinkStage::CreateLink, Err(reason)) => Ok(HardLinkStage::RenameBack(reason)),
        (HardLinkStage::RenameBack(link_failure), Ok(_)) => Err(Err(link_failure)),
        (HardLinkStage::RenameBack(_), Err(reason)) => Err(Err(reason)),
        (HardLinkStage::RemoveTemp, Ok(_)) => Err(Ok(())),
        (HardLinkStage::RemoveTemp, Err(reason)) => Err(Err(reason)),
    }
}

/// A file that cannot be moved aside ends the replacement at once, with
/// that failure: no step was taken that changed anything.
pub proof fn lemma_failed_rename_ends_at_once(reason: String)
    ensures
        stage_after(HardLinkStage::RenameToTemp, Err(reason)) == Err::<
            HardLinkStage,
            Result<(), String>,
        >(Err(reason)),
{
}

/// A replacement succeeds only by removing the file moved aside, which is
/// tried only once the link stands.
pub proof fn lemma_success_needs_link_and_cleanup(stage: HardLinkStage, outcome: Result<(), String>)
    ensures
        stage_after(stage, outcome) == Err::<HardLinkStage, Result<(), String>>(Ok(())) <==> stage
            == HardLinkStage::RemoveTemp && outcome is Ok,
        stage_after(stage, outcome) == Ok::<HardLinkStage, Result<(), String>>(
            HardLinkStage::RemoveTemp,
        ) <==> stage == HardLinkStage::CreateLink && outcome is Ok,
{
}

/// A link that cannot be made never ends in success: the file is moved
/// back, and the failure of the link, or that of moving back, is the
/// result.
pub proof fn lemma_failed_link_is_reported(link_failure: String, moved_back: Result<(), String>)
    ensures
        stage_after(HardLinkStage::CreateLink, Err(link_failure)) == Ok::<
            HardLinkStage,
            Result<(), String>,
        >(HardLinkStage::RenameBack(link_failure)),
        stage_after(HardLinkStage::RenameBack(link_failure), moved_back) == Err::<
            HardLinkStage,
            Result<(), String>,
        >(
            Err(
                match moved_back {
                    Ok(_) => link_failure,
                    Err(reason) => reason,
                },
            ),
        ),
{
}

impl HardLink {
    /// The step that the stage asks for.
    pub open spec fn step(&self) -> HardLinkAction {
        match self.stage {
            HardLinkStage::RenameToTemp => HardLinkAction::Rename { from: self.dst, to: self.temp },
            HardLinkStage::CreateLink => HardLinkAction::Link { target: self.src, link: self.dst },
            HardLinkStage::RenameBack(_) => HardLinkAction::Rename {
                from: self.temp,
                to: self.dst,
            },
            HardLinkStage::RemoveTemp => HardLinkAction::RemoveFile(self.temp),
        }
    }

    /// The step to take on the file system now.
    pub fn action(&self) -> (r: HardLinkAction)
        ensures
            r == self.step(),
    {
        match &self.stage {
            HardLinkStage::RenameToTemp => HardLinkAction::Rename {
                from: self.dst.clone(),
                to: self.temp.clone(),
            },
            HardLinkStage::CreateLink => HardLinkAction::Link {
                target: self.src.clone(),
                link: self.dst.clone(),
            },
            HardLinkStage::RenameBack(_) => HardLinkAction::Rename {
                from: self.temp.clone(),
                to: self.dst.clone(),
            },
            HardLinkStage::RemoveTemp => HardLinkAction::RemoveFile(self.temp.clone()),
        }
    }

    /// Takes in how the step went, and says what follows.
    pub fn advance(self, outcome: Result<(), String>) -> (r: HardLinkProgress)
        ensures
            match stage_after(self.stage, outcome) {
                Ok(stage) => r == HardLinkProgress::Continue(HardLink { stage, ..self }),
                Err(result) => r == HardLinkProgress::Done(result),
            },
    {
        let HardLink { src, dst, temp, stage } = self;
        match (stage, outcome) {
            (HardLinkStage::RenameToTemp, Ok(_)) => HardLinkProgress::Continue(
                HardLink { src, dst, temp, stage: HardLinkStage::CreateLink },
            ),
            (HardLinkStage::RenameToTemp, Err(reason)) => HardLinkProgress::Done(Err(reason)),
            (HardLinkStage::CreateLink, Ok(_)) => HardLinkProgress::Continue(
                HardLink { src, dst, temp, stage: HardLinkStage::RemoveTemp },
            ),
            (HardLinkStage::CreateLink, Err(reason)) => HardLinkProgress::Continue(
                HardLink { src, dst, temp, stage: HardLinkStage::RenameBack(reason) },
            ),
            (HardLinkStage::RenameBack(link_failure), Ok(_)) => HardLinkProgress::Done(
                Err(link_failure),
            ),
            (HardLinkStage::RenameBack(_), Err(reason)) => HardLinkProgress::Done(Err(reason)),
            (HardLinkStage::RemoveTemp, Ok(_)) => HardLinkProgress::Done(Ok(())),
            (HardLinkStage::RemoveTemp, Err(reason)) => HardLinkProgress::Done(Err(reason)),
        }
    }
}

/// Begins the replacement of `dst` by a hard link to `src`, from the
/// directory that `dst` lies in: without one there is nothing to do but
/// fail; with one the temporary name lies in it, and moving `dst` there is
/// the first step.
pub fn hard_link_in(src: &str, dst: &str, dst_dir: Option<String>) -> (r: Result<HardLink, String>)
    ensures
        match dst_dir {
            Some(dir) => r is Ok && r->Ok_0.src@ == src@ && r->Ok_0.dst@ == dst@ && r->Ok_0.temp@
                == joined_path(dir@, TEMP_HARDLINK_FILE@) && r->Ok_0.stage
                == HardLinkStage::RenameToTemp,
            None => r is Err && r->Err_0@ == "No parent"@,
        },
{
    match dst_dir {
        Some(dir) => Ok(
            HardLink {
                src: String::from_str(src),
                dst: String::from_str(dst),
                temp: join_path(dir.as_str(), TEMP_HARDLINK_FILE),
                stage: HardLinkStage::RenameToTemp,
            },
        ),
        None => Err(String::from_str("No parent")),
    }
}

/// Begins the replacement of `dst` by a hard link to `src`.
///
/// `dst` has to lie in a directory. The steps that follow are the
/// caller's to take, one by one, as [`HardLink::action`] names them.
pub fn make_hard_link(src: &str, dst: &str) -> (r: Result<HardLink, String>)
    ensures
        match parent_of(dst@) {
            Some(dir) => r is Ok && r->Ok_0.src@ == src@ && r->Ok_0.dst@ == dst@ && r->Ok_0.temp@
                == joined_path(dir, TEMP_HARDLINK_FILE@) && r->Ok_0.stage
                == HardLinkStage::RenameToTemp,
            None => r is Err && r->Err_0@ == "No parent"@,
        },
{
    hard_link_in(src, dst, path_parent(dst))
}

/// A text with every `from` in it replaced by `to`, the first from the
/// left first and none of them overlapping another.
pub open spec fn replaced(text: Seq<char>, from: Seq<char>, to: Seq<char>) -> Seq<char>
    decreases text.len(),
{
    if from.len() == 0 || text.len() < from.len() {
        text
    } else if text.take(from.len() as int) == from {
        to + replaced(text.skip(from.len() as int), from, to)
    } else {
        seq![text[0]] + replaced(text.skip(1), from, to)
    }
}

/// The name of the JSON file that goes with a cache file: the same name
/// with `.json` for every `.bin`.
pub open spec fn json_name(cache_file_name: Seq<char>) -> Seq<char> {
    replaced(cache_file_name, ".bin"@, ".json"@)
}

/// Tells whether `from` stands in `text` at `at`.
fn stands_at(text: &Vec<char>, from: &Vec<char>, at: usize) -> (r: bool)
    requires
        at <= text@.len(),
    ensures
        r == (text@.skip(at as int).len() >= from@.len() && text@.skip(at as int).take(
            from@.len() as int,
        ) == from@),
{
    if from.len() > text.len() - at {
        return false;
    }
    let mut j: usize = 0;
    while j < from.len()
        invariant
            j <= from.len(),
            at + from.len() <= text.len(),
            forall|k: int| 0 <= k < j ==> text@[at + k] == from@[k],
        decreases from.len() - j,
    {
        if text[at + j] != from[j] {
            assert(text@.skip(at as int).take(from@.len() as int)[j as int] != from@[j as int]);
            return false;
        }
        j += 1;
    }
    assert(text@.skip(at as int).take(from@.len() as int) =~= from@);
    true
}

/// Replaces every `from` in `text` by `to`.
fn replace_text(text: &str, from: &str, to: &str) -> (r: String)
    requires
        from@.len() > 0,
    ensures
        r@ == replaced(text@, from@, to@),
{
    let chars = chars_of(text);
    let pattern = chars_of(from);
    let mut r = String::new();
    let mut i: usize = 0;
    proof {
        assert(chars@.skip(0) =~= text@);
        assert(r@ + replaced(text@, from@, to@) =~= replaced(text@, from@, to@));
    }
    while i < chars.len()
        invariant
            i <= chars.len(),
            chars@ == text@,
            pattern@ == from@,
            from@.len() > 0,
            r@ + replaced(chars@.skip(i as int), from@, to@) == replaced(text@, from@, to@),
        decreases chars.len() - i,
    {
        let ghost rest = chars@.skip(i as int);
        let ghost before = r@;
        if stands_at(&chars, &pattern, i) {
            r.append(to);
            i += pattern.len();
            proof {
                assert(rest.skip(from@.len() as int) =~= chars@.skip(i as int));
                assert(r@ + replaced(chars@.skip(i as int), from@, to@) =~= before + (to@
                    + replaced(rest.skip(from@.len() as int), from@, to@)));
            }
        } else {
            r.push(chars[i]);
            i += 1;
            proof {
                if rest.len() < from@.len() {
                    // Nothing can stand in what is left, which is kept as it is.
                    lemma_short_text_is_kept(rest, from@, to@);
                    lemma_short_text_is_kept(rest.skip(1), from@, to@);
                    assert(seq![rest[0]] + rest.skip(1) =~= rest);
                }
                assert(rest.skip(1) =~= chars@.skip(i as int));
                assert(r@ + replaced(chars@.skip(i as int), from@, to@) =~= before + (seq![rest[0]]
                    + replaced(rest.skip(1), from@, to@)));
            }
        }
    }
    proof {
        assert(chars@.skip(i as int).len() == 0);
        assert(r@ + replaced(chars@.skip(i as int), from@, to@) =~= r@);
    }
    r
}

/// A text shorter than what is looked for stays as it is.
proof fn lemma_short_text_is_kept(text: Seq<char>, from: Seq<char>, to: Seq<char>)
    requires
        text.len() < from.len(),
    ensures
        replaced(text, from, to) == text,
{
}

/// The names of the two files of a cache.
#[derive(Debug)]
pub struct CacheFileNames {
    /// The file in the compact form.
    pub cache_file: String,
    /// The file in the JSON form.
    pub cache_file_json: String,
}

/// The names of the two files of a cache in the cache folder.
pub fn cache_file_names(cache_dir: &str, cache_file_name: &str) -> (r: CacheFileNames)
    ensures
        r.cache_file@ == joined_path(cache_dir@, cache_file_name@),
        r.cache_file_json@ == joined_path(cache_dir@, json_name(cache_file_name@)),
{
    proof {
        reveal_strlit(".bin");
    }
    let json = replace_text(cache_file_name, ".bin", ".json");
    CacheFileNames {
        cache_file: join_path(cache_dir, cache_file_name),
        cache_file_json: join_path(cache_dir, json.as_str()),
    }
}

/// The JSON file is opened too: it was asked for, and the compact file
/// could be opened for saving, or could not be opened for loading.
pub open spec fn json_is_tried(save_to_cache: bool, use_json: bool, default_opened: bool) -> bool {
    use_json && save_to_cache == default_opened
}

/// Tells whether the JSON file is to be opened after the compact one.
pub fn json_file_is_tried(save_to_cache: bool, use_json: bool, default_opened: bool) -> (r: bool)
    ensures
        r == json_is_tried(save_to_cache, use_json, default_opened),
{
    use_json && save_to_cache == default_opened
}

/// The warning for a cache file that could not be made.
pub open spec fn cannot_open_cache_file(file: Seq<char>, reason: Seq<char>) -> Seq<char> {
    "Cannot create or open cache file \""@ + file + "\", reason "@ + reason
}

/// Which of the files of a cache are open: the compact one, the JSON one;
/// nothing where the cache cannot be used.
///
/// For saving, the compact file has to be open, and the JSON file too
/// where it was asked for. For loading, the compact file is enough, and
/// the JSON file is the fallback.
pub open spec fn cache_files_open(
    save_to_cache: bool,
    use_json: bool,
    default_opened: bool,
    json_opened: bool,
) -> Option<(bool, bool)> {
    if save_to_cache {
        if !default_opened {
            None
        } else if !use_json {
            Some((true, false))
        } else if json_opened {
            Some((true, true))
        } else {
            None
        }
    } else if default_opened {
        Some((true, false))
    } else if use_json && json_opened {
        Some((false, true))
    } else {
        None
    }
}

/// The warnings of opening the files of a cache: for saving, one for the
/// first file that could not be made; for loading, none.
pub open spec fn cache_open_warnings(
    names: &CacheFileNames,
    save_to_cache: bool,
    use_json: bool,
    default_opened: Result<(), String>,
    json_opened: Result<(), String>,
) -> Seq<Seq<char>> {
    if !save_to_cache {
        Seq::empty()
    } else {
        match default_opened {
            Err(reason) => seq![cannot_open_cache_file(names.cache_file@, reason@)],
            Ok(_) => match json_opened {
                Err(reason) => if use_json {
                    seq![cannot_open_cache_file(names.cache_file_json@, reason@)]
                } else {
                    Seq::empty()
                },
                Ok(_) => Seq::empty(),
            },
        }
    }
}

/// Settles which files of a cache are used, from how opening them went.
///
/// `json_opened` is looked at only where the JSON file is tried, as
/// [`json_file_is_tried`] says.
pub fn open_cache_folder(
    names: &CacheFileNames,
    save_to_cache: bool,
    use_json: bool,
    default_opened: Result<(), String>,
    json_opened: Result<(), String>,
    warnings: &mut Vec<String>,
) -> (r: Option<(bool, bool)>)
    ensures
        r == cache_files_open(save_to_cache, use_json, default_opened is Ok, json_opened is Ok),
        texts(final(warnings)@) == texts(old(warnings)@) + cache_open_warnings(
            names,
            save_to_cache,
            use_json,
            default_opened,
            json_opened,
        ),
{
    let ghost warned = texts(warnings@);
    assert(warned + Seq::<Seq<char>>::empty() =~= warned);
    if save_to_cache {
        if let Err(reason) = &default_opened {
            push_text(
                warnings,
                String::from_str("Cannot create or open cache file \"").concat(
                    names.cache_file.as_str(),
                ).concat("\", reason ").concat(reason.as_str()),
            );
            assert(texts(warnings@) =~= warned + seq![
                cannot_open_cache_file(names.cache_file@, reason@),
            ]);
            return None;
        }
        if !use_json {
            return Some((true, false));
        }
        if let Err(reason) = &json_opened {
            push_text(
                warnings,
                String::from_str("Cannot create or open cache file \"").concat(
                    names.cache_file_json.as_str(),
                ).concat("\", reason ").concat(reason.as_str()),
            );
            assert(texts(warnings@) =~= warned + seq![
                cannot_open_cache_file(names.cache_file_json@, reason@),
            ]);
            return None;
        }
        Some((true, true))
    } else if default_opened.is_ok() {
        Some((true, false))
    } else if use_json && json_opened.is_ok() {
        Some((false, true))
    } else {
        None
    }
}

} // verus!
