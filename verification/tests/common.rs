use std::cmp::Ordering;
use std::sync::atomic::AtomicBool;
use std::sync::atomic::AtomicUsize;
use std::sync::Arc;

use czkawka_core::common::cache_file_names;
use czkawka_core::common::check_folder_children;
use czkawka_core::common::check_if_folder_contains_only_empty_folders;
use czkawka_core::common::check_if_stop_received;
use czkawka_core::common::count_checked_items;
use czkawka_core::common::create_crash_message;
use czkawka_core::common::env_flag_is_set;
use czkawka_core::common::filter_reference_folders_generic;
use czkawka_core::common::filtering_messages;
use czkawka_core::common::folder_creation_warning;
use czkawka_core::common::folder_removal_result;
use czkawka_core::common::get_all_available_threads;
use czkawka_core::common::get_config_cache_path;
use czkawka_core::common::get_number_of_threads;
use czkawka_core::common::hard_link_in;
use czkawka_core::common::json_file_is_tried;
use czkawka_core::common::make_hard_link;
use czkawka_core::common::normalize_windows_path;
use czkawka_core::common::open_cache_folder;
use czkawka_core::common::order_by_both;
use czkawka_core::common::pair_folders;
use czkawka_core::common::pool_workers;
use czkawka_core::common::print_infos_and_warnings;
use czkawka_core::common::remove_folder_if_contains_only_empty_folders;
use czkawka_core::common::resolve_folder;
use czkawka_core::common::set_config_cache_path;
use czkawka_core::common::set_number_of_threads;
use czkawka_core::common::split_path;
use czkawka_core::common::split_path_compare;
use czkawka_core::common::split_path_parts;
use czkawka_core::common::terminal_logging_enabled;
use czkawka_core::common::thread_settings_from;
use czkawka_core::common::ConfigCachePath;
use czkawka_core::common::CoreContext;
use czkawka_core::common::DirectoryListing;
use czkawka_core::common::EntryInspection;
use czkawka_core::common::FolderKind;
use czkawka_core::common::FolderRemoval;
use czkawka_core::common::FolderProbe;
use czkawka_core::common::HardLinkAction;
use czkawka_core::common::HardLinkProgress;
use czkawka_core::common::LogLevel;
use czkawka_core::common::LogLine;
use czkawka_core::common::WorkContinueStatus;
use czkawka_core::common::DEFAULT_THREAD_SIZE;
use czkawka_core::common::DEFAULT_WORKER_THREAD_SIZE;
use czkawka_core::common::LOOP_DURATION;
use czkawka_core::common::SEND_PROGRESS_DATA_TIME_BETWEEN;
use czkawka_core::common::TEMP_HARDLINK_FILE;
use czkawka_core::common_dir_traversal::DirEntryData;
use czkawka_core::common_dir_traversal::FileEntry;
use czkawka_core::common_dir_traversal::FileTypeFlags;
use czkawka_core::common_directory::Directories;
use czkawka_core::common_items::ExcludedItems;

#[test]
fn test_windows_path() {
    assert_eq!("C:\\path.txt", normalize_windows_path("c:/PATH.tXt"));
    assert_eq!("H:\\reka\\weza\\roman.txt", normalize_windows_path("h:/RekA/Weza\\roMan.Txt"));
    assert_eq!("T:\\a", normalize_windows_path("T:\\A"));
    assert_eq!("\\\\aBBa", normalize_windows_path("\\\\aBBa"));
    assert_eq!("a", normalize_windows_path("a"));
    assert_eq!("", normalize_windows_path(""));
}

#[test]
fn windows_path_edge_cases() {
    // Only letters of ASCII change, and a path that starts outside ASCII stays.
    assert_eq!("c\\Äbc", normalize_windows_path("C/ÄBc"));
    assert_eq!("ÄB/c", normalize_windows_path("ÄB/c"));
    assert_eq!("Z:", normalize_windows_path("Z:"));
    assert_eq!("Z:", normalize_windows_path("z:"));
    assert_eq!("\\:", normalize_windows_path("/:"));
    assert_eq!("\\a", normalize_windows_path("\\a"));
    assert_eq!("1:\\x", normalize_windows_path("1:/X"));
}

#[test]
fn constants_have_their_values() {
    assert_eq!(DEFAULT_THREAD_SIZE, 8 * 1024 * 1024);
    assert_eq!(DEFAULT_WORKER_THREAD_SIZE, 4 * 1024 * 1024);
    assert_eq!(LOOP_DURATION, 20);
    assert_eq!(SEND_PROGRESS_DATA_TIME_BETWEEN, 200);
    assert_eq!(TEMP_HARDLINK_FILE, "rzeczek.rxrxrxl");
}

#[test]
fn crash_message_names_library_file_and_url() {
    assert_eq!(
        create_crash_message("Image", "/a/b.png", "https://example.org/issues"),
        "Image library crashed when opening \"/a/b.png\", please check if this is fixed with the latest version of Image and if it is not fixed, please report bug here - https://example.org/issues"
    );
}

#[test]
fn messages_are_filtered_by_module() {
    assert!(filtering_messages(None));
    assert!(filtering_messages(Some("czkawka_core::common")));
    assert!(filtering_messages(Some("krokiet")));
    assert!(filtering_messages(Some("log_panics::inner")));
    assert!(!filtering_messages(Some("rayon_core::registry")));
    assert!(!filtering_messages(Some("")));
    assert!(!filtering_messages(Some("czkawk")));
    assert!(!filtering_messages(Some("my::czkawka")));
}

#[test]
fn infos_come_before_warnings() {
    let lines = print_infos_and_warnings(vec!["i1".to_string(), "i2".to_string()], vec!["w1".to_string()]);
    assert_eq!(
        lines,
        vec![
            LogLine { level: LogLevel::Info, text: "i1".to_string() },
            LogLine { level: LogLevel::Info, text: "i2".to_string() },
            LogLine { level: LogLevel::Warn, text: "w1".to_string() },
        ]
    );
    assert!(print_infos_and_warnings(vec![], vec![]).is_empty());
}

#[test]
fn stop_flag_is_read() {
    let flag = Arc::new(AtomicBool::new(false));
    assert!(!check_if_stop_received(&flag));
    flag.store(true, std::sync::atomic::Ordering::Relaxed);
    assert!(check_if_stop_received(&flag));
}

#[test]
fn checked_items_are_added() {
    let counter = Arc::new(AtomicUsize::new(2));
    count_checked_items(&counter, 5);
    assert_eq!(counter.load(std::sync::atomic::Ordering::Relaxed), 7);
}

#[test]
fn available_threads_are_never_zero() {
    assert_eq!(get_all_available_threads(None), 1);
    assert_eq!(get_all_available_threads(Some(0)), 1);
    assert_eq!(get_all_available_threads(Some(1)), 1);
    assert_eq!(get_all_available_threads(Some(16)), 16);
}

fn context_with_threads(thread_number: usize, available_parallelism: Option<usize>) -> CoreContext {
    let mut context = CoreContext::new();
    assert!(context.store_threads(thread_settings_from(thread_number, available_parallelism, Ok(())).expect("built")));
    context
}

#[test]
fn thread_settings_resolve_zero_to_all() {
    assert_eq!(get_number_of_threads(&context_with_threads(0, Some(12))), 12);
    assert_eq!(get_number_of_threads(&context_with_threads(3, Some(12))), 3);
    assert_eq!(get_number_of_threads(&context_with_threads(0, None)), 1);
    assert_eq!(pool_workers(0, Some(12)), 12);
    assert_eq!(pool_workers(3, Some(12)), 3);
    assert_eq!(pool_workers(0, None), 1);
    assert_eq!(pool_workers(0, Some(0)), 1);
    let failure = thread_settings_from(3, Some(12), Err("taken".to_string())).expect_err("not built");
    assert_eq!(failure.reason, "taken");
}

#[test]
fn global_pool_is_built_once() {
    let settings = set_number_of_threads(3, Some(8)).expect("the first pool of the process can be built");
    assert_eq!(rayon::current_num_threads(), 3);
    let mut context = CoreContext::new();
    assert!(context.store_threads(settings));
    assert_eq!(get_number_of_threads(&context), 3);
    // A second pool cannot be built, and the failure says why.
    let failure = set_number_of_threads(5, Some(8)).expect_err("the pool was built before");
    assert!(!failure.reason.is_empty());
    assert_eq!(rayon::current_num_threads(), 3);
}

#[test]
fn config_cache_path_is_handed_out() {
    let path = ConfigCachePath { config_folder: "/cfg".to_string(), cache_folder: "/cache".to_string() };
    // The folders can be settled before any thread settings are.
    let mut context = CoreContext::new();
    assert!(!context.has_config_cache_path());
    assert!(!context.has_threads());
    assert!(context.store_config_cache_path(Some(path)));
    assert!(context.has_config_cache_path());
    assert!(!context.has_threads());
    let got = get_config_cache_path(&context).expect("set");
    assert_eq!(got.config_folder, "/cfg");
    assert_eq!(got.cache_folder, "/cache");
    // What was stored first stays.
    assert!(!context.store_config_cache_path(None));
    assert!(get_config_cache_path(&context).is_some());
    assert!(context.store_threads(thread_settings_from(2, Some(8), Ok(())).expect("built")));
    assert!(!context.store_threads(thread_settings_from(5, Some(8), Ok(())).expect("built")));
    assert_eq!(get_number_of_threads(&context), 2);
    assert!(get_config_cache_path(&context).is_some());

    let mut empty = CoreContext::new();
    assert!(empty.store_config_cache_path(None));
    assert!(get_config_cache_path(&empty).is_none());
}

#[test]
fn folder_from_environment_or_default() {
    let mut warnings = vec![];
    // Nothing named: the default, whatever the probe.
    assert_eq!(resolve_folder("", Some("/d".to_string()), FolderKind::Config, FolderProbe::Missing, &mut warnings), Some("/d".to_string()));
    assert_eq!(resolve_folder("", None, FolderKind::Cache, FolderProbe::NotCanonical, &mut warnings), None);
    assert!(warnings.is_empty());
    assert_eq!(
        resolve_folder("/e", Some("/d".to_string()), FolderKind::Config, FolderProbe::Canonical("/real/e".to_string()), &mut warnings),
        Some("/real/e".to_string())
    );
    assert!(warnings.is_empty());
    assert_eq!(resolve_folder("/e", Some("/d".to_string()), FolderKind::Config, FolderProbe::Missing, &mut warnings), Some("/d".to_string()));
    assert_eq!(resolve_folder("/e", None, FolderKind::Cache, FolderProbe::NotDirectory, &mut warnings), None);
    assert_eq!(resolve_folder("/e", Some("/d".to_string()), FolderKind::Cache, FolderProbe::NotCanonical, &mut warnings), Some("/d".to_string()));
    assert_eq!(
        warnings,
        vec![
            "Config folder \"/e\" does not exist, using default folder \"/d\"".to_string(),
            "Cache folder \"/e\" is not a directory, using default folder \"<not available>\"".to_string(),
            "Cannot canonicalize cache folder \"/e\", using default folder \"/d\"".to_string(),
        ]
    );
}

#[test]
fn config_and_cache_are_set_together() {
    assert!(pair_folders(Some("/cfg".to_string()), None).is_none());
    assert!(pair_folders(None, Some("/cache".to_string())).is_none());
    assert!(pair_folders(None, None).is_none());
    let paths = pair_folders(Some("/cfg".to_string()), Some("/cache".to_string()));
    assert_eq!(paths.as_ref().map(|p| p.config_folder.as_str()), Some("/cfg"));
    assert_eq!(paths.as_ref().map(|p| p.cache_folder.as_str()), Some("/cache"));

    let (infos, warnings) = set_config_cache_path(&paths, None, None, vec!["before".to_string()]);
    assert_eq!(infos, vec!["Config folder set to \"/cfg\" and cache folder set to \"/cache\"".to_string()]);
    assert_eq!(warnings, vec!["before".to_string()]);

    let (infos, warnings) = set_config_cache_path(&paths, Some("denied".to_string()), Some("full".to_string()), vec![]);
    assert_eq!(infos.len(), 1);
    assert_eq!(
        warnings,
        vec!["Cannot create config folder \"/cfg\", reason denied".to_string(), "Cannot create cache folder \"/cache\", reason full".to_string()]
    );

    let (infos, warnings) = set_config_cache_path(&None, Some("ignored".to_string()), None, vec!["before".to_string()]);
    assert!(infos.is_empty());
    assert_eq!(warnings, vec!["before".to_string(), "Cannot set config/cache path - config and cache will not be used.".to_string()]);
    assert_eq!(folder_creation_warning(FolderKind::Cache, "/c", "why"), "Cannot create cache folder \"/c\", reason why");
}

#[test]
fn path_is_split_into_dir_and_name() {
    assert_eq!(split_path("/home/rafal/file.txt"), ("/home/rafal".to_string(), "file.txt".to_string()));
    assert_eq!(split_path("file.txt"), ("".to_string(), "file.txt".to_string()));
    assert_eq!(split_path("/home/.."), ("/home".to_string(), "".to_string()));
    assert_eq!(split_path("/"), ("".to_string(), "".to_string()));
    assert_eq!(split_path(""), ("".to_string(), "".to_string()));
    assert_eq!(split_path_parts(Some("d".to_string()), Some("f".to_string())), ("d".to_string(), "f".to_string()));
    assert_eq!(split_path_parts(Some("d".to_string()), None), ("d".to_string(), "".to_string()));
    assert_eq!(split_path_parts(None, Some("f".to_string())), ("".to_string(), "".to_string()));
    assert_eq!(split_path_parts(None, None), ("".to_string(), "".to_string()));
}

#[test]
fn paths_compare_by_parent_then_name() {
    assert_eq!(split_path_compare("/a/x", "/a/x"), Ordering::Equal);
    assert_eq!(split_path_compare("/a/x", "/a/y"), Ordering::Less);
    assert_eq!(split_path_compare("/a/y", "/a/x"), Ordering::Greater);
    // The parent decides before the name does.
    assert_eq!(split_path_compare("/a/z", "/b/a"), Ordering::Less);
    assert_eq!(split_path_compare("/b/a", "/a/z"), Ordering::Greater);
    // Plain text would put "/a-b/x" before "/a/c/x"; the components of the parents say otherwise.
    assert_eq!(split_path_compare("/a/c/x", "/a-b/x"), Ordering::Less);
    assert_eq!(split_path_compare("/", "/a"), Ordering::Less);
    assert_eq!(order_by_both(Ordering::Equal, Ordering::Greater), Ordering::Greater);
    assert_eq!(order_by_both(Ordering::Less, Ordering::Greater), Ordering::Less);
    assert_eq!(order_by_both(Ordering::Greater, Ordering::Less), Ordering::Greater);
    assert_eq!(order_by_both(Ordering::Equal, Ordering::Equal), Ordering::Equal);
}

#[test]
fn folder_with_only_empty_folders_passes() {
    let listing = |paths: &[&str]| DirectoryListing::Entries(paths.iter().map(|path| Some(path.to_string())).collect());
    let mut check = check_if_folder_contains_only_empty_folders("/top", true, listing(&["/top/a", "/top/b"])).expect("readable");
    assert_eq!(check.next_entry(), Some("/top/b".to_string()));
    assert_eq!(check.record("/top/b", EntryInspection::Directory(listing(&["/top/b/c"]))), Ok(()));
    assert_eq!(check.next_entry(), Some("/top/b/c".to_string()));
    assert_eq!(check.record("/top/b/c", EntryInspection::Directory(listing(&[]))), Ok(()));
    assert_eq!(check.next_entry(), Some("/top/a".to_string()));
    assert_eq!(check.record("/top/a", EntryInspection::Directory(listing(&[]))), Ok(()));
    assert_eq!(check.next_entry(), None);
    assert_eq!(check.next_entry(), None);
}

#[test]
fn folder_check_objections() {
    let entries = |paths: Vec<Option<&str>>| DirectoryListing::Entries(paths.into_iter().map(|path| path.map(|p| p.to_string())).collect());
    assert_eq!(
        check_if_folder_contains_only_empty_folders("/f", false, entries(vec![])).expect_err("a file"),
        "Trying to remove folder \"/f\" which is not a directory"
    );
    assert_eq!(check_if_folder_contains_only_empty_folders("/f", true, DirectoryListing::Unreadable).expect_err("unreadable"), "Cannot read directory \"/f\"");
    assert_eq!(
        check_if_folder_contains_only_empty_folders("/f", true, entries(vec![Some("/f/a"), None])).expect_err("bad entry"),
        "Cannot read entry from directory \"/f\""
    );
    let mut check = check_if_folder_contains_only_empty_folders("/f", true, entries(vec![Some("/f/a")])).expect("readable");
    assert_eq!(check.record("/f/a", EntryInspection::UnknownType), Err("Folder contains file with unknown type \"/f/a\" inside \"/f\"".to_string()));
    assert_eq!(check.record("/f/a", EntryInspection::NotDirectory), Err("Folder contains file \"/f/a\" inside \"/f\"".to_string()));
    assert_eq!(
        check.record("/f/a", EntryInspection::Directory(DirectoryListing::Unreadable)),
        Err("Cannot read directory \"/f/a\" inside \"/f\"".to_string())
    );
    assert_eq!(
        check.record("/f/a", EntryInspection::Directory(entries(vec![None]))),
        Err("Cannot read entry from directory \"/f/a\" inside \"/f\"".to_string())
    );
    // Objections leave what is pending as it was.
    assert_eq!(check.next_entry(), Some("/f/a".to_string()));
    assert_eq!(check.next_entry(), None);
}

#[test]
fn removal_failures_are_put_in_words() {
    assert_eq!(folder_removal_result("/f", FolderRemoval::ToTrash, Ok(())), Ok(()));
    assert_eq!(folder_removal_result("/f", FolderRemoval::Delete, Ok(())), Ok(()));
    assert_eq!(
        folder_removal_result("/f", FolderRemoval::ToTrash, Err("no trash".to_string())),
        Err("Cannot move folder \"/f\" to trash, reason no trash".to_string())
    );
    assert_eq!(
        folder_removal_result("/f", FolderRemoval::Delete, Err("busy".to_string())),
        Err("Cannot remove directory \"/f\", reason busy".to_string())
    );
}

#[test]
fn failed_check_removes_nothing() {
    assert_eq!(remove_folder_if_contains_only_empty_folders(Ok(()), true), Ok(FolderRemoval::ToTrash));
    assert_eq!(remove_folder_if_contains_only_empty_folders(Ok(()), false), Ok(FolderRemoval::Delete));
    let objection = "Folder contains file \"/f/file.txt\" inside \"/f\"".to_string();
    assert_eq!(remove_folder_if_contains_only_empty_folders(Err(objection.clone()), false), Err(objection.clone()));
    assert_eq!(remove_folder_if_contains_only_empty_folders(Err(objection.clone()), true), Err(objection));
}

fn dir_entry(path: &str, device: Result<u64, String>) -> DirEntryData {
    DirEntryData {
        path: path.to_string(),
        file_name: path.rsplit('/').next().unwrap_or("").to_string(),
        file_type: Some(FileTypeFlags { is_dir: true, is_symlink: false, is_file: false }),
        metadata: Err("unused".to_string()),
        device,
    }
}

#[test]
fn folder_children_are_filtered() {
    let mut directories = Directories::new();
    directories.set_excluded_directory(vec!["/r/out".to_string()]);
    directories.set_exclude_other_filesystems(true, vec![1]);
    let mut excluded_items = ExcludedItems::new();
    excluded_items.add("*/.git");
    let mut dirs = vec![];
    let mut warnings = vec![];
    check_folder_children(&mut dirs, &mut warnings, &dir_entry("/r/in", Ok(1)), true, &directories, &excluded_items);
    check_folder_children(&mut dirs, &mut warnings, &dir_entry("/r/out", Ok(1)), true, &directories, &excluded_items);
    check_folder_children(&mut dirs, &mut warnings, &dir_entry("/r/.git", Ok(1)), true, &directories, &excluded_items);
    check_folder_children(&mut dirs, &mut warnings, &dir_entry("/r/mnt", Ok(2)), true, &directories, &excluded_items);
    check_folder_children(&mut dirs, &mut warnings, &dir_entry("/r/odd", Err("gone".to_string())), true, &directories, &excluded_items);
    check_folder_children(&mut dirs, &mut warnings, &dir_entry("/r/flat", Ok(1)), false, &directories, &excluded_items);
    assert_eq!(dirs, vec!["/r/in".to_string(), "/r/odd".to_string()]);
    assert_eq!(warnings, vec!["Cannot read the device of /r/odd, reason gone".to_string()]);
}

fn fe(path: &str) -> FileEntry {
    FileEntry { path: path.to_string(), size: 1, modified_date: 1 }
}

#[test]
fn reference_folders_give_the_files_to_keep() {
    let mut directories = Directories::new();
    directories.set_reference_directory(vec!["/ref".to_string(), "/pool/".to_string()]);
    let groups = vec![
        vec![fe("/a/1"), fe("/ref/1"), fe("/b/1"), fe("/pool/1")],
        vec![fe("/ref/2"), fe("/ref/sub/2")],
        vec![fe("/a/3"), fe("/reference/3")],
        vec![],
        vec![fe("/ref"), fe("/c/4")],
    ];
    assert_eq!(
        filter_reference_folders_generic(groups, &directories),
        vec![(fe("/pool/1"), vec![fe("/a/1"), fe("/b/1")]), (fe("/ref"), vec![fe("/c/4")])]
    );
    assert!(directories.is_in_referenced_directory("/ref/x"));
    assert!(directories.is_in_referenced_directory("/ref\\x"));
    assert!(!directories.is_in_referenced_directory("/refx"));
    assert!(!directories.is_in_referenced_directory("/re"));
}

fn step(progress: HardLinkProgress) -> czkawka_core::common::HardLink {
    match progress {
        HardLinkProgress::Continue(link) => link,
        HardLinkProgress::Done(result) => panic!("over too early: {result:?}"),
    }
}

fn done(progress: HardLinkProgress) -> Result<(), String> {
    match progress {
        HardLinkProgress::Done(result) => result,
        HardLinkProgress::Continue(link) => panic!("not over: {link:?}"),
    }
}

#[test]
fn hard_link_steps_when_all_goes_well() {
    let link = make_hard_link("/d/a", "/d/b").expect("has a parent");
    assert_eq!(link.temp, "/d/rzeczek.rxrxrxl");
    assert!(matches!(link.action(), HardLinkAction::Rename { from, to } if from == "/d/b" && to == "/d/rzeczek.rxrxrxl"));
    let link = step(link.advance(Ok(())));
    assert!(matches!(link.action(), HardLinkAction::Link { target, link } if target == "/d/a" && link == "/d/b"));
    let link = step(link.advance(Ok(())));
    assert!(matches!(link.action(), HardLinkAction::RemoveFile(path) if path == "/d/rzeczek.rxrxrxl"));
    assert_eq!(done(link.advance(Ok(()))), Ok(()));
}

#[test]
fn hard_link_failures() {
    assert_eq!(make_hard_link("/d/a", "/").expect_err("no parent"), "No parent");
    assert_eq!(make_hard_link("/d/a", "").expect_err("no parent"), "No parent");
    assert_eq!(hard_link_in("/d/a", "/d/b", None).expect_err("no parent"), "No parent");

    // The file cannot be moved aside: nothing else is tried.
    let link = make_hard_link("/d/a", "/d/b").expect("has a parent");
    assert_eq!(done(link.advance(Err("missing".to_string()))), Err("missing".to_string()));

    // The link cannot be made: the file is moved back and the link's failure is the result.
    let link = step(make_hard_link("/d/a", "/d/b").expect("has a parent").advance(Ok(())));
    let link = step(link.advance(Err("no source".to_string())));
    assert!(matches!(link.action(), HardLinkAction::Rename { from, to } if from == "/d/rzeczek.rxrxrxl" && to == "/d/b"));
    assert_eq!(done(link.advance(Ok(()))), Err("no source".to_string()));

    // Moving back fails too.
    let link = step(make_hard_link("/d/a", "/d/b").expect("has a parent").advance(Ok(())));
    let link = step(link.advance(Err("no source".to_string())));
    assert_eq!(done(link.advance(Err("stuck".to_string()))), Err("stuck".to_string()));

    // The link stands but the file moved aside cannot be removed.
    let link = step(make_hard_link("/d/a", "/d/b").expect("has a parent").advance(Ok(())));
    let link = step(link.advance(Ok(())));
    assert_eq!(done(link.advance(Err("busy".to_string()))), Err("busy".to_string()));
}

#[test]
fn work_continue_status_compares() {
    assert_eq!(WorkContinueStatus::Continue, WorkContinueStatus::Continue);
    assert_ne!(WorkContinueStatus::Continue, WorkContinueStatus::Stop);
}

#[test]
fn cache_files_are_named_after_the_cache() {
    let names = cache_file_names("/cache", "cache_duplicates_Blake3_70.bin");
    assert_eq!(names.cache_file, "/cache/cache_duplicates_Blake3_70.bin");
    assert_eq!(names.cache_file_json, "/cache/cache_duplicates_Blake3_70.json");
    assert_eq!(cache_file_names("/c", "a.bin.bin").cache_file_json, "/c/a.json.json");
    assert_eq!(cache_file_names("/c", ".bi.binn.b.in").cache_file_json, "/c/.bi.jsonn.b.in");
    assert_eq!(cache_file_names("/c", "plain").cache_file_json, "/c/plain");
    assert_eq!(cache_file_names("/c", ".bin").cache_file_json, "/c/.json");
    assert_eq!(cache_file_names("/c", "bin.bi").cache_file_json, "/c/bin.bi");
}

#[test]
fn json_file_is_a_companion_or_a_fallback() {
    // Saving: beside the compact file, once that is open.
    assert!(json_file_is_tried(true, true, true));
    assert!(!json_file_is_tried(true, true, false));
    // Loading: in place of the compact file, when that cannot be opened.
    assert!(json_file_is_tried(false, true, false));
    assert!(!json_file_is_tried(false, true, true));
    for default_opened in [true, false] {
        assert!(!json_file_is_tried(true, false, default_opened));
        assert!(!json_file_is_tried(false, false, default_opened));
    }
}

#[test]
fn cache_is_used_when_its_files_open() {
    let names = cache_file_names("/c", "x.bin");
    let failed = |reason: &str| -> Result<(), String> { Err(reason.to_string()) };
    let mut warnings = vec![];
    // Saving.
    assert_eq!(open_cache_folder(&names, true, false, Ok(()), failed("unused"), &mut warnings), Some((true, false)));
    assert_eq!(open_cache_folder(&names, true, true, Ok(()), Ok(()), &mut warnings), Some((true, true)));
    assert!(warnings.is_empty());
    assert_eq!(open_cache_folder(&names, true, true, failed("read-only"), Ok(()), &mut warnings), None);
    assert_eq!(open_cache_folder(&names, true, true, Ok(()), failed("full"), &mut warnings), None);
    assert_eq!(
        warnings,
        vec!["Cannot create or open cache file \"/c/x.bin\", reason read-only".to_string(), "Cannot create or open cache file \"/c/x.json\", reason full".to_string()]
    );
    // Loading raises no warnings.
    let mut warnings = vec![];
    assert_eq!(open_cache_folder(&names, false, true, Ok(()), failed("unused"), &mut warnings), Some((true, false)));
    assert_eq!(open_cache_folder(&names, false, true, failed("missing"), Ok(()), &mut warnings), Some((false, true)));
    assert_eq!(open_cache_folder(&names, false, false, failed("missing"), Ok(()), &mut warnings), None);
    assert_eq!(open_cache_folder(&names, false, true, failed("missing"), failed("missing"), &mut warnings), None);
    assert!(warnings.is_empty());
}

#[test]
fn environment_switches() {
    assert!(env_flag_is_set(Some("1")));
    assert!(env_flag_is_set(Some("true")));
    assert!(!env_flag_is_set(Some("0")));
    assert!(!env_flag_is_set(Some("TRUE")));
    assert!(!env_flag_is_set(Some("")));
    assert!(!env_flag_is_set(Some("11")));
    assert!(!env_flag_is_set(None));
    assert!(terminal_logging_enabled(false, false));
    assert!(terminal_logging_enabled(false, true));
    assert!(terminal_logging_enabled(true, true));
    assert!(!terminal_logging_enabled(true, false));
}
