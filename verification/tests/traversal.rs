use std::collections::BTreeMap;
use std::collections::HashSet;
use std::sync::atomic::AtomicBool;
use std::sync::atomic::AtomicUsize;
use std::sync::atomic::Ordering;
use std::sync::Arc;

use czkawka_core::common::WorkContinueStatus;
use czkawka_core::common_dir_traversal::entry_type;
use czkawka_core::common_dir_traversal::finish;
use czkawka_core::common_dir_traversal::get_modified_time;
use czkawka_core::common_dir_traversal::next_action;
use czkawka_core::common_dir_traversal::scan_folder;
use czkawka_core::common_dir_traversal::take_1_per_inode;
use czkawka_core::common_dir_traversal::CheckingMethod;
use czkawka_core::common_dir_traversal::Collect;
use czkawka_core::common_dir_traversal::DirEntryData;
use czkawka_core::common_dir_traversal::DirTraversal;
use czkawka_core::common_dir_traversal::DirTraversalBuilder;
use czkawka_core::common_dir_traversal::DirTraversalResult;
use czkawka_core::common_dir_traversal::EntryMetadata;
use czkawka_core::common_dir_traversal::EntryType;
use czkawka_core::common_dir_traversal::ErrorType;
use czkawka_core::common_dir_traversal::FileEntry;
use czkawka_core::common_dir_traversal::FileTypeFlags;
use czkawka_core::common_dir_traversal::ModifiedTime;
use czkawka_core::common_dir_traversal::ToolType;
use czkawka_core::common_dir_traversal::TraversalAction;
use czkawka_core::common_dir_traversal::TraversalState;
use czkawka_core::common_tool::CommonToolData;
use czkawka_core::common_traits::ResultEntry;

type Listing = Result<Vec<Result<DirEntryData, String>>, String>;

const NOW: u64 = 100;

fn flags(is_dir: bool, is_symlink: bool, is_file: bool) -> Option<FileTypeFlags> {
    Some(FileTypeFlags { is_dir, is_symlink, is_file })
}

fn entry(dir: &str, name: &str, file_type: Option<FileTypeFlags>, size: u64) -> Result<DirEntryData, String> {
    Ok(DirEntryData {
        path: format!("{dir}/{name}"),
        file_name: name.to_string(),
        file_type,
        metadata: Ok(EntryMetadata {
            size,
            modified: ModifiedTime::SinceEpoch(NOW),
        }),
        device: Ok(1),
    })
}

fn file(dir: &str, name: &str, size: u64) -> Result<DirEntryData, String> {
    entry(dir, name, flags(false, false, true), size)
}

fn folder(dir: &str, name: &str) -> Result<DirEntryData, String> {
    entry(dir, name, flags(true, false, false), 4096)
}

fn symlink(dir: &str, name: &str) -> Result<DirEntryData, String> {
    entry(dir, name, flags(false, true, false), 7)
}

fn fe(path: &str, size: u64) -> FileEntry {
    FileEntry {
        path: path.to_string(),
        size,
        modified_date: NOW,
    }
}

/// Files `a`, its hard link `b`, and `c`, one byte each.
fn three_files(folder: &str) -> Listing {
    if folder == "/tmp/scan" {
        Ok(vec![file(folder, "c", 1), file(folder, "a", 1), file(folder, "b", 1)])
    } else {
        Err("No such file or directory".to_string())
    }
}

fn inode_of(fe: &FileEntry) -> Option<u64> {
    match fe.path.as_str() {
        "/tmp/scan/a" | "/tmp/scan/b" => Some(11),
        "/tmp/scan/c" => Some(12),
        _ => None,
    }
}

fn run<K: Ord, F: Fn(&FileEntry) -> K>(traversal: &DirTraversal<F>, read: &dyn Fn(&str) -> Listing, counter: &Arc<AtomicUsize>) -> DirTraversalResult<K> {
    let mut state = traversal.begin();
    loop {
        match traversal.poll(&state) {
            TraversalAction::Finish => return finish(state),
            TraversalAction::Stop => return DirTraversalResult::Stopped,
            TraversalAction::ReadFolders => {
                let results = state.folders_to_check.iter().map(|folder| traversal.scan(folder, read(folder), counter)).collect();
                if traversal.absorb(&mut state, results) == WorkContinueStatus::Stop {
                    return DirTraversalResult::Stopped;
                }
            }
        }
    }
}

fn common_data(roots: &[&str]) -> CommonToolData {
    let mut common_data = CommonToolData::new(ToolType::SimilarImages);
    common_data.directories.set_included_directory(roots.iter().map(|root| root.to_string()).collect());
    common_data.set_minimal_file_size(0);
    common_data
}

#[test]
fn test_traversal() {
    let stop = Arc::new(AtomicBool::new(false));
    let counter = Arc::new(AtomicUsize::new(0));
    let traversal = DirTraversalBuilder::new().group_by(|_fe| ()).stop_flag(&stop).common_data(common_data(&["/tmp/scan"])).build();
    match run(&traversal, &three_files, &counter) {
        DirTraversalResult::SuccessFiles {
            warnings: _,
            grouped_file_entries,
        } => {
            let actual: HashSet<_> = grouped_file_entries.into_values().flatten().collect();
            assert_eq!(HashSet::from([fe("/tmp/scan/a", 1), fe("/tmp/scan/b", 1), fe("/tmp/scan/c", 1)]), actual);
        }
        DirTraversalResult::Stopped => {
            panic!("Expect SuccessFiles.");
        }
    };
    assert_eq!(counter.load(Ordering::Relaxed), 3);
}

#[test]
fn test_traversal_group_by_inode() {
    let stop = Arc::new(AtomicBool::new(false));
    let counter = Arc::new(AtomicUsize::new(0));
    let traversal = DirTraversalBuilder::new().group_by(inode_of).stop_flag(&stop).common_data(common_data(&["/tmp/scan"])).build();
    match run(&traversal, &three_files, &counter) {
        DirTraversalResult::SuccessFiles {
            warnings: _,
            grouped_file_entries,
        } => {
            let actual: HashSet<_> = grouped_file_entries.into_iter().flat_map(take_1_per_inode).collect();
            assert_eq!(HashSet::from([fe("/tmp/scan/a", 1), fe("/tmp/scan/c", 1)]), actual);
        }
        DirTraversalResult::Stopped => {
            panic!("Expect SuccessFiles.");
        }
    };
}

#[test]
fn common_dir_traversal_test_traversal_group_by_inode() {
    // Where files have no inodes every key is empty, and nothing is dropped.
    let stop = Arc::new(AtomicBool::new(false));
    let counter = Arc::new(AtomicUsize::new(0));
    let traversal = DirTraversalBuilder::new()
        .group_by(|_fe: &FileEntry| -> Option<u64> { None })
        .stop_flag(&stop)
        .common_data(common_data(&["/tmp/scan"]))
        .build();
    match run(&traversal, &three_files, &counter) {
        DirTraversalResult::SuccessFiles {
            warnings: _,
            grouped_file_entries,
        } => {
            let actual: HashSet<_> = grouped_file_entries.into_iter().flat_map(take_1_per_inode).collect();
            assert_eq!(HashSet::from([fe("/tmp/scan/a", 1), fe("/tmp/scan/b", 1), fe("/tmp/scan/c", 1)]), actual);
        }
        DirTraversalResult::Stopped => {
            panic!("Expect SuccessFiles.");
        }
    };
}

#[test]
fn groups_hold_entries_in_path_order() {
    let stop = Arc::new(AtomicBool::new(false));
    let counter = Arc::new(AtomicUsize::new(0));
    let traversal = DirTraversalBuilder::new().group_by(|_fe| ()).stop_flag(&stop).common_data(common_data(&["/tmp/scan"])).build();
    match run(&traversal, &three_files, &counter) {
        DirTraversalResult::SuccessFiles { warnings, grouped_file_entries } => {
            assert!(warnings.is_empty());
            assert_eq!(grouped_file_entries, BTreeMap::from([((), vec![fe("/tmp/scan/a", 1), fe("/tmp/scan/b", 1), fe("/tmp/scan/c", 1)])]));
        }
        DirTraversalResult::Stopped => panic!("Expect SuccessFiles."),
    }
}

#[test]
fn take_1_per_inode_keeps_first_of_inode_group() {
    let group = vec![fe("/x/a", 1), fe("/x/b", 1), fe("/x/c", 1)];
    assert_eq!(take_1_per_inode((Some(5), group.clone())), vec![fe("/x/a", 1)]);
    assert_eq!(take_1_per_inode((None, group.clone())), group);
    assert_eq!(take_1_per_inode((Some(5), vec![])), Vec::<FileEntry>::new());
    assert_eq!(take_1_per_inode((Some(5), vec![fe("/x/a", 1)])), vec![fe("/x/a", 1)]);
}

fn tree(folder: &str) -> Listing {
    match folder {
        "/r" => Ok(vec![file(folder, "z.txt", 30), folder_entry("/r", "sub"), file(folder, "b.TXT", 10), folder_entry("/r", "skip")]),
        "/r/sub" => Ok(vec![file(folder, "y.txt", 20), file(folder, "a.jpg", 20), symlink(folder, "link.txt")]),
        "/r/skip" => Ok(vec![file(folder, "hidden.txt", 20)]),
        "/q" => Ok(vec![file(folder, "m.txt", 20)]),
        _ => Err("Permission denied".to_string()),
    }
}

fn folder_entry(dir: &str, name: &str) -> Result<DirEntryData, String> {
    folder(dir, name)
}

fn by_size(fe: &FileEntry) -> u64 {
    fe.size
}

#[test]
fn traversal_is_recursive_level_by_level() {
    let stop = Arc::new(AtomicBool::new(false));
    let counter = Arc::new(AtomicUsize::new(0));
    let mut data = common_data(&["/r", "/q"]);
    data.excluded_items.add("*/skip*");
    let traversal = DirTraversalBuilder::new().group_by(by_size).stop_flag(&stop).common_data(data).build();
    match run(&traversal, &tree, &counter) {
        DirTraversalResult::SuccessFiles { warnings, grouped_file_entries } => {
            assert!(warnings.is_empty());
            assert_eq!(
                grouped_file_entries,
                BTreeMap::from([
                    (10, vec![fe("/r/b.TXT", 10)]),
                    (20, vec![fe("/q/m.txt", 20), fe("/r/sub/a.jpg", 20), fe("/r/sub/y.txt", 20)]),
                    (30, vec![fe("/r/z.txt", 30)]),
                ])
            );
        }
        DirTraversalResult::Stopped => panic!("Expect SuccessFiles."),
    }
    // Symlinks do not count where files are collected.
    assert_eq!(counter.load(Ordering::Relaxed), 5);
}

#[test]
fn traversal_without_recursion_stays_in_roots() {
    let stop = Arc::new(AtomicBool::new(false));
    let counter = Arc::new(AtomicUsize::new(0));
    let mut data = common_data(&["/r"]);
    data.set_recursive_search(false);
    let traversal = DirTraversalBuilder::new().group_by(|_fe| ()).stop_flag(&stop).common_data(data).build();
    match run(&traversal, &tree, &counter) {
        DirTraversalResult::SuccessFiles { grouped_file_entries, .. } => {
            assert_eq!(grouped_file_entries, BTreeMap::from([((), vec![fe("/r/b.TXT", 10), fe("/r/z.txt", 30)])]));
        }
        DirTraversalResult::Stopped => panic!("Expect SuccessFiles."),
    }
}

#[test]
fn traversal_respects_size_bounds() {
    let listing = |folder: &str| -> Listing { Ok(vec![file(folder, "s9", 9), file(folder, "s10", 10), file(folder, "s15", 15), file(folder, "s20", 20), file(folder, "s21", 21)]) };
    let stop = Arc::new(AtomicBool::new(false));
    let counter = Arc::new(AtomicUsize::new(0));
    let traversal = DirTraversalBuilder::new()
        .group_by(|_fe| ())
        .stop_flag(&stop)
        .common_data(common_data(&["/d"]))
        .minimal_file_size(10)
        .maximal_file_size(20)
        .build();
    match run(&traversal, &listing, &counter) {
        DirTraversalResult::SuccessFiles { grouped_file_entries, .. } => {
            assert_eq!(grouped_file_entries, BTreeMap::from([((), vec![fe("/d/s10", 10), fe("/d/s15", 15), fe("/d/s20", 20)])]));
        }
        DirTraversalResult::Stopped => panic!("Expect SuccessFiles."),
    }
    // Files outside the bounds were looked at all the same.
    assert_eq!(counter.load(Ordering::Relaxed), 5);
}

#[test]
fn builder_defaults_to_all_sizes() {
    let listing = |folder: &str| -> Listing { Ok(vec![file(folder, "empty", 0), file(folder, "huge", u64::MAX)]) };
    let stop = Arc::new(AtomicBool::new(false));
    let counter = Arc::new(AtomicUsize::new(0));
    let mut builder = DirTraversalBuilder::new().group_by(|_fe| ()).stop_flag(&stop).common_data(common_data(&["/d"]));
    builder.minimal_file_size = None;
    builder.maximal_file_size = None;
    let traversal = builder.build();
    assert_eq!(traversal.rules.minimal_file_size, 0);
    assert_eq!(traversal.rules.maximal_file_size, u64::MAX);
    match run(&traversal, &listing, &counter) {
        DirTraversalResult::SuccessFiles { grouped_file_entries, .. } => {
            assert_eq!(grouped_file_entries, BTreeMap::from([((), vec![fe("/d/empty", 0), fe("/d/huge", u64::MAX)])]));
        }
        DirTraversalResult::Stopped => panic!("Expect SuccessFiles."),
    }
}

#[test]
fn stop_flag_set_before_start_stops_the_scan() {
    let stop = Arc::new(AtomicBool::new(true));
    let counter = Arc::new(AtomicUsize::new(0));
    let traversal = DirTraversalBuilder::new().group_by(|_fe| ()).stop_flag(&stop).common_data(common_data(&["/tmp/scan"])).build();
    let read = |_folder: &str| -> Listing { panic!("a stopped scan reads nothing") };
    assert!(matches!(run(&traversal, &read, &counter), DirTraversalResult::Stopped));
    assert_eq!(counter.load(Ordering::Relaxed), 0);
}

#[test]
fn stop_flag_seen_inside_a_directory_discards_it() {
    let stop = Arc::new(AtomicBool::new(true));
    let counter = Arc::new(AtomicUsize::new(0));
    let traversal = DirTraversalBuilder::new().group_by(|_fe| ()).stop_flag(&stop).common_data(common_data(&["/tmp/scan"])).build();
    assert!(traversal.scan("/tmp/scan", three_files("/tmp/scan"), &counter).is_none());
    // A directory that could not be opened, or is empty, has no entry at which to stop.
    assert!(traversal.scan("/nowhere", three_files("/nowhere"), &counter).is_some());
    assert!(traversal.scan("/tmp/scan", Ok(vec![]), &counter).is_some());

    let mut state: TraversalState<()> = traversal.begin();
    let outcome = scan_folder(&traversal.rules, "/tmp/scan", three_files("/tmp/scan"), &Arc::new(AtomicBool::new(false)), &counter);
    assert_eq!(traversal.absorb(&mut state, vec![outcome, None]), WorkContinueStatus::Stop);
    assert_eq!(state.folders_to_check, vec!["/tmp/scan".to_string()]);
    assert!(state.grouped_file_entries.is_empty());
}

#[test]
fn next_action_by_state_and_flag() {
    let mut state: TraversalState<u64> = TraversalState {
        folders_to_check: vec![],
        warnings: vec![],
        grouped_file_entries: BTreeMap::new(),
    };
    assert_eq!(next_action(&state, false), TraversalAction::Finish);
    assert_eq!(next_action(&state, true), TraversalAction::Finish);
    state.folders_to_check.push("/a".to_string());
    assert_eq!(next_action(&state, false), TraversalAction::ReadFolders);
    assert_eq!(next_action(&state, true), TraversalAction::Stop);
}

#[test]
fn unreadable_things_become_warnings() {
    let listing = |folder: &str| -> Listing {
        match folder {
            "/w" => Ok(vec![
                Err("Input/output error".to_string()),
                folder_entry("/w", "locked"),
                Ok(DirEntryData {
                    path: "/w/nometa".to_string(),
                    file_name: "nometa".to_string(),
                    file_type: flags(false, false, true),
                    metadata: Err("Stale handle".to_string()),
                    device: Ok(1),
                }),
                Ok(DirEntryData {
                    path: "/w/old".to_string(),
                    file_name: "old".to_string(),
                    file_type: flags(false, false, true),
                    metadata: Ok(EntryMetadata { size: 3, modified: ModifiedTime::BeforeEpoch }),
                    device: Ok(1),
                }),
                Ok(DirEntryData {
                    path: "/w/timeless".to_string(),
                    file_name: "timeless".to_string(),
                    file_type: flags(false, false, true),
                    metadata: Ok(EntryMetadata { size: 4, modified: ModifiedTime::Unavailable("not supported".to_string()) }),
                    device: Ok(1),
                }),
                Ok(DirEntryData {
                    path: "/w/typeless".to_string(),
                    file_name: "typeless".to_string(),
                    file_type: None,
                    metadata: Err("unused".to_string()),
                    device: Ok(1),
                }),
            ]),
            _ => Err("Permission denied".to_string()),
        }
    };
    let stop = Arc::new(AtomicBool::new(false));
    let counter = Arc::new(AtomicUsize::new(0));
    let traversal = DirTraversalBuilder::new().group_by(|_fe| ()).stop_flag(&stop).common_data(common_data(&["/w"])).build();
    match run(&traversal, &listing, &counter) {
        DirTraversalResult::SuccessFiles { warnings, grouped_file_entries } => {
            assert_eq!(
                warnings,
                vec![
                    "Cannot read entry in dir /w, reason Input/output error".to_string(),
                    "Cannot read metadata in dir /w/nometa, reason Stale handle".to_string(),
                    "File /w/old seems to be modified before Unix Epoch".to_string(),
                    "Unable to get modification date from file /w/timeless, reason not supported".to_string(),
                    "Cannot open dir /w/locked, reason Permission denied".to_string(),
                ]
            );
            assert_eq!(
                grouped_file_entries,
                BTreeMap::from([(
                    (),
                    vec![
                        FileEntry { path: "/w/old".to_string(), size: 3, modified_date: 0 },
                        FileEntry { path: "/w/timeless".to_string(), size: 4, modified_date: 0 },
                    ]
                )])
            );
        }
        DirTraversalResult::Stopped => panic!("Expect SuccessFiles."),
    }
    assert_eq!(counter.load(Ordering::Relaxed), 3);
}

#[test]
fn get_modified_time_clamps_to_zero() {
    let mut warnings = vec![];
    let known = EntryMetadata { size: 1, modified: ModifiedTime::SinceEpoch(1234) };
    assert_eq!(get_modified_time(&known, &mut warnings, "/f", false), 1234);
    assert!(warnings.is_empty());
    let early = EntryMetadata { size: 1, modified: ModifiedTime::BeforeEpoch };
    assert_eq!(get_modified_time(&early, &mut warnings, "/f", true), 0);
    let none = EntryMetadata { size: 1, modified: ModifiedTime::Unavailable("why".to_string()) };
    assert_eq!(get_modified_time(&none, &mut warnings, "/f", true), 0);
    assert_eq!(warnings, vec!["Folder /f seems to be modified before Unix Epoch".to_string(), "Unable to get modification date from folder /f, reason why".to_string()]);
}

#[test]
fn symlinks_are_collected_in_symlink_mode() {
    let stop = Arc::new(AtomicBool::new(false));
    let counter = Arc::new(AtomicUsize::new(0));
    let traversal = DirTraversalBuilder::new()
        .group_by(|_fe| ())
        .stop_flag(&stop)
        .common_data(common_data(&["/r"]))
        .collect(Collect::InvalidSymlinks)
        .checking_method(CheckingMethod::NotSet)
        .build();
    match run(&traversal, &tree, &counter) {
        DirTraversalResult::SuccessFiles { grouped_file_entries, .. } => {
            assert_eq!(grouped_file_entries, BTreeMap::from([((), vec![fe("/r/sub/link.txt", 7)])]));
        }
        DirTraversalResult::Stopped => panic!("Expect SuccessFiles."),
    }
    // Files count as looked at, but only symlinks are kept.
    assert_eq!(counter.load(Ordering::Relaxed), 6);
}

#[test]
fn extension_list_and_excluded_directories_filter() {
    let stop = Arc::new(AtomicBool::new(false));
    let counter = Arc::new(AtomicUsize::new(0));
    let mut data = common_data(&["/r"]);
    data.extensions.allow("TXT");
    data.directories.set_excluded_directory(vec!["/r/skip".to_string()]);
    let traversal = DirTraversalBuilder::new().group_by(|_fe| ()).stop_flag(&stop).common_data(data).build();
    match run(&traversal, &tree, &counter) {
        DirTraversalResult::SuccessFiles { grouped_file_entries, .. } => {
            assert_eq!(grouped_file_entries, BTreeMap::from([((), vec![fe("/r/b.TXT", 10), fe("/r/z.txt", 30), fe("/r/sub/y.txt", 20)])]));
        }
        DirTraversalResult::Stopped => panic!("Expect SuccessFiles."),
    }
}

#[test]
fn other_filesystems_are_left_out() {
    let listing = |folder: &str| -> Listing {
        match folder {
            "/m" => Ok(vec![
                file(folder, "here", 1),
                Ok(DirEntryData {
                    path: "/m/there".to_string(),
                    file_name: "there".to_string(),
                    file_type: flags(false, false, true),
                    metadata: Ok(EntryMetadata { size: 1, modified: ModifiedTime::SinceEpoch(NOW) }),
                    device: Ok(2),
                }),
                Ok(DirEntryData {
                    path: "/m/unknown".to_string(),
                    file_name: "unknown".to_string(),
                    file_type: flags(false, false, true),
                    metadata: Ok(EntryMetadata { size: 1, modified: ModifiedTime::SinceEpoch(NOW) }),
                    device: Err("gone".to_string()),
                }),
                Ok(DirEntryData {
                    path: "/m/mount".to_string(),
                    file_name: "mount".to_string(),
                    file_type: flags(true, false, false),
                    metadata: Err("unused".to_string()),
                    device: Ok(2),
                }),
            ]),
            _ => panic!("another file system was entered"),
        }
    };
    let stop = Arc::new(AtomicBool::new(false));
    let counter = Arc::new(AtomicUsize::new(0));
    let mut data = common_data(&["/m"]);
    data.directories.set_exclude_other_filesystems(true, vec![1]);
    let traversal = DirTraversalBuilder::new().group_by(|_fe| ()).stop_flag(&stop).common_data(data).build();
    match run(&traversal, &listing, &counter) {
        DirTraversalResult::SuccessFiles { warnings, grouped_file_entries } => {
            assert_eq!(warnings, vec!["Cannot read the device of /m/unknown, reason gone".to_string()]);
            assert_eq!(grouped_file_entries, BTreeMap::from([((), vec![fe("/m/here", 1), fe("/m/unknown", 1)])]));
        }
        DirTraversalResult::Stopped => panic!("Expect SuccessFiles."),
    }
}

#[test]
fn scan_is_the_same_however_a_directory_is_listed() {
    let forward = |folder: &str| -> Listing { Ok(vec![file(folder, "a", 1), file(folder, "b", 2), file(folder, "c", 1), file(folder, "ab", 1)]) };
    let backward = |folder: &str| -> Listing { Ok(vec![file(folder, "ab", 1), file(folder, "c", 1), file(folder, "b", 2), file(folder, "a", 1)]) };
    let stop = Arc::new(AtomicBool::new(false));
    let counter = Arc::new(AtomicUsize::new(0));
    let first = DirTraversalBuilder::new().group_by(by_size).stop_flag(&stop).common_data(common_data(&["/d"])).build();
    let second = DirTraversalBuilder::new().group_by(by_size).stop_flag(&stop).common_data(common_data(&["/d"])).build();
    match (run(&first, &forward, &counter), run(&second, &backward, &counter)) {
        (DirTraversalResult::SuccessFiles { grouped_file_entries: one, .. }, DirTraversalResult::SuccessFiles { grouped_file_entries: two, .. }) => {
            assert_eq!(one, two);
            assert_eq!(one, BTreeMap::from([(1, vec![fe("/d/a", 1), fe("/d/ab", 1), fe("/d/c", 1)]), (2, vec![fe("/d/b", 2)])]));
        }
        _ => panic!("Expect SuccessFiles."),
    }
}

#[test]
fn entry_type_prefers_dir_then_symlink_then_file() {
    assert_eq!(entry_type(FileTypeFlags { is_dir: true, is_symlink: true, is_file: true }), EntryType::Dir);
    assert_eq!(entry_type(FileTypeFlags { is_dir: false, is_symlink: true, is_file: true }), EntryType::Symlink);
    assert_eq!(entry_type(FileTypeFlags { is_dir: false, is_symlink: false, is_file: true }), EntryType::File);
    assert_eq!(entry_type(FileTypeFlags { is_dir: false, is_symlink: false, is_file: false }), EntryType::Other);
}

#[test]
fn error_type_in_words() {
    assert_eq!(ErrorType::InfiniteRecursion.to_string(), "Infinite recursion");
    assert_eq!(ErrorType::NonExistentFile.to_string(), "Non existent file");
}

#[test]
fn file_entry_getters() {
    let entry = FileEntry { path: "/some/file".to_string(), size: 77, modified_date: 99 };
    assert_eq!(entry.get_path(), "/some/file");
    assert_eq!(entry.get_size(), 77);
    assert_eq!(entry.get_modified_date(), 99);
}

#[test]
fn builder_starts_empty() {
    let builder = DirTraversalBuilder::new();
    assert!(builder.group_by.is_none());
    assert!(builder.root_dirs.is_empty());
    assert!(builder.stop_flag.is_none());
    assert!(builder.progress_sender.is_none());
    assert_eq!(builder.tool_type, ToolType::NotSet);
    assert_eq!(builder.checking_method, CheckingMethod::NotSet);
    assert!(builder.collect == Collect::Files);
    assert!(!builder.recursive_search);
    assert_eq!(ToolType::default(), ToolType::NotSet);
    assert_eq!(CheckingMethod::default(), CheckingMethod::NotSet);
}

#[test]
fn progress_sender_goes_from_builder_to_scan() {
    let stop = Arc::new(AtomicBool::new(false));
    let (sender, _receiver) = crossbeam_channel::unbounded();
    let without = DirTraversalBuilder::new().group_by(|_fe| ()).stop_flag(&stop).common_data(common_data(&["/r"])).build();
    assert!(without.progress_sender.is_none());
    let with = DirTraversalBuilder::new().progress_sender(Some(&sender)).group_by(|_fe| ()).stop_flag(&stop).common_data(common_data(&["/r"])).build();
    assert!(with.progress_sender.is_some_and(|kept| kept.same_channel(&sender)));
    let reset = DirTraversalBuilder::new().progress_sender(Some(&sender)).progress_sender(None).group_by(|_fe| ()).stop_flag(&stop).common_data(common_data(&["/r"])).build();
    assert!(reset.progress_sender.is_none());
}
