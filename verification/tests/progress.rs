use std::sync::atomic::AtomicBool;
use std::sync::atomic::AtomicU64;
use std::sync::atomic::AtomicUsize;
use std::sync::atomic::Ordering;
use std::sync::Arc;

use czkawka_core::common_dir_traversal::CheckingMethod;
use czkawka_core::common_dir_traversal::ToolType;
use czkawka_core::progress_data::prepare_thread_handler_common;
use czkawka_core::progress_data::progress_tick;
use czkawka_core::progress_data::CurrentStage;
use czkawka_core::progress_data::ProgressData;
use czkawka_core::progress_data::ReporterStep;

fn expected(entries_checked: usize, bytes_checked: u64) -> ProgressData {
    ProgressData {
        sstage: CurrentStage::Processing(2),
        checking_method: CheckingMethod::Hash,
        current_stage_idx: 2,
        max_stage_idx: 6,
        entries_checked,
        entries_to_check: 50,
        bytes_checked,
        bytes_to_check: 4000,
        tool_type: ToolType::Duplicate,
    }
}

#[test]
fn first_report_is_immediate_and_later_ones_are_spaced() {
    let mut reporter = prepare_thread_handler_common(CurrentStage::Processing(2), 6, 50, (ToolType::Duplicate, CheckingMethod::Hash), 4000);
    assert_eq!(reporter.plan_tick(1000, true, 0, 0), (Some(expected(0, 0)), ReporterStep::Sleep));
    assert_eq!(reporter.plan_tick(1020, true, 5, 100), (None, ReporterStep::Sleep));
    assert_eq!(reporter.plan_tick(1200, true, 9, 200), (None, ReporterStep::Sleep));
    assert_eq!(reporter.plan_tick(1201, true, 10, 300), (Some(expected(10, 300)), ReporterStep::Sleep));
    assert_eq!(reporter.plan_tick(1401, true, 11, 300), (None, ReporterStep::Sleep));
    // A clock that went back sends nothing.
    assert_eq!(reporter.plan_tick(5, true, 11, 300), (None, ReporterStep::Sleep));
    // A report that is due is still made when the flag is down.
    assert_eq!(reporter.plan_tick(1402, false, 50, 4000), (Some(expected(50, 4000)), ReporterStep::Finish));
    assert_eq!(reporter.plan_tick(1403, false, 50, 4000), (None, ReporterStep::Finish));
}

#[test]
fn collecting_files_is_stage_zero() {
    assert_eq!(CurrentStage::CollectingFiles.get_current_stage(), 0);
    assert_eq!(CurrentStage::Processing(3).get_current_stage(), 3);
    let mut reporter = prepare_thread_handler_common(CurrentStage::CollectingFiles, 0, 0, (ToolType::EmptyFiles, CheckingMethod::NotSet), 0);
    let (report, _) = reporter.plan_tick(0, true, 1, 2);
    assert_eq!(
        report,
        Some(ProgressData {
            sstage: CurrentStage::CollectingFiles,
            checking_method: CheckingMethod::NotSet,
            current_stage_idx: 0,
            max_stage_idx: 0,
            entries_checked: 1,
            entries_to_check: 0,
            bytes_checked: 2,
            bytes_to_check: 0,
            tool_type: ToolType::EmptyFiles,
        })
    );
}

#[test]
fn reports_go_through_the_channel() {
    let (sender, receiver) = crossbeam_channel::unbounded();
    let run = Arc::new(AtomicBool::new(true));
    let items = Arc::new(AtomicUsize::new(7));
    let bytes = Arc::new(AtomicU64::new(70));
    let mut reporter = prepare_thread_handler_common(CurrentStage::Processing(2), 6, 50, (ToolType::Duplicate, CheckingMethod::Hash), 4000);
    assert_eq!(progress_tick(&mut reporter, &sender, 10, &run, &items, &bytes), ReporterStep::Sleep);
    assert_eq!(receiver.try_recv(), Ok(expected(7, 70)));
    items.store(8, Ordering::Relaxed);
    assert_eq!(progress_tick(&mut reporter, &sender, 30, &run, &items, &bytes), ReporterStep::Sleep);
    assert!(receiver.try_recv().is_err());
    run.store(false, Ordering::Relaxed);
    assert_eq!(progress_tick(&mut reporter, &sender, 300, &run, &items, &bytes), ReporterStep::Finish);
    assert_eq!(receiver.try_recv(), Ok(expected(8, 70)));
    drop(receiver);
    assert_eq!(progress_tick(&mut reporter, &sender, 310, &run, &items, &bytes), ReporterStep::Finish);
    assert_eq!(progress_tick(&mut reporter, &sender, 600, &run, &items, &bytes), ReporterStep::Disconnected);
}
