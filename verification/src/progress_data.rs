//! Progress reports: what a report holds, and when one is due.
//!
//! A reporter looks at shared counters again and again and sends a report
//! of them at most once in a fixed span of time, the first at once. The
//! clock, the sleep between two looks and the thread all this runs on are
//! the caller's; what is decided at each look is decided here.

use std::sync::atomic::AtomicBool;
use std::sync::atomic::AtomicU64;
use std::sync::atomic::AtomicUsize;
use std::sync::Arc;
use vstd::prelude::*;
use crate::common::SEND_PROGRESS_DATA_TIME_BETWEEN;
use crate::common_dir_traversal::CheckingMethod;
use crate::common_dir_traversal::ToolType;

verus! {

/// crossbeam_channel's `Sender`, carried through without a look inside.
#[verifier::external_type_specification]
#[verifier::external_body]
#[verifier::reject_recursive_types(T)]
pub struct ExSender<T>(crossbeam_channel::Sender<T>);

/// The stage that a tool is in: the first, in which files are collected,
/// or a later one of the tool's own.
#[derive(Debug, PartialEq, Eq, Clone, Copy, Structural)]
pub enum CurrentStage {
    CollectingFiles,
    Processing(u8),
}

impl CurrentStage {
    /// The place of the stage among the stages of its tool, from 0.
    pub open spec fn index(&self) -> u8 {
        match self {
            CurrentStage::CollectingFiles => 0,
            CurrentStage::Processing(index) => *index,
        }
    }

    /// The place of the stage among the stages of its tool, from 0.
    pub fn get_current_stage(&self) -> (r: u8)
        ensures
            r == self.index(),
    {
        match self {
            CurrentStage::CollectingFiles => 0,
            CurrentStage::Processing(index) => *index,
        }
    }
}

/// One report of progress.
#[derive(Debug, PartialEq, Eq, Clone, Copy, Structural)]
pub struct ProgressData {
    pub sstage: CurrentStage,
    pub checking_method: CheckingMethod,
    pub current_stage_idx: u8,
    pub max_stage_idx: u8,
    pub entries_checked: usize,
    pub entries_to_check: usize,
    pub bytes_checked: u64,
    pub bytes_to_check: u64,
    pub tool_type: ToolType,
}

/// What a reporter knows between two looks at the counters.
#[derive(Debug)]
pub struct ProgressReporter {
    sstage: CurrentStage,
    max_stage_idx: u8,
    max_items: usize,
    tool_type: ToolType,
    checking_method: CheckingMethod,
    max_size: u64,
    last_send: Option<u64>,
}

/// What a reporter does after a look at the counters.
#[derive(Debug, PartialEq, Eq, Clone, Copy, Structural)]
pub enum ReporterStep {
    /// Sleep, then look again.
    Sleep,
    /// End: the run flag is down.
    Finish,
    /// End: the report could not be sent, since nobody listens any more.
    Disconnected,
}

/// A report is due: none was sent yet, or the last one was sent more than
/// the span between two reports ago.
pub open spec fn report_due(last_send: Option<u64>, now: u64) -> bool {
    match last_send {
        Some(last) => now - last > SEND_PROGRESS_DATA_TIME_BETWEEN,
        None => true,
    }
}

impl ProgressReporter {
    /// The stage that is reported.
    pub closed spec fn stage(&self) -> CurrentStage {
        self.sstage
    }

    /// The place of the tool's last stage.
    pub closed spec fn max_stage(&self) -> u8 {
        self.max_stage_idx
    }

    /// The number of items that the stage will have looked at when done.
    pub closed spec fn items_total(&self) -> usize {
        self.max_items
    }

    /// The number of bytes that the stage will have looked at when done.
    pub closed spec fn bytes_total(&self) -> u64 {
        self.max_size
    }

    /// The tool and its method.
    pub closed spec fn label(&self) -> (ToolType, CheckingMethod) {
        (self.tool_type, self.checking_method)
    }

    /// When the last report was sent, if one was, in milliseconds on the
    /// caller's clock.
    pub closed spec fn last_send(&self) -> Option<u64> {
        self.last_send
    }

    /// Reports are made for a tool, never for the placeholder.
    #[verifier::type_invariant]
    pub closed spec fn well_formed(&self) -> bool {
        self.tool_type != ToolType::NotSet
    }

    /// The report of these counters.
    pub open spec fn snapshot(&self, entries_checked: usize, bytes_checked: u64) -> ProgressData {
        ProgressData {
            sstage: self.stage(),
            checking_method: self.label().1,
            current_stage_idx: self.stage().index(),
            max_stage_idx: self.max_stage(),
            entries_checked,
            entries_to_check: self.items_total(),
            bytes_checked,
            bytes_to_check: self.bytes_total(),
            tool_type: self.label().0,
        }
    }

    /// Decides what a look at the counters at the time `now` leads to:
    /// the report to send, if one is due, and whether to go on.
    ///
    /// The reporter goes on as long as the run flag is up. A report that
    /// is due is made even where the flag is down already.
    pub fn plan_tick(
        &mut self,
        now: u64,
        run: bool,
        entries_checked: usize,
        bytes_checked: u64,
    ) -> (r: (Option<ProgressData>, ReporterStep))
        ensures
            r.0 == if report_due(old(self).last_send(), now) {
                Some(old(self).snapshot(entries_checked, bytes_checked))
            } else {
                None
            },
            r.1 == if run {
                ReporterStep::Sleep
            } else {
                ReporterStep::Finish
            },
            final(self).last_send() == if report_due(old(self).last_send(), now) {
                Some(now)
            } else {
                old(self).last_send()
            },
            final(self).stage() == old(self).stage(),
            final(self).max_stage() == old(self).max_stage(),
            final(self).items_total() == old(self).items_total(),
            final(self).bytes_total() == old(self).bytes_total(),
            final(self).label() == old(self).label(),
    {
        proof {
            use_type_invariant(&*self);
        }
        let due = match self.last_send {
            Some(last) => now > last && now - last > SEND_PROGRESS_DATA_TIME_BETWEEN as u64,
            None => true,
        };
        let report = if due {
            self.last_send = Some(now);
            Some(
                ProgressData {
                    sstage: self.sstage,
                    checking_method: self.checking_method,
                    current_stage_idx: self.sstage.get_current_stage(),
                    max_stage_idx: self.max_stage_idx,
                    entries_checked,
                    entries_to_check: self.max_items,
                    bytes_checked,
                    bytes_to_check: self.max_size,
                    tool_type: self.tool_type,
                },
            )
        } else {
            None
        };
        (
            report,
            if run {
                ReporterStep::Sleep
            } else {
                ReporterStep::Finish
            },
        )
    }
}

/// After a report was sent, none is due until more than the span between
/// two reports has passed: reports are at least that far apart.
pub proof fn lemma_reports_are_spaced(sent_at: u64, now: u64)
    requires
        now <= sent_at + SEND_PROGRESS_DATA_TIME_BETWEEN,
    ensures
        !report_due(Some(sent_at), now),
{
}

/// The first look of a reporter finds a report due, whatever the time.
pub proof fn lemma_first_report_is_immediate(now: u64)
    ensures
        report_due(None, now),
{
}

/// Sets up a reporter for one stage of a tool.
///
/// `max_stage_idx` is the place of the tool's last stage, `max_items` and
/// `max_size` are the items and bytes that the stage expects. The tool
/// must not be the placeholder. The reporter has sent nothing yet, so its
/// first look sends a report.
pub fn prepare_thread_handler_common(
    sstage: CurrentStage,
    max_stage_idx: u8,
    max_items: usize,
    test_type: (ToolType, CheckingMethod),
    max_size: u64,
) -> (r: ProgressReporter)
    requires
        test_type.0 != ToolType::NotSet,
    ensures
        r.stage() == sstage,
        r.max_stage() == max_stage_idx,
        r.items_total() == max_items,
        r.bytes_total() == max_size,
        r.label() == test_type,
        r.last_send() is None,
{
    ProgressReporter {
        sstage,
        max_stage_idx,
        max_items,
        tool_type: test_type.0,
        checking_method: test_type.1,
        max_size,
        last_send: None,
    }
}

/// Sends a report into the channel by crossbeam_channel's `Sender::send`,
/// and tells whether it was sent: `send` fails where every receiver of the
/// channel is gone, and waits while a channel of limited size is full.
/// Nothing is claimed of the answer.
#[verifier::external_body]
fn send_progress(
    progress_sender: &crossbeam_channel::Sender<ProgressData>,
    progress_data: ProgressData,
) -> (sent: bool) {
    progress_sender.send(progress_data).is_ok()
}

/// Reads the run flag.
fn still_running(progress_thread_run: &Arc<AtomicBool>) -> bool {
    progress_thread_run.load(std::sync::atomic::Ordering::Relaxed)
}

/// Reads the counter of items.
fn items_so_far(items_counter: &Arc<AtomicUsize>) -> usize {
    items_counter.load(std::sync::atomic::Ordering::Relaxed)
}

/// Reads the counter of bytes.
fn bytes_so_far(size_counter: &Arc<AtomicU64>) -> u64 {
    size_counter.load(std::sync::atomic::Ordering::Relaxed)
}

/// One look of the reporter at the time `now`: reads the counters, sends a
/// report where one is due, and says what to do next.
///
/// Counters and run flag belong to other threads and the channel to its
/// receiver, so what they give is not promised. A look at which no report
/// is due sends nothing and leaves the reporter as it was; one at which a
/// report is due notes the time of sending.
pub fn progress_tick(
    reporter: &mut ProgressReporter,
    progress_sender: &crossbeam_channel::Sender<ProgressData>,
    now: u64,
    progress_thread_run: &Arc<AtomicBool>,
    items_counter: &Arc<AtomicUsize>,
    size_counter: &Arc<AtomicU64>,
) -> (step: ReporterStep)
    ensures
        final(reporter).last_send() == if report_due(old(reporter).last_send(), now) {
            Some(now)
        } else {
            old(reporter).last_send()
        },
        !report_due(old(reporter).last_send(), now) ==> step != ReporterStep::Disconnected,
        final(reporter).stage() == old(reporter).stage(),
        final(reporter).max_stage() == old(reporter).max_stage(),
        final(reporter).items_total() == old(reporter).items_total(),
        final(reporter).bytes_total() == old(reporter).bytes_total(),
        final(reporter).label() == old(reporter).label(),
{
    let entries_checked = items_so_far(items_counter);
    let bytes_checked = bytes_so_far(size_counter);
    let (report, _) = reporter.plan_tick(now, true, entries_checked, bytes_checked);
    if let Some(progress_data) = report {
        if !send_progress(progress_sender, progress_data) {
            return ReporterStep::Disconnected;
        }
    }
    if still_running(progress_thread_run) {
        ReporterStep::Sleep
    } else {
        ReporterStep::Finish
    }
}

} // verus!
