//! Following changes of the configuration file.

use vstd::prelude::*;
use vstd::string::*;

verus! {

/// The state of the watch on the configuration file.
#[derive(Clone, Copy, Debug, PartialEq, Eq, Structural)]
pub struct LiveConfigWatchState {
    /// Counts the changes: what was read before the last one is stale.
    pub generation: u64,
    pub in_flight: bool,
    pub reload_queued: bool,
    pub cancelled: bool,
    pub error_reported: bool,
}

impl LiveConfigWatchState {
    /// The next generation.
    pub open spec fn next_generation(self) -> u64 {
        if self.generation == u64::MAX {
            0
        } else {
            (self.generation + 1) as u64
        }
    }

    /// The watch after a change of the file.
    pub open spec fn changed(self) -> LiveConfigWatchState {
        LiveConfigWatchState { generation: self.next_generation(), ..self }
    }

    /// The watch after it was asked to read the file.
    pub open spec fn asked(self) -> LiveConfigWatchState {
        if self.cancelled {
            self
        } else if self.in_flight {
            LiveConfigWatchState { reload_queued: true, ..self }
        } else {
            LiveConfigWatchState { in_flight: true, ..self }
        }
    }

    /// Whether a read begins now.
    pub open spec fn reads_now(self) -> bool {
        !self.cancelled && !self.in_flight
    }

    /// The watch after a read.
    pub open spec fn after_read(self) -> LiveConfigWatchState {
        LiveConfigWatchState { in_flight: false, reload_queued: false, ..self }
    }

    /// Whether what was read in this generation counts.
    pub open spec fn counts(self, generation: u64) -> bool {
        !self.cancelled && generation == self.generation
    }

    /// Whether the file is read again after a read.
    pub open spec fn reads_again(self) -> bool {
        !self.cancelled && self.reload_queued
    }

    /// The watch after its end.
    pub open spec fn ended(self) -> LiveConfigWatchState {
        LiveConfigWatchState {
            cancelled: true,
            reload_queued: false,
            generation: self.next_generation(),
            ..self
        }
    }

    /// The watch after an error.
    pub open spec fn failed(self) -> LiveConfigWatchState {
        LiveConfigWatchState { error_reported: true, ..self }
    }

    /// The watch after the file was read well.
    pub open spec fn read_well(self) -> LiveConfigWatchState {
        LiveConfigWatchState { error_reported: false, ..self }
    }

    /// A watch that has seen nothing.
    pub fn new() -> (r: LiveConfigWatchState)
        ensures
            r == (LiveConfigWatchState {
                generation: 0,
                in_flight: false,
                reload_queued: false,
                cancelled: false,
                error_reported: false,
            }),
    {
        LiveConfigWatchState {
            generation: 0,
            in_flight: false,
            reload_queued: false,
            cancelled: false,
            error_reported: false,
        }
    }

    /// The file was changed.
    pub fn note_change(&mut self)
        ensures
            *final(self) == old(self).changed(),
    {
        self.generation = self.generation.wrapping_add(1);
    }

    /// Begins to read the file and gives the generation. While a read is under way, the
    /// next is queued; after the end nothing is read.
    pub fn begin_reload(&mut self) -> (r: Option<u64>)
        ensures
            r == if old(self).reads_now() {
                Some(old(self).generation)
            } else {
                None
            },
            *final(self) == old(self).asked(),
    {
        if self.cancelled {
            return None;
        }
        if self.in_flight {
            self.reload_queued = true;
            return None;
        }
        self.in_flight = true;
        Some(self.generation)
    }

    /// Ends a read. Says whether what was read counts, and whether the file is read again.
    pub fn finish_reload(&mut self, generation: u64) -> (r: (bool, bool))
        ensures
            r == (old(self).counts(generation), old(self).reads_again()),
            *final(self) == old(self).after_read(),
    {
        self.in_flight = false;
        let apply = !self.cancelled && generation == self.generation;
        let rerun = !self.cancelled && self.reload_queued;
        self.reload_queued = false;
        (apply, rerun)
    }

    /// Ends the watch.
    pub fn cancel(&mut self)
        ensures
            *final(self) == old(self).ended(),
    {
        self.cancelled = true;
        self.reload_queued = false;
        self.generation = self.generation.wrapping_add(1);
    }

    /// Whether an error is shown: the first since the file was last read well.
    pub fn should_report_error(&mut self) -> (r: bool)
        ensures
            r == !old(self).error_reported,
            *final(self) == old(self).failed(),
    {
        if self.error_reported {
            return false;
        }
        self.error_reported = true;
        true
    }

    /// The file was read well.
    pub fn clear_error(&mut self)
        ensures
            *final(self) == old(self).read_well(),
    {
        self.error_reported = false;
    }
}

impl Default for LiveConfigWatchState {
    fn default() -> (r: LiveConfigWatchState)
        ensures
            r == (LiveConfigWatchState {
                generation: 0,
                in_flight: false,
                reload_queued: false,
                cancelled: false,
                error_reported: false,
            }),
    {
        LiveConfigWatchState::new()
    }
}

/// A change during a read makes the read stale, and the file is read again once it ends.
pub proof fn law_changes_during_a_read_are_read_again(watch: LiveConfigWatchState)
    requires
        watch.reads_now(),
    ensures
        ({
            let later = watch.asked().changed().asked();
            &&& !later.counts(watch.generation)
            &&& later.reads_again()
            &&& later.after_read().reads_now()
            &&& later.after_read().asked().counts(later.generation)
        }),
{
}

/// An error is shown once, until the file was read well.
pub proof fn law_an_error_is_shown_once(watch: LiveConfigWatchState)
    ensures
        watch.failed().error_reported,
        watch.failed().failed() == watch.failed(),
        !watch.failed().read_well().error_reported,
{
}

/// Nothing counts after the end of the watch: neither a read that was under way nor a
/// change.
pub proof fn law_the_end_is_final(watch: LiveConfigWatchState, generation: u64)
    ensures
        !watch.ended().counts(generation),
        !watch.ended().reads_again(),
        !watch.ended().after_read().changed().reads_now(),
        watch.ended().after_read().changed().asked() == watch.ended().after_read().changed(),
{
}

/// How bad a finding is.
#[derive(Clone, Copy, Debug, PartialEq, Eq, Structural)]
pub enum Severity {
    Error,
    Warning,
}

/// Something that the configuration's validation found.
#[derive(Clone, Debug, PartialEq, Eq)]
pub struct Finding {
    pub severity: Severity,
    pub message: String,
}

/// The message of the first error.
pub open spec fn first_error(findings: Seq<Finding>) -> Seq<char>
    decreases findings.len(),
{
    if findings.len() == 0 {
        "configuration validation failed"@
    } else if findings[0].severity == Severity::Error {
        findings[0].message@
    } else {
        first_error(findings.skip(1))
    }
}

/// The message of the first error; a general one where there is none.
pub fn config_error_message(findings: &Vec<Finding>) -> (r: String)
    ensures
        r@ == first_error(findings@),
{
    let ghost all = findings@;
    let mut i: usize = 0;
    assert(all.skip(0) =~= all);
    while i < findings.len()
        invariant
            all == findings@,
            i <= all.len(),
            first_error(all.skip(i as int)) == first_error(all),
        decreases all.len() - i,
    {
        assert(all.skip(i as int).skip(1) =~= all.skip(i + 1));
        if findings[i].severity == Severity::Error {
            return findings[i].message.clone();
        }
        i += 1;
    }
    "configuration validation failed".to_owned()
}

/// What reading the file brought.
pub enum ReloadResult {
    /// The file is valid.
    Valid,
    Invalid(Vec<Finding>),
    /// The file could not be read.
    WorkerFailed,
}

/// What follows from a read.
pub enum ReloadEffect {
    /// The read is stale, or its error was shown before.
    Nothing,
    /// The new configuration is taken over, and the user told so.
    Install,
    /// The user is told why it is not taken over.
    ShowError { message: String },
}

/// Ends a read: what follows from it, and whether the file is read again.
pub fn finish_live_config_reload(
    watch: &mut LiveConfigWatchState,
    generation: u64,
    result: &ReloadResult,
) -> (r: (ReloadEffect, bool))
    ensures
        r.1 == old(watch).reads_again(),
        ({
            let counts = old(watch).counts(generation);
            let good = counts && *result is Valid;
            let bad = counts && !(*result is Valid);
            let message = match *result {
                ReloadResult::Invalid(findings) => first_error(findings@),
                _ => "configuration worker failed"@,
            };
            &&& good <==> r.0 is Install
            &&& (r.0 matches ReloadEffect::ShowError { message: shown } ==> shown@
                == "Configuration not reloaded: "@ + message)
            &&& (bad && !old(watch).error_reported) <==> r.0 is ShowError
            &&& *final(watch) == (LiveConfigWatchState {
                in_flight: false,
                reload_queued: false,
                error_reported: (old(watch).error_reported || bad) && !good,
                ..*old(watch)
            })
        }),
{
    let (apply, rerun) = watch.finish_reload(generation);
    if !apply {
        return (ReloadEffect::Nothing, rerun);
    }
    let message = match result {
        ReloadResult::Valid => {
            watch.clear_error();
            return (ReloadEffect::Install, rerun);
        },
        ReloadResult::Invalid(findings) => config_error_message(findings),
        ReloadResult::WorkerFailed => "configuration worker failed".to_owned(),
    };
    if watch.should_report_error() {
        let mut shown = "Configuration not reloaded: ".to_owned();
        shown.append(message.as_str());
        (ReloadEffect::ShowError { message: shown }, rerun)
    } else {
        (ReloadEffect::Nothing, rerun)
    }
}

/// The file is read when it is asked for and no read runs; during a read the next is queued,
/// and after the end nothing is. What was read counts while the file did not change since.
pub proof fn law_when_the_file_is_read(watch: LiveConfigWatchState, generation: u64)
    ensures
        !watch.cancelled && !watch.in_flight ==> watch.reads_now() && watch.asked().in_flight
            && watch.asked().reload_queued == watch.reload_queued,
        !watch.cancelled && watch.in_flight ==> !watch.reads_now() && watch.asked().reload_queued
            && watch.asked().in_flight,
        watch.cancelled ==> !watch.reads_now() && watch.asked() == watch,
        !watch.cancelled ==> watch.counts(watch.generation),
        !watch.cancelled && generation != watch.generation ==> !watch.counts(generation),
        watch.changed().generation != watch.generation,
        !watch.after_read().in_flight && !watch.after_read().reload_queued,
        watch.after_read().generation == watch.generation,
        !watch.cancelled && watch.reload_queued ==> watch.reads_again(),
        !watch.reload_queued ==> !watch.reads_again(),
        watch.ended().cancelled,
        watch.failed().error_reported && !watch.read_well().error_reported,
        watch.changed().error_reported == watch.error_reported,
{
}

/// Of several findings the first error is told.
pub proof fn law_the_first_error_is_told(findings: Seq<Finding>, i: int)
    ensures
        0 <= i < findings.len() && findings[i].severity == Severity::Error && (forall|j: int|
            0 <= j < i ==> (#[trigger] findings[j]).severity != Severity::Error) ==> first_error(
            findings,
        ) == findings[i].message@,
        (forall|j: int|
            0 <= j < findings.len() ==> (#[trigger] findings[j]).severity != Severity::Error)
            ==> first_error(findings) == "configuration validation failed"@,
    decreases findings.len(),
{
    if findings.len() > 0 {
        let rest = findings.skip(1);
        law_the_first_error_is_told(rest, i - 1);
        if 0 < i < findings.len() && (forall|j: int|
            0 <= j < i ==> (#[trigger] findings[j]).severity != Severity::Error) {
            assert(findings[0].severity != Severity::Error);
            assert(rest[i - 1] == findings[i]);
            assert forall|j: int| 0 <= j < i - 1 implies (#[trigger] rest[j]).severity
                != Severity::Error by {
                assert(rest[j] == findings[j + 1]);
            }
        }
        if forall|j: int|
            0 <= j < findings.len() ==> (#[trigger] findings[j]).severity != Severity::Error {
            assert(findings[0].severity != Severity::Error);
            assert forall|j: int| 0 <= j < rest.len() implies (#[trigger] rest[j]).severity
                != Severity::Error by {
                assert(rest[j] == findings[j + 1]);
            }
        }
    }
}

/// The end of a watch takes back a queued read and starts another generation; a
/// read that is under way stays so, and whether an error was shown is not forgotten.
pub proof fn law_what_the_end_changes(watch: LiveConfigWatchState)
    ensures
        !watch.ended().reload_queued,
        watch.ended().generation != watch.generation,
        watch.ended().in_flight == watch.in_flight,
        watch.ended().error_reported == watch.error_reported,
{
}

} // verus!
