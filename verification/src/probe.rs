//! The last known result of a repeated probe, and how it changes.

use vstd::prelude::*;
use vstd::std_specs::cmp::PartialEqSpec;
use vstd::string::*;
use crate::text::same_text;

verus! {

/// How far the last value of a probe can be relied on.
#[derive(Clone, Copy, Debug, Default, PartialEq, Eq, Structural)]
pub enum ProbeState {
    Okay,
    Stale,
    #[default]
    Unknown,
    Error,
}

impl ProbeState {
    /// The state's name.
    pub open spec fn name(self) -> Seq<char> {
        match self {
            ProbeState::Okay => "ok"@,
            ProbeState::Stale => "stale"@,
            ProbeState::Unknown => "unknown"@,
            ProbeState::Error => "error"@,
        }
    }

    /// Whether the last check failed.
    pub open spec fn degraded(self) -> bool {
        self == ProbeState::Stale || self == ProbeState::Error
    }

    /// The state's name.
    pub fn label(self) -> (r: &'static str)
        ensures
            r@ == self.name(),
    {
        match self {
            ProbeState::Okay => "ok",
            ProbeState::Stale => "stale",
            ProbeState::Unknown => "unknown",
            ProbeState::Error => "error",
        }
    }

    /// Whether the last check failed.
    pub fn is_degraded(self) -> (r: bool)
        ensures
            r == self.degraded(),
    {
        match self {
            ProbeState::Stale | ProbeState::Error => true,
            ProbeState::Okay | ProbeState::Unknown => false,
        }
    }
}

/// The states before and after a recorded check.
#[derive(Clone, Debug, PartialEq, Eq)]
pub struct ProbeTransition {
    pub previous: ProbeState,
    pub current: ProbeState,
}

impl ProbeTransition {
    /// Whether the state is another one.
    pub fn changed(&self) -> (r: bool)
        ensures
            r == (self.previous != self.current),
    {
        self.previous != self.current
    }

    /// Whether the probe had not failed before and has now.
    pub fn entered_degraded(&self) -> (r: bool)
        ensures
            r == (!self.previous.degraded() && self.current.degraded()),
    {
        !self.previous.is_degraded() && self.current.is_degraded()
    }

    /// Whether the probe had failed before and has now succeeded.
    pub fn recovered(&self) -> (r: bool)
        ensures
            r == (self.previous.degraded() && self.current == ProbeState::Okay),
    {
        self.previous.is_degraded() && self.current == ProbeState::Okay
    }
}

/// The last known result of a probe: its value, when it was seen, when the last check
/// was made, and the error of that check.
#[derive(Clone, Debug, PartialEq)]
pub struct ProbeSnapshot<T> {
    pub state: ProbeState,
    pub value: Option<T>,
    pub observed_at_unix_ms: Option<u64>,
    pub checked_at_unix_ms: Option<u64>,
    pub error: Option<String>,
}

impl<T> Default for ProbeSnapshot<T> {
    fn default() -> (r: Self)
        ensures
            r.is_unknown(),
    {
        ProbeSnapshot::unknown()
    }
}

/// The milliseconds since the Unix epoch that the system clock gives
/// (`std::time::SystemTime::now`), 0 where the clock stands before the epoch. Nothing is
/// claimed of the reading.
#[verifier::external_body]
pub(crate) fn unix_time_ms() -> u64 {
    std::time::SystemTime::now()
        .duration_since(std::time::UNIX_EPOCH)
        .unwrap_or_default()
        .as_millis() as u64
}

impl<T> ProbeSnapshot<T> {
    /// Nothing has been checked yet.
    pub open spec fn is_unknown(self) -> bool {
        &&& self.state == ProbeState::Unknown
        &&& self.value is None
        &&& self.observed_at_unix_ms is None
        &&& self.checked_at_unix_ms is None
        &&& self.error is None
    }

    /// A snapshot is consistent: its state says whether there is a value and an error.
    pub open spec fn wf(self) -> bool {
        &&& self.state == ProbeState::Okay ==> self.value is Some && self.error is None
        &&& self.state == ProbeState::Stale ==> self.value is Some && self.error is Some
        &&& self.state == ProbeState::Error ==> self.value is None && self.error is Some
        &&& self.state == ProbeState::Unknown ==> self.value is None && self.error is None
        &&& self.value is Some <==> self.observed_at_unix_ms is Some
        &&& self.state != ProbeState::Unknown <==> self.checked_at_unix_ms is Some
    }

    /// The state that a failed check leads to: an earlier value stays, but is stale.
    pub open spec fn state_after_failure(self) -> ProbeState {
        if self.value is Some {
            ProbeState::Stale
        } else {
            ProbeState::Error
        }
    }

    /// The snapshot after a check at `now` that gave `value`.
    pub open spec fn succeeded(self, value: T, now: u64) -> ProbeSnapshot<T> {
        ProbeSnapshot {
            state: ProbeState::Okay,
            value: Some(value),
            observed_at_unix_ms: Some(now),
            checked_at_unix_ms: Some(now),
            error: None,
        }
    }

    /// Whether `next` is this snapshot after a check at `now` that failed with `error`.
    pub open spec fn failed(self, error: Seq<char>, now: u64, next: ProbeSnapshot<T>) -> bool {
        &&& next.state == self.state_after_failure()
        &&& next.value == self.value
        &&& next.observed_at_unix_ms == self.observed_at_unix_ms
        &&& next.checked_at_unix_ms == Some(now)
        &&& next.error.deep_view() == Some(error)
    }

    /// Whether what is shown of this snapshot changes by a success with `value`.
    pub open spec fn shows_success(self, same_value: bool) -> bool {
        !same_value || self.state != ProbeState::Okay || self.error is Some
    }

    /// Whether what is shown of this snapshot changes by a failure with `error`.
    pub open spec fn shows_failure(self, error: Seq<char>) -> bool {
        self.state != self.state_after_failure() || self.error.deep_view() != Some(error)
    }

    /// Nothing has been checked yet.
    pub fn unknown() -> (r: Self)
        ensures
            r.is_unknown(),
            r.wf(),
    {
        ProbeSnapshot {
            state: ProbeState::Unknown,
            value: None,
            observed_at_unix_ms: None,
            checked_at_unix_ms: None,
            error: None,
        }
    }

    /// The last value that was seen.
    pub fn value(&self) -> (r: Option<&T>)
        ensures
            r is Some <==> self.value is Some,
            r matches Some(v) ==> self.value == Some(*v),
    {
        match &self.value {
            Some(v) => Some(v),
            None => None,
        }
    }

    /// The snapshot without what its value holds.
    pub fn unit_meta(&self) -> (r: ProbeSnapshot<()>)
        ensures
            r.state == self.state,
            r.value is Some <==> self.value is Some,
            r.observed_at_unix_ms == self.observed_at_unix_ms,
            r.checked_at_unix_ms == self.checked_at_unix_ms,
            r.error == self.error,
    {
        ProbeSnapshot {
            state: self.state,
            value: match &self.value {
                Some(_) => Some(()),
                None => None,
            },
            observed_at_unix_ms: self.observed_at_unix_ms,
            checked_at_unix_ms: self.checked_at_unix_ms,
            error: match &self.error {
                Some(e) => Some(e.clone()),
                None => None,
            },
        }
    }

    /// Record a check at `now` that gave `value`.
    pub fn record_success_at(&mut self, value: T, now: u64) -> (r: ProbeTransition)
        ensures
            *final(self) == old(self).succeeded(value, now),
            final(self).wf(),
            r.previous == old(self).state,
            r.current == final(self).state,
    {
        let transition = ProbeTransition { previous: self.state, current: ProbeState::Okay };
        self.state = ProbeState::Okay;
        self.value = Some(value);
        self.observed_at_unix_ms = Some(now);
        self.checked_at_unix_ms = Some(now);
        self.error = None;
        transition
    }

    /// Record a check at `now` that failed with `error`. An earlier value is kept.
    pub fn record_failure_at(&mut self, error: &str, now: u64) -> (r: ProbeTransition)
        ensures
            old(self).failed(error@, now, *final(self)),
            old(self).wf() ==> final(self).wf(),
            r.previous == old(self).state,
            r.current == final(self).state,
    {
        let next = if self.value.is_some() {
            ProbeState::Stale
        } else {
            ProbeState::Error
        };
        let transition = ProbeTransition { previous: self.state, current: next };
        self.state = next;
        self.checked_at_unix_ms = Some(now);
        self.error = Some(error.to_owned());
        transition
    }

    /// Record a check, made just now, that gave `value`.
    pub fn record_success(&mut self, value: T) -> (r: ProbeTransition)
        ensures
            exists|now: u64| *final(self) == #[trigger] old(self).succeeded(value, now),
            final(self).wf(),
            r.previous == old(self).state,
            r.current == final(self).state,
    {
        let now: u64 = unix_time_ms();
        self.record_success_at(value, now)
    }

    /// Record a check, made just now, that failed with `error`.
    pub fn record_failure(&mut self, error: &str) -> (r: ProbeTransition)
        ensures
            exists|now: u64| #[trigger] old(self).failed(error@, now, *final(self)),
            old(self).wf() ==> final(self).wf(),
            r.previous == old(self).state,
            r.current == final(self).state,
    {
        let now: u64 = unix_time_ms();
        self.record_failure_at(error, now)
    }

    /// Like [`Self::record_success`], and reports whether what is shown has changed: the
    /// value, the state, or that there is an error. Callers draw again only if so.
    pub fn record_success_reporting(&mut self, value: T) -> (r: (ProbeTransition, bool)) where
        T: PartialEq,

        ensures
            exists|now: u64| *final(self) == #[trigger] old(self).succeeded(value, now),
            final(self).wf(),
            r.0.previous == old(self).state,
            r.0.current == final(self).state,
            T::obeys_eq_spec() ==> r.1 == old(self).shows_success(
                old(self).value matches Some(v) && v.eq_spec(&value),
            ),
            old(self).value is None || old(self).shows_success(true) ==> r.1,
    {
        let shown = self.state != ProbeState::Okay || self.error.is_some();
        let same_value = match &self.value {
            Some(v) => v.eq(&value),
            None => false,
        };
        let transition = self.record_success(value);
        (transition, !same_value || shown)
    }

    /// Like [`Self::record_failure`], and reports whether what is shown has changed: the
    /// state or the text of the error.
    pub fn record_failure_reporting(&mut self, error: &str) -> (r: (ProbeTransition, bool))
        ensures
            exists|now: u64| #[trigger] old(self).failed(error@, now, *final(self)),
            old(self).wf() ==> final(self).wf(),
            r.0.previous == old(self).state,
            r.0.current == final(self).state,
            r.1 == old(self).shows_failure(error@),
    {
        let same_error = match &self.error {
            Some(e) => same_text(e.as_str(), error),
            None => false,
        };
        let previous = self.state;
        let transition = self.record_failure(error);
        (transition, previous != self.state || !same_error)
    }
}

/// A success after any failures brings the probe back: the state is good, the error is
/// gone, and the transition reports a recovery where there was a failure before.
pub proof fn law_success_recovers<T>(before: ProbeSnapshot<T>, value: T, now: u64)
    ensures
        before.succeeded(value, now).wf(),
        before.succeeded(value, now).state == ProbeState::Okay,
        before.succeeded(value, now).error is None,
        before.succeeded(value, now).value == Some(value),
{
}

/// A failure never loses the last value, and the time when it was seen stays.
pub proof fn law_failure_keeps_the_last_value<T>(
    before: ProbeSnapshot<T>,
    after: ProbeSnapshot<T>,
    error: Seq<char>,
    now: u64,
)
    requires
        before.failed(error, now, after),
    ensures
        after.value == before.value,
        after.observed_at_unix_ms == before.observed_at_unix_ms,
        after.state.degraded(),
{
}

/// What has been reported once is not reported again: the same failure after itself,
/// and the same value after itself, change nothing that is shown.
pub proof fn law_repeated_result_is_not_shown_again<T>(
    before: ProbeSnapshot<T>,
    failed: ProbeSnapshot<T>,
    error: Seq<char>,
    value: T,
    now: u64,
)
    requires
        before.failed(error, now, failed),
    ensures
        !failed.shows_failure(error),
        !before.succeeded(value, now).shows_success(true),
        failed.shows_success(true),
{
}

/// The names of the states, and which of them say that something is wrong.
pub proof fn law_states_of_probes()
    ensures
        ProbeState::Okay.name() == "ok"@ && !ProbeState::Okay.degraded(),
        ProbeState::Stale.name() == "stale"@ && ProbeState::Stale.degraded(),
        ProbeState::Unknown.name() == "unknown"@ && !ProbeState::Unknown.degraded(),
        ProbeState::Error.name() == "error"@ && ProbeState::Error.degraded(),
{
}

/// A failure makes a known value stale, and is an error where none is known; a success is
/// observed when it is checked.
pub proof fn law_results_of_probes<T>(
    before: ProbeSnapshot<T>,
    after: ProbeSnapshot<T>,
    value: T,
    error: Seq<char>,
    now: u64,
)
    ensures
        before.failed(error, now, after) && before.value is Some ==> after.state
            == ProbeState::Stale,
        before.failed(error, now, after) && before.value is None ==> after.state
            == ProbeState::Error,
        before.failed(error, now, after) ==> after.checked_at_unix_ms == Some(now)
            && after.error.deep_view() == Some(error),
        before.succeeded(value, now).observed_at_unix_ms == Some(now),
        before.succeeded(value, now).checked_at_unix_ms == Some(now),
{
}

/// What is shown changes with a new value, with a recovery, and with a failure that was not
/// shown yet.
pub proof fn law_what_changes_the_display<T>(before: ProbeSnapshot<T>, error: Seq<char>)
    ensures
        before.shows_success(false),
        before.state != ProbeState::Okay ==> before.shows_success(true),
        before.state == ProbeState::Okay && before.error is None ==> !before.shows_success(true),
        before.state == ProbeState::Okay || before.state == ProbeState::Unknown
            ==> before.shows_failure(error),
        before.error.deep_view() != Some(error) ==> before.shows_failure(error),
{
}

/// Before the first check a probe is in the state for that: there is no value, no
/// error and no time of a check, which is consistent.
pub proof fn law_before_the_first_check<T>(snapshot: ProbeSnapshot<T>)
    ensures
        snapshot.is_unknown() <==> snapshot.wf() && snapshot.state == ProbeState::Unknown,
        snapshot.is_unknown() ==> snapshot.value is None && snapshot.error is None
            && snapshot.observed_at_unix_ms is None && snapshot.checked_at_unix_ms is None,
{
}

} // verus!
