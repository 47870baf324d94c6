//! What the dashboard says about the daemon's health: what it remembers
//! between health reads, and the alerts each answer raises. Alerts mark a
//! change (the daemon failing, coming back, sources degrading), not every
//! poll that finds the same state.
use crate::app::DashboardHealthError;
use crate::app_group::{strings_equal, strs};
use crate::daemon::{HealthResponse, degraded_ids, degraded_providers};
use vstd::prelude::*;

verus! {

/// An alert the dashboard shows about the daemon.
#[derive(Clone, Debug)]
pub enum HealthAlert {
    /// The daemon answers again after a failure.
    BackendRestored,
    /// One library source is degraded: its id.
    SourceDegraded(String),
    /// Several library sources are degraded: how many.
    SourcesDegraded(usize),
    /// The daemon could not be reached.
    BackendUnavailable,
    /// The daemon answered with an error: the reason.
    BackendError(String),
    /// The daemon's answer could not be read: the reason.
    ProtocolMismatch(String),
    /// The library refresh that Retry asked for failed: the reason.
    RefreshFailed(String),
}

/// An alert, with its text as characters.
pub enum AlertView {
    BackendRestored,
    SourceDegraded(Seq<char>),
    SourcesDegraded(nat),
    BackendUnavailable,
    BackendError(Seq<char>),
    ProtocolMismatch(Seq<char>),
    RefreshFailed(Seq<char>),
}

impl View for HealthAlert {
    type V = AlertView;

    open spec fn view(&self) -> AlertView {
        match self {
            HealthAlert::BackendRestored => AlertView::BackendRestored,
            HealthAlert::SourceDegraded(id) => AlertView::SourceDegraded(id@),
            HealthAlert::SourcesDegraded(n) => AlertView::SourcesDegraded(*n as nat),
            HealthAlert::BackendUnavailable => AlertView::BackendUnavailable,
            HealthAlert::BackendError(reason) => AlertView::BackendError(reason@),
            HealthAlert::ProtocolMismatch(reason) => AlertView::ProtocolMismatch(reason@),
            HealthAlert::RefreshFailed(reason) => AlertView::RefreshFailed(reason@),
        }
    }
}

impl HealthAlert {
    /// Whether the alert offers Retry: every alert but the one saying the
    /// daemon is back.
    pub fn offers_retry(&self) -> (r: bool)
        ensures
            r == !(self is BackendRestored),
    {
        !matches!(self, HealthAlert::BackendRestored)
    }
}

/// The alerts, in order.
pub open spec fn alerts_view(alerts: Seq<HealthAlert>) -> Seq<AlertView> {
    alerts.map_values(|a: HealthAlert| a@)
}

/// What Retry asks of the daemon.
#[derive(Clone, Copy, Debug, PartialEq, Eq)]
pub enum RetryAction {
    /// Rescan the library: sources were degraded.
    RescanLibrary,
    /// Read the daemon's health again, at once.
    CheckHealth,
}

/// What the dashboard remembers between health reads.
pub struct HealthWatch {
    /// Whether the last read reached the daemon; `None` before the first
    /// answer and after Retry.
    pub backend_available: Option<bool>,
    /// The sources the last answer reported degraded.
    pub degraded_providers: Vec<String>,
    /// The health read whose answer counts; answers to older reads are
    /// dropped.
    pub generation: u64,
}

/// What the dashboard remembers, with the source ids as characters.
pub struct WatchView {
    pub backend_available: Option<bool>,
    pub degraded: Seq<Seq<char>>,
    pub generation: u64,
}

impl View for HealthWatch {
    type V = WatchView;

    open spec fn view(&self) -> WatchView {
        WatchView {
            backend_available: self.backend_available,
            degraded: strs(self.degraded_providers@),
            generation: self.generation,
        }
    }
}

impl Default for HealthWatch {
    fn default() -> (r: HealthWatch)
        ensures
            r@ == (WatchView { backend_available: None, degraded: seq![], generation: 0 }),
    {
        let r = HealthWatch { backend_available: None, degraded_providers: Vec::new(), generation: 0 };
        assert(strs(r.degraded_providers@) =~= seq![]);
        r
    }
}

/// A health answer as the dashboard reads it: the ids of the degraded
/// sources, or the case of the failure.
pub open spec fn answer_of(result: Result<HealthResponse, DashboardHealthError>) -> Result<
    Seq<Seq<char>>,
    DashboardHealthError,
> {
    match result {
        Ok(health) => Ok(degraded_ids(health.providers@)),
        Err(error) => Err(error),
    }
}

/// The alert for degraded sources: the source by name when there is one,
/// else how many.
pub open spec fn degraded_alert(degraded: Seq<Seq<char>>) -> AlertView {
    if degraded.len() == 1 {
        AlertView::SourceDegraded(degraded[0])
    } else {
        AlertView::SourcesDegraded(degraded.len())
    }
}

/// The alert for a failed health read.
pub open spec fn failure_alert(error: DashboardHealthError) -> AlertView {
    match error {
        DashboardHealthError::Unreachable => AlertView::BackendUnavailable,
        DashboardHealthError::Service(reason) => AlertView::BackendError(reason@),
        DashboardHealthError::Protocol(reason) => AlertView::ProtocolMismatch(reason@),
    }
}

/// The alerts an answer raises: that the daemon is back, after a failure;
/// that sources are degraded, when the degraded set changed and is not
/// empty; and a failure only when the daemon was not already known to fail.
pub open spec fn answer_alerts(w: WatchView, answer: Result<Seq<Seq<char>>, DashboardHealthError>) -> Seq<
    AlertView,
> {
    match answer {
        Ok(degraded) => {
            let restored = if w.backend_available == Some(false) {
                seq![AlertView::BackendRestored]
            } else {
                seq![]
            };
            if degraded != w.degraded && degraded.len() > 0 {
                restored.push(degraded_alert(degraded))
            } else {
                restored
            }
        },
        Err(error) => if w.backend_available != Some(false) {
            seq![failure_alert(error)]
        } else {
            seq![]
        },
    }
}

/// What the dashboard remembers after an answer.
pub open spec fn answer_state(w: WatchView, answer: Result<Seq<Seq<char>>, DashboardHealthError>) -> WatchView {
    match answer {
        Ok(degraded) => WatchView { backend_available: Some(true), degraded, generation: w.generation },
        Err(_) => WatchView { backend_available: Some(false), degraded: seq![], generation: w.generation },
    }
}

/// What the dashboard remembers after Retry: nothing of the daemon's state,
/// and a new generation when it reads the health again at once.
pub open spec fn retried(w: WatchView) -> WatchView {
    WatchView {
        backend_available: None,
        degraded: seq![],
        generation: if w.degraded.len() > 0 {
            w.generation
        } else {
            (w.generation + 1) as u64
        },
    }
}

impl HealthWatch {
    /// Takes the answer to health read `generation`. An answer to an older
    /// read changes nothing and raises nothing (`None`); the current one
    /// updates what is remembered and raises the alerts of
    /// [`answer_alerts`].
    pub fn on_health(&mut self, generation: u64, result: Result<HealthResponse, DashboardHealthError>) -> (r:
        Option<Vec<HealthAlert>>)
        ensures
            generation != old(self).generation ==> r is None && final(self)@ == old(self)@,
            generation == old(self).generation ==> (r matches Some(alerts) && alerts_view(alerts@)
                == answer_alerts(old(self)@, answer_of(result))),
            generation == old(self).generation ==> final(self)@ == answer_state(old(self)@, answer_of(result)),
    {
        if generation != self.generation {
            return None;
        }
        let ghost w = self@;
        let mut alerts: Vec<HealthAlert> = Vec::new();
        match result {
            Ok(health) => {
                if self.backend_available == Some(false) {
                    alerts.push(HealthAlert::BackendRestored);
                }
                let ghost restored = alerts@;
                let degraded = degraded_providers(&health);
                if !strings_equal(&degraded, &self.degraded_providers) {
                    if degraded.len() > 0 {
                        let alert = if degraded.len() == 1 {
                            HealthAlert::SourceDegraded(degraded[0].clone())
                        } else {
                            HealthAlert::SourcesDegraded(degraded.len())
                        };
                        assert(alert@ == degraded_alert(strs(degraded@)));
                        alerts.push(alert);
                        assert(alerts_view(alerts@) =~= alerts_view(restored).push(alert@));
                    }
                }
                self.backend_available = Some(true);
                self.degraded_providers = degraded;
                assert(alerts_view(restored) =~= (if w.backend_available == Some(false) {
                    seq![AlertView::BackendRestored]
                } else {
                    seq![]
                }));
            },
            Err(error) => {
                if self.backend_available != Some(false) {
                    let alert = match error {
                        DashboardHealthError::Unreachable => HealthAlert::BackendUnavailable,
                        DashboardHealthError::Service(reason) => HealthAlert::BackendError(reason),
                        DashboardHealthError::Protocol(reason) => HealthAlert::ProtocolMismatch(reason),
                    };
                    alerts.push(alert);
                }
                self.backend_available = Some(false);
                self.degraded_providers = Vec::new();
                assert(strs(self.degraded_providers@) =~= seq![]);
                assert(alerts_view(alerts@) =~= answer_alerts(w, answer_of(result)));
            },
        }
        Some(alerts)
    }

    /// Retry on an alert. What was known of the daemon is forgotten, so a
    /// Retry that does not help alerts again. With degraded sources the
    /// library is rescanned; otherwise the health is read again at once, as
    /// a new generation.
    pub fn retry(&mut self) -> (r: RetryAction)
        requires
            old(self).generation < u64::MAX,
        ensures
            r == (if old(self)@.degraded.len() > 0 {
                RetryAction::RescanLibrary
            } else {
                RetryAction::CheckHealth
            }),
            final(self)@ == retried(old(self)@),
    {
        let rescan = self.degraded_providers.len() > 0;
        self.backend_available = None;
        self.degraded_providers = Vec::new();
        assert(strs(self.degraded_providers@) =~= seq![]);
        if rescan {
            RetryAction::RescanLibrary
        } else {
            self.generation = self.generation + 1;
            RetryAction::CheckHealth
        }
    }

    /// The answer to the rescan Retry asked for: an alert when it failed. The
    /// health is read again after it, as a new generation, so only that
    /// read's answer counts.
    pub fn on_rescan(&mut self, result: Result<(), String>) -> (r: Option<HealthAlert>)
        requires
            old(self).generation < u64::MAX,
        ensures
            match result {
                Ok(()) => r is None,
                Err(reason) => r matches Some(a) && a@ == AlertView::RefreshFailed(reason@),
            },
            final(self)@ == (WatchView { generation: (old(self).generation + 1) as u64, ..old(self)@ }),
    {
        self.generation = self.generation + 1;
        match result {
            Ok(()) => None,
            Err(reason) => Some(HealthAlert::RefreshFailed(reason)),
        }
    }
}

/// A failing daemon alerts once: the failure that follows a failure raises
/// nothing.
pub proof fn a_failure_alerts_only_on_the_transition(
    w: WatchView,
    first: DashboardHealthError,
    second: DashboardHealthError,
)
    ensures
        answer_alerts(answer_state(w, Err(first)), Err(second)) == Seq::<AlertView>::empty(),
{
}

/// The daemon is announced back exactly when the answer before was a
/// failure.
pub proof fn restored_only_after_a_failure(w: WatchView, degraded: Seq<Seq<char>>)
    ensures
        answer_alerts(w, Ok(degraded)).len() > 0 && answer_alerts(w, Ok(degraded))[0]
            == AlertView::BackendRestored <==> w.backend_available == Some(false),
{
}

/// The same degraded sources reported twice alert once.
pub proof fn an_unchanged_degraded_set_alerts_once(w: WatchView, degraded: Seq<Seq<char>>)
    ensures
        answer_alerts(answer_state(w, Ok(degraded)), Ok(degraded)) == Seq::<AlertView>::empty(),
{
}

/// After Retry, a daemon that still fails alerts again.
pub proof fn a_retry_that_does_not_help_alerts_again(w: WatchView, error: DashboardHealthError)
    ensures
        answer_alerts(retried(w), Err(error)) == seq![failure_alert(error)],
{
}

} // verus!
