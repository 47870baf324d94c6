//! The launch overlay: visible from a launch request until it is dismissed.
use vstd::prelude::*;

verus! {

#[derive(Debug, Clone, PartialEq, Eq)]
pub enum LaunchState {
    Idle,
    Launching { title: String },
    Failed { title: String, error: String },
}

#[derive(Debug, Clone, PartialEq, Eq)]
pub enum Event {
    Start(String),
    Accepted,
    Failed(String),
    Dismiss,
}

#[derive(Debug, Clone, Copy, PartialEq, Eq, Structural)]
pub enum Effect {
    Nothing,
    Launch,
    DelayDismiss,
}

/// The overlay state after `event` arrives in state `s`.
pub open spec fn next_launch_state(s: LaunchState, event: Event) -> LaunchState {
    match event {
        Event::Start(title) => if s is Idle { LaunchState::Launching { title } } else { s },
        Event::Accepted => s,
        Event::Failed(error) => match s {
            LaunchState::Launching { title } => LaunchState::Failed { title, error },
            _ => s,
        },
        Event::Dismiss => LaunchState::Idle,
    }
}

/// What the caller has to do after `event` arrives in state `s`.
pub open spec fn launch_effect(s: LaunchState, event: Event) -> Effect {
    match event {
        Event::Start(_) => if s is Idle { Effect::Launch } else { Effect::Nothing },
        Event::Accepted => if s is Launching { Effect::DelayDismiss } else { Effect::Nothing },
        _ => Effect::Nothing,
    }
}

/// The title the overlay shows in state `s`.
pub open spec fn shown_title(s: LaunchState) -> Option<Seq<char>> {
    match s {
        LaunchState::Launching { title } => Some(title@),
        LaunchState::Failed { title, .. } => Some(title@),
        LaunchState::Idle => None,
    }
}

/// The error the overlay shows in state `s`.
pub open spec fn shown_error(s: LaunchState) -> Option<Seq<char>> {
    match s {
        LaunchState::Failed { error, .. } => Some(error@),
        _ => None,
    }
}

impl LaunchState {
    pub fn update(&mut self, event: Event) -> (effect: Effect)
        ensures
            *final(self) == next_launch_state(*old(self), event),
            effect == launch_effect(*old(self), event),
    {
        match event {
            Event::Start(title) => {
                if let LaunchState::Idle = self {
                    *self = LaunchState::Launching { title };
                    Effect::Launch
                } else {
                    Effect::Nothing
                }
            },
            Event::Accepted => {
                if let LaunchState::Launching { .. } = self {
                    Effect::DelayDismiss
                } else {
                    Effect::Nothing
                }
            },
            Event::Failed(error) => {
                let title = match &*self {
                    LaunchState::Launching { title } => Some(title.clone()),
                    _ => None,
                };
                if let Some(title) = title {
                    *self = LaunchState::Failed { title, error };
                }
                Effect::Nothing
            },
            Event::Dismiss => {
                *self = LaunchState::Idle;
                Effect::Nothing
            },
        }
    }

    pub fn is_visible(&self) -> (r: bool)
        ensures
            r == !(*self is Idle),
    {
        match self {
            LaunchState::Idle => false,
            _ => true,
        }
    }

    pub fn title(&self) -> (r: Option<&str>)
        ensures
            r is Some <==> shown_title(*self) is Some,
            r matches Some(t) ==> shown_title(*self) == Some(t@),
    {
        match self {
            LaunchState::Launching { title } => Some(title.as_str()),
            LaunchState::Failed { title, .. } => Some(title.as_str()),
            LaunchState::Idle => None,
        }
    }

    pub fn error(&self) -> (r: Option<&str>)
        ensures
            r is Some <==> shown_error(*self) is Some,
            r matches Some(e) ==> shown_error(*self) == Some(e@),
    {
        match self {
            LaunchState::Failed { error, .. } => Some(error.as_str()),
            _ => None,
        }
    }
}

/// A second start while the overlay is up changes nothing and launches
/// nothing: only one launch is in flight at a time.
pub proof fn duplicate_start_is_ignored(s: LaunchState, title: String)
    requires
        !(s is Idle),
    ensures
        next_launch_state(s, Event::Start(title)) == s,
        launch_effect(s, Event::Start(title)) == Effect::Nothing,
{
}

/// Results for a launch that is not showing (accepted or failed while idle)
/// open no overlay and ask for nothing.
pub proof fn stale_results_leave_the_overlay_closed(error: String)
    ensures
        next_launch_state(LaunchState::Idle, Event::Accepted) == LaunchState::Idle,
        next_launch_state(LaunchState::Idle, Event::Failed(error)) == LaunchState::Idle,
        launch_effect(LaunchState::Idle, Event::Accepted) == Effect::Nothing,
        launch_effect(LaunchState::Idle, Event::Failed(error)) == Effect::Nothing,
{
}

/// Once shown, the overlay stays visible with its title until it is dismissed,
/// and a dismissal always closes it.
pub proof fn overlay_stays_until_dismissed(s: LaunchState, event: Event)
    ensures
        !(s is Idle) && !(event is Dismiss) ==> !(next_launch_state(s, event) is Idle)
            && shown_title(next_launch_state(s, event)) == shown_title(s),
        event is Dismiss ==> next_launch_state(s, event) is Idle,
{
}


impl Default for LaunchState {
    /// No overlay.
    fn default() -> (r: Self)
        ensures
            r is Idle,
    {
        LaunchState::Idle
    }
}

} // verus!
