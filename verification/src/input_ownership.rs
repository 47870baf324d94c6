//! Who owns controller input: the frontend, or an application it launched.
//!
//! The state starts closed (`Checking`) and only a session report can open
//! it; every failure keeps input away from the frontend.
use vstd::prelude::*;
use crate::text::strip_prefix_str;

verus! {

#[derive(Clone, Copy, Debug, PartialEq, Eq, Structural)]
pub enum InputOwnership {
    Checking,
    Frontend,
    Launching,
    ManagedSession,
    Unfocused,
}

#[derive(Clone, Copy, Debug, PartialEq, Eq, Structural)]
pub enum Event {
    SessionObserved(bool),
    SessionCheckFailed,
    LaunchStarted,
    LaunchAccepted,
    LaunchFailed,
    FrontendFocused,
    FrontendUnfocused,
}

/// The ownership after `event` arrives in state `s`. Every pair not listed
/// leaves the state unchanged.
pub open spec fn next_ownership(s: InputOwnership, event: Event) -> InputOwnership {
    match event {
        Event::SessionObserved(true) => if s is Checking || s is Launching || s is ManagedSession {
            InputOwnership::ManagedSession
        } else {
            s
        },
        Event::SessionObserved(false) => if s is Checking || s is ManagedSession {
            InputOwnership::Frontend
        } else {
            s
        },
        Event::LaunchStarted => if s is Frontend { InputOwnership::Launching } else { s },
        Event::LaunchAccepted => if s is Launching { InputOwnership::ManagedSession } else { s },
        Event::LaunchFailed => if s is Launching { InputOwnership::Frontend } else { s },
        Event::FrontendFocused => if s is ManagedSession || s is Unfocused {
            InputOwnership::Frontend
        } else {
            s
        },
        Event::FrontendUnfocused => if s is Frontend || s is ManagedSession || s is Unfocused {
            InputOwnership::Unfocused
        } else {
            s
        },
        Event::SessionCheckFailed => s,
    }
}

impl InputOwnership {
    pub fn update(&mut self, event: Event)
        ensures
            *final(self) == next_ownership(*old(self), event),
    {
        let s = *self;
        let next = match event {
            Event::SessionObserved(true) => match s {
                InputOwnership::Checking | InputOwnership::Launching
                | InputOwnership::ManagedSession => InputOwnership::ManagedSession,
                _ => s,
            },
            Event::SessionObserved(false) => match s {
                InputOwnership::Checking | InputOwnership::ManagedSession => InputOwnership::Frontend,
                _ => s,
            },
            Event::LaunchStarted => match s {
                InputOwnership::Frontend => InputOwnership::Launching,
                _ => s,
            },
            Event::LaunchAccepted => match s {
                InputOwnership::Launching => InputOwnership::ManagedSession,
                _ => s,
            },
            Event::LaunchFailed => match s {
                InputOwnership::Launching => InputOwnership::Frontend,
                _ => s,
            },
            Event::FrontendFocused => match s {
                InputOwnership::ManagedSession | InputOwnership::Unfocused => InputOwnership::Frontend,
                _ => s,
            },
            Event::FrontendUnfocused => match s {
                InputOwnership::Frontend | InputOwnership::ManagedSession
                | InputOwnership::Unfocused => InputOwnership::Unfocused,
                _ => s,
            },
            Event::SessionCheckFailed => s,
        };
        *self = next;
    }

    pub fn frontend_has_control(self) -> (r: bool)
        ensures
            r == (self is Frontend),
    {
        match self {
            InputOwnership::Frontend => true,
            _ => false,
        }
    }
}

/// The daemon catalog id behind a frontend entry id, `None` unless the entry
/// id is `hearthdeck:` followed by a non-empty id.
pub fn managed_catalog_id(value: &str) -> (r: Option<&str>)
    ensures
        match r {
            Some(id) => id@.len() > 0 && value@ == managed_prefix() + id@,
            None => !(value@.len() > managed_prefix().len()
                && value@.subrange(0, managed_prefix().len() as int) == managed_prefix()),
        },
{
    proof {
        reveal_strlit("hearthdeck:");
        assert("hearthdeck:"@ =~= managed_prefix());
    }
    match strip_prefix_str(value, "hearthdeck:") {
        Some(rest) => {
            if rest.unicode_len() == 0 {
                None
            } else {
                Some(rest)
            }
        },
        None => None,
    }
}

pub open spec fn managed_prefix() -> Seq<char> {
    seq!['h', 'e', 'a', 'r', 't', 'h', 'd', 'e', 'c', 'k', ':']
}

/// Nothing but a report that no session is running hands input to the
/// frontend from the startup check: focus changes and failed checks leave it
/// closed.
pub proof fn startup_stays_closed_until_a_session_report(event: Event)
    ensures
        !(event is SessionObserved) ==> next_ownership(InputOwnership::Checking, event)
            == InputOwnership::Checking,
{
}

/// A failed session check never changes who owns input.
pub proof fn failed_check_changes_nothing(s: InputOwnership)
    ensures
        next_ownership(s, Event::SessionCheckFailed) == s,
{
}

/// The frontend gains control only from a report that no session runs (out of
/// the startup check or a running session), a failed launch, or focus returning
/// after a session or a focus loss.
pub proof fn control_is_gained_only_by_listed_events(s: InputOwnership, event: Event)
    ensures
        !(s is Frontend) && next_ownership(s, event) is Frontend ==> {
            ||| event == Event::SessionObserved(false) && (s is Checking || s is ManagedSession)
            ||| event == Event::LaunchFailed && s is Launching
            ||| event == Event::FrontendFocused && (s is ManagedSession || s is Unfocused)
        },
{
}

/// A launch starts only while the frontend holds control, and a report that
/// no session is running cannot hand control back while a launch is pending.
pub proof fn launches_start_only_from_the_frontend(s: InputOwnership)
    ensures
        next_ownership(s, Event::LaunchStarted) is Launching <==> (s is Frontend || s is Launching),
        next_ownership(InputOwnership::Launching, Event::SessionObserved(false))
            == InputOwnership::Launching,
{
}


impl Default for InputOwnership {
    /// At startup nobody has control until the session state is known.
    fn default() -> (r: Self)
        ensures
            r == InputOwnership::Checking,
    {
        InputOwnership::Checking
    }
}

} // verus!
