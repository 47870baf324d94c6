//! The on-screen keyboard: at most one show or hide request in flight, and
//! only toward a state different from the one showing.
use vstd::prelude::*;

verus! {

#[derive(Clone, Copy, Debug, PartialEq, Eq, Structural)]
pub struct VirtualKeyboard {
    pub visible: bool,
    pub requested_visible: bool,
    pub pending_target: Option<bool>,
}

/// The toggle that should be sent now, if any: none while one is pending or
/// when the keyboard already shows what was requested.
pub open spec fn toggle_due(k: VirtualKeyboard) -> Option<bool> {
    if k.pending_target is Some || k.visible == k.requested_visible {
        None
    } else {
        Some(k.requested_visible)
    }
}

/// The keyboard after deciding on the next toggle.
pub open spec fn after_toggle(k: VirtualKeyboard) -> VirtualKeyboard {
    match toggle_due(k) {
        Some(t) => VirtualKeyboard { pending_target: Some(t), ..k },
        None => k,
    }
}

impl VirtualKeyboard {
    /// Asks for the keyboard to be shown or hidden; returns the toggle to send.
    pub fn request(&mut self, visible: bool) -> (r: Option<bool>)
        ensures
            ({
                let asked = VirtualKeyboard { requested_visible: visible, ..*old(self) };
                &&& r == toggle_due(asked)
                &&& *final(self) == after_toggle(asked)
            }),
    {
        self.requested_visible = visible;
        self.next_toggle()
    }

    /// Records the outcome of the toggle toward `target`; returns the next
    /// toggle to send. An answer for a toggle that is not pending is ignored.
    pub fn complete(&mut self, target: bool, succeeded: bool) -> (r: Option<bool>)
        ensures
            old(self).pending_target != Some(target) ==> r is None && *final(self) == *old(self),
            old(self).pending_target == Some(target) && !succeeded ==> r is None
                && *final(self) == (VirtualKeyboard { pending_target: None, ..*old(self) }),
            old(self).pending_target == Some(target) && succeeded ==> ({
                let shown = VirtualKeyboard { pending_target: None, visible: target, ..*old(self) };
                &&& r == toggle_due(shown)
                &&& *final(self) == after_toggle(shown)
            }),
    {
        let pending_matches = match self.pending_target {
            Some(p) => p == target,
            None => false,
        };
        if !pending_matches {
            return None;
        }
        self.pending_target = None;
        if !succeeded {
            return None;
        }
        self.visible = target;
        self.next_toggle()
    }

    /// The user closed the keyboard some other way: nothing is shown,
    /// requested or pending any more.
    pub fn did_dismiss_externally(&mut self)
        ensures
            *final(self) == (VirtualKeyboard {
                visible: false,
                requested_visible: false,
                pending_target: None,
            }),
    {
        self.visible = false;
        self.requested_visible = false;
        self.pending_target = None;
    }

    pub fn next_toggle(&mut self) -> (r: Option<bool>)
        ensures
            r == toggle_due(*old(self)),
            *final(self) == after_toggle(*old(self)),
    {
        if self.pending_target.is_some() || self.visible == self.requested_visible {
            return None;
        }
        self.pending_target = Some(self.requested_visible);
        self.pending_target
    }
}

/// A toggle is only ever sent when none is pending, it becomes the pending
/// one, and it always moves the keyboard away from what it shows.
pub proof fn one_toggle_in_flight(k: VirtualKeyboard)
    ensures
        toggle_due(k) matches Some(t) ==> {
            &&& k.pending_target is None
            &&& t != k.visible
            &&& after_toggle(k).pending_target == Some(t)
        },
        k.pending_target is Some ==> toggle_due(k) is None && after_toggle(k) == k,
{
}


impl Default for VirtualKeyboard {
    /// Hidden, with nothing requested and nothing in flight.
    fn default() -> (r: Self)
        ensures
            r == (VirtualKeyboard { visible: false, requested_visible: false, pending_target: None }),
    {
        VirtualKeyboard { visible: false, requested_visible: false, pending_target: None }
    }
}

} // verus!
