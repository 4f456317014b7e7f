//! The link monitor: when a run of failed probes means that the link is
//! down, and when a probe that succeeds means that it is back.

use vstd::prelude::*;

verus! {

/// A change of the state of the link.
#[derive(Debug, Clone, Copy, PartialEq, Eq, Structural)]
pub enum LinkTransition {
    /// The link is back.
    LinkUp,
    /// The link is down.
    LinkDown,
}

/// The state of the link monitor.
#[derive(Debug, Clone, Copy, PartialEq, Eq, Structural)]
pub struct LinkMonitor {
    /// How many probes in a row have to fail before the link counts as down.
    pub max_consecutive_fails: u8,
    /// How many probes in a row have failed while the link counted as up.
    pub consecutive_fails: u8,
    /// Whether the link counts as down.
    pub bad_state: bool,
}

/// The monitor after a probe, and the transition it reports.
///
/// While the link counts as up, a probe that succeeds clears the count and
/// a probe that fails adds to it; the failure that brings the count to the
/// maximum takes the link down, and that is reported once. While the link
/// counts as down, failures change nothing, and the first probe that
/// succeeds brings the link back, which is reported once.
pub open spec fn after_probe(monitor: LinkMonitor, success: bool) -> (
    LinkMonitor,
    Option<LinkTransition>,
) {
    if success {
        (
            LinkMonitor { consecutive_fails: 0, bad_state: false, ..monitor },
            if monitor.bad_state {
                Some(LinkTransition::LinkUp)
            } else {
                None
            },
        )
    } else if monitor.bad_state || monitor.consecutive_fails >= monitor.max_consecutive_fails {
        (monitor, None)
    } else if monitor.consecutive_fails + 1 == monitor.max_consecutive_fails {
        (
            LinkMonitor {
                consecutive_fails: (monitor.consecutive_fails + 1) as u8,
                bad_state: true,
                ..monitor
            },
            Some(LinkTransition::LinkDown),
        )
    } else {
        (LinkMonitor { consecutive_fails: (monitor.consecutive_fails + 1) as u8, ..monitor }, None)
    }
}

impl LinkMonitor {
    /// A monitor of a link that counts as up.
    pub fn new(max_consecutive_fails: u8) -> (monitor: Self)
        ensures
            monitor == (LinkMonitor { max_consecutive_fails, consecutive_fails: 0, bad_state: false }),
    {
        Self { max_consecutive_fails, consecutive_fails: 0, bad_state: false }
    }

    /// Handles the result of a probe of the monitor target.
    pub fn on_probe(&mut self, success: bool) -> (transition: Option<LinkTransition>)
        ensures
            (*final(self), transition) == after_probe(*old(self), success),
    {
        if success {
            let was_down = self.bad_state;
            self.consecutive_fails = 0;
            self.bad_state = false;
            if was_down {
                Some(LinkTransition::LinkUp)
            } else {
                None
            }
        } else if self.bad_state || self.consecutive_fails >= self.max_consecutive_fails {
            None
        } else {
            self.consecutive_fails += 1;
            if self.consecutive_fails == self.max_consecutive_fails {
                self.bad_state = true;
                Some(LinkTransition::LinkDown)
            } else {
                None
            }
        }
    }
}

/// A transition is reported only where the state of the link changes, and
/// names the state it changes to: between two reports of `LinkDown` lies a
/// report of `LinkUp`, and the other way round.
pub proof fn lemma_transitions_alternate(monitor: LinkMonitor, success: bool)
    ensures
        after_probe(monitor, success).1 == Some(LinkTransition::LinkDown) <==> !monitor.bad_state
            && after_probe(monitor, success).0.bad_state,
        after_probe(monitor, success).1 == Some(LinkTransition::LinkUp) <==> monitor.bad_state
            && !after_probe(monitor, success).0.bad_state,
        after_probe(monitor, success).1.is_none() <==> monitor.bad_state == after_probe(
            monitor,
            success,
        ).0.bad_state,
{
}

} // verus!
