//! The dash's charges: when a press fires the dash, whether it spends the
//! banked bonus charge or starts the cooldown, what a granted charge does,
//! and the once-per-dash trigger for sound and effects. The controller
//! owns the timer and the motion and says whether the dash is recharged.

use vstd::prelude::*;

verus! {

/// What a dash press did.
#[derive(Debug, Clone, Copy, PartialEq, Eq, Structural)]
pub enum DashTrigger {
    /// No dash: disabled, still cooling down, or no press.
    Idle,
    /// Dashed on the banked charge: the cooldown does not start.
    Banked,
    /// Dashed normally: the cooldown starts.
    Cooldown,
}

pub struct DashState {
    /// A banked bonus dash (powerups): the next dash consumes it instead
    /// of starting the cooldown.
    pub extra_dash: bool,
    /// A dash fired since the last `just_dashed`.
    pub dashed: bool,
}

/// What a press does to the dash: fire it when it is enabled and
/// recharged, on the banked charge if there is one.
pub open spec fn trigger_outcome(s: DashState, enabled: bool, recharged: bool, pressed: bool) -> (
    DashTrigger,
    DashState,
) {
    if enabled && recharged && pressed {
        if s.extra_dash {
            (DashTrigger::Banked, DashState { extra_dash: false, dashed: true })
        } else {
            (DashTrigger::Cooldown, DashState { extra_dash: false, dashed: true })
        }
    } else {
        (DashTrigger::Idle, s)
    }
}

impl DashState {
    pub fn new() -> (s: Self)
        ensures
            !s.extra_dash,
            !s.dashed,
    {
        DashState { extra_dash: false, dashed: false }
    }

    /// A dash press (Space or Shift) this frame, with the dash enabled or
    /// not and its cooldown elapsed or not.
    pub fn trigger(&mut self, enabled: bool, recharged: bool, pressed: bool) -> (t: DashTrigger)
        ensures
            (t, *final(self)) == trigger_outcome(*old(self), enabled, recharged, pressed),
    {
        if enabled && recharged && pressed {
            let t = if self.extra_dash {
                DashTrigger::Banked
            } else {
                DashTrigger::Cooldown
            };
            self.extra_dash = false;
            self.dashed = true;
            t
        } else {
            DashTrigger::Idle
        }
    }

    /// Bank a bonus dash (powerup pickup): if the dash is recharged it is
    /// held as an extra charge; otherwise the answer `true` tells the
    /// controller to finish the recharge instantly.
    pub fn grant(&mut self, recharged: bool) -> (refill: bool)
        ensures
            refill == !recharged,
            recharged ==> final(self).extra_dash,
            !recharged ==> final(self).extra_dash == old(self).extra_dash,
            final(self).dashed == old(self).dashed,
    {
        if recharged {
            self.extra_dash = true;
            false
        } else {
            true
        }
    }

    /// True once per dash — take-and-clear, for sound/FX triggers.
    pub fn just_dashed(&mut self) -> (r: bool)
        ensures
            r == old(self).dashed,
            !final(self).dashed,
            final(self).extra_dash == old(self).extra_dash,
    {
        let r = self.dashed;
        self.dashed = false;
        r
    }
}

/// A banked dash spends itself, not the cooldown: granted while recharged,
/// the next press dashes on the bank, and since the cooldown never started
/// the press after that dashes again, this time starting the cooldown.
pub proof fn lemma_banked_dash_spends_itself(s: DashState)
    ensures
        ({
            let banked = DashState { extra_dash: true, ..s };
            let (first, after) = trigger_outcome(banked, true, true, true);
            let (second, later) = trigger_outcome(after, true, true, true);
            &&& first == DashTrigger::Banked
            &&& !after.extra_dash
            &&& second == DashTrigger::Cooldown
        }),
{
}

/// Nothing fires while the dash is disabled or cooling down, and then the
/// state is untouched.
pub proof fn lemma_no_dash_without_charge(
    s: DashState,
    enabled: bool,
    recharged: bool,
    pressed: bool,
)
    requires
        !enabled || !recharged || !pressed,
    ensures
        trigger_outcome(s, enabled, recharged, pressed) == (DashTrigger::Idle, s),
{
}

/// Every dash is reported: a press that fires leaves the once-per-dash
/// flag set.
pub proof fn lemma_dash_reported(s: DashState)
    ensures
        trigger_outcome(s, true, true, true).1.dashed,
        trigger_outcome(s, true, true, true).0 != DashTrigger::Idle,
{
}

} // verus!
