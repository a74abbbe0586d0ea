use vstd::prelude::*;

verus! {

/// The steps of the first-run wizard, in order.
#[derive(Debug, Clone, Copy, PartialEq, Eq, Structural)]
pub enum WizardStep {
    Welcome,
    Language,
    User,
    Network,
    Appearance,
    Done,
}

/// The wizard's steps in order.
pub open spec fn wizard_order() -> Seq<WizardStep> {
    seq![
        WizardStep::Welcome,
        WizardStep::Language,
        WizardStep::User,
        WizardStep::Network,
        WizardStep::Appearance,
        WizardStep::Done,
    ]
}

/// Position of a step in the wizard.
pub open spec fn step_index(s: WizardStep) -> int {
    match s {
        WizardStep::Welcome => 0,
        WizardStep::Language => 1,
        WizardStep::User => 2,
        WizardStep::Network => 3,
        WizardStep::Appearance => 4,
        WizardStep::Done => 5,
    }
}

/// The step after `s`, if any.
pub open spec fn next_step(s: WizardStep) -> Option<WizardStep> {
    if step_index(s) + 1 < 6 {
        Some(wizard_order()[step_index(s) + 1])
    } else {
        None
    }
}

/// The step before `s`, if any.
pub open spec fn prev_step(s: WizardStep) -> Option<WizardStep> {
    if step_index(s) > 0 {
        Some(wizard_order()[step_index(s) - 1])
    } else {
        None
    }
}

impl WizardStep {
    /// All steps in wizard order.
    pub fn all() -> (v: Vec<Self>)
        ensures
            v@ == wizard_order(),
    {
        let v: Vec<WizardStep> = vec![
            WizardStep::Welcome,
            WizardStep::Language,
            WizardStep::User,
            WizardStep::Network,
            WizardStep::Appearance,
            WizardStep::Done,
        ];
        proof {
            assert(v@ =~= wizard_order());
        }
        v
    }

    /// The following step; `None` at Done.
    pub fn next(self) -> (r: Option<Self>)
        ensures
            r == next_step(self),
    {
        match self {
            WizardStep::Welcome => Some(WizardStep::Language),
            WizardStep::Language => Some(WizardStep::User),
            WizardStep::User => Some(WizardStep::Network),
            WizardStep::Network => Some(WizardStep::Appearance),
            WizardStep::Appearance => Some(WizardStep::Done),
            WizardStep::Done => None,
        }
    }

    /// The previous step; `None` at Welcome.
    pub fn prev(self) -> (r: Option<Self>)
        ensures
            r == prev_step(self),
    {
        match self {
            WizardStep::Welcome => None,
            WizardStep::Language => Some(WizardStep::Welcome),
            WizardStep::User => Some(WizardStep::Language),
            WizardStep::Network => Some(WizardStep::User),
            WizardStep::Appearance => Some(WizardStep::Network),
            WizardStep::Done => Some(WizardStep::Appearance),
        }
    }

    /// Whether this is the last step (Done).
    pub fn is_last(self) -> (r: bool)
        ensures
            r == (self == WizardStep::Done),
            r == next_step(self).is_none(),
    {
        self == WizardStep::Done
    }
}

/// Going forward then back returns to the same step, and going back then
/// forward too: `next` and `prev` undo each other wherever they are defined.
pub proof fn lemma_next_prev_inverse(s: WizardStep)
    ensures
        next_step(s) matches Some(n) ==> prev_step(n) == Some(s),
        prev_step(s) matches Some(p) ==> next_step(p) == Some(s),
        wizard_order()[step_index(s)] == s,
{
}

} // verus!
