use crate::store::{without_id, without_value, Toasts};
use crate::toast::Toast;
use vstd::prelude::*;

verus! {

/// How long a toast is shown before it dismisses itself, in milliseconds.
pub const AUTO_DISMISS_MS: u32 = 5000;

/// How long the fade-out lasts, in milliseconds: the time between the start
/// of a dismissal and the removal of the entry.
pub const FADE_OUT_MS: u32 = 200;

/// What started the dismissal of a toast.
#[derive(Clone, Copy, PartialEq, Eq, Debug, Structural)]
pub enum Trigger {
    /// The time of `AUTO_DISMISS_MS` ran out.
    Timer,
    /// The close button was pressed.
    Close,
}

/// Where a rendered toast stands in its life.
#[derive(Clone, Copy, PartialEq, Eq, Debug, Structural)]
pub enum Phase {
    /// Shown; neither the timer nor the close button has fired.
    Visible,
    /// Fading out since the given trigger fired.
    Dismissing(Trigger),
    /// The fade-out is over and the removal of the entry was asked for.
    Removed,
}

/// What can happen to a rendered toast.
#[derive(Clone, Copy, PartialEq, Eq, Debug, Structural)]
pub enum Event {
    /// `AUTO_DISMISS_MS` have passed since the toast was rendered.
    TimerElapsed,
    /// The close button was pressed.
    CloseClicked,
    /// `FADE_OUT_MS` have passed since a fade-out began.
    FadeElapsed,
}

/// What the renderer is to do after an event.
#[derive(Clone, Copy, PartialEq, Eq, Debug, Structural)]
pub enum Action {
    /// Nothing.
    Nothing,
    /// Put the fade-out on the toast's element, and report `FadeElapsed`
    /// after `FADE_OUT_MS`.
    BeginFade,
    /// Remove from the store the entries that equal the toast.
    RemoveByValue,
    /// Remove from the store the entry with the toast's identifier.
    RemoveById,
}

/// The life cycle of a rendered toast: the phase that follows `phase` on
/// `event`, and what is to be done. The trigger that fires first starts the
/// fade-out and decides how the entry is removed; a trigger that fires later
/// changes nothing, and nothing happens once the toast is removed.
pub open spec fn transition(phase: Phase, event: Event) -> (Phase, Action) {
    match (phase, event) {
        (Phase::Visible, Event::TimerElapsed) => (Phase::Dismissing(Trigger::Timer), Action::BeginFade),
        (Phase::Visible, Event::CloseClicked) => (Phase::Dismissing(Trigger::Close), Action::BeginFade),
        (Phase::Dismissing(Trigger::Timer), Event::FadeElapsed) => (Phase::Removed, Action::RemoveByValue),
        (Phase::Dismissing(Trigger::Close), Event::FadeElapsed) => (Phase::Removed, Action::RemoveById),
        _ => (phase, Action::Nothing),
    }
}

/// The entries of a store after `action` was carried out for `toast`.
pub open spec fn after_action(entries: Seq<(Toast, u8)>, action: Action, toast: Toast) -> Seq<
    (Toast, u8),
> {
    match action {
        Action::RemoveByValue => without_value(entries, toast),
        Action::RemoveById => without_id(entries, toast@.id),
        _ => entries,
    }
}

/// One step of the life cycle of a rendered toast: the next phase, and what
/// the renderer is to do.
pub fn step(phase: Phase, event: Event) -> (next: (Phase, Action))
    ensures
        next == transition(phase, event),
{
    match phase {
        Phase::Visible => match event {
            Event::TimerElapsed => (Phase::Dismissing(Trigger::Timer), Action::BeginFade),
            Event::CloseClicked => (Phase::Dismissing(Trigger::Close), Action::BeginFade),
            Event::FadeElapsed => (phase, Action::Nothing),
        },
        Phase::Dismissing(trigger) => match event {
            Event::FadeElapsed => match trigger {
                Trigger::Timer => (Phase::Removed, Action::RemoveByValue),
                Trigger::Close => (Phase::Removed, Action::RemoveById),
            },
            _ => (phase, Action::Nothing),
        },
        Phase::Removed => (phase, Action::Nothing),
    }
}

impl Toasts<Toast> {
    /// Carries out on the store what `action` asks for `toast`. Only the two
    /// removals touch the store.
    pub fn perform(&mut self, action: Action, toast: &Toast)
        ensures
            final(self)@ == after_action(old(self)@, action, *toast),
    {
        match action {
            Action::RemoveByValue => self.remove_by_value(toast),
            Action::RemoveById => self.remove_by_id(toast.id()),
            _ => {},
        }
    }
}

} // verus!
