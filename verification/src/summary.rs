//! What a consumer of a run shows: the state of each source as events come
//! in, the icon for a state, and the closing sentence of a run.

use vstd::prelude::*;
use vstd::string::*;
use crate::text::{decimal, decimal_string};
use crate::updater::{EventView, SourceState, UpdateEvent};

verus! {

/// The state that an event puts its source in, for the events that speak of
/// a source: a source that starts or reports progress is running, a source
/// that reports an error has failed, and a source that completes has
/// succeeded or failed as the event says.
pub open spec fn state_after(event: EventView) -> Option<(Seq<char>, SourceState)> {
    match event {
        EventView::SourceStarted(source) => Some((source, SourceState::Running)),
        EventView::SourceProgress(source, _) => Some((source, SourceState::Running)),
        EventView::SourceCompleted(source, ok) => Some(
            (
                source,
                if ok {
                    SourceState::Success
                } else {
                    SourceState::Failed
                },
            ),
        ),
        EventView::SourceError(source, _) => Some((source, SourceState::Failed)),
        _ => None,
    }
}

/// The source that an event speaks of and the state it puts that source in.
pub fn source_state_after(event: &UpdateEvent) -> (change: Option<(String, SourceState)>)
    ensures
        match change {
            Some((source, state)) => state_after(event@) == Some((source@, state)),
            None => state_after(event@) is None,
        },
{
    match event {
        UpdateEvent::SourceStarted(source) => Some((source.clone(), SourceState::Running)),
        UpdateEvent::SourceProgress(source, _) => Some((source.clone(), SourceState::Running)),
        UpdateEvent::SourceCompleted(source, ok) => {
            if *ok {
                Some((source.clone(), SourceState::Success))
            } else {
                Some((source.clone(), SourceState::Failed))
            }
        },
        UpdateEvent::SourceError(source, _) => Some((source.clone(), SourceState::Failed)),
        _ => None,
    }
}

/// The icon and the style class that stand for a state; a source at rest has
/// the default icon and no class.
pub fn status_icon(state: &SourceState) -> (icon: (&'static str, &'static str))
    ensures
        icon.0@ == match state {
            SourceState::Idle => "emblem-default-symbolic"@,
            SourceState::Running => "process-working-symbolic"@,
            SourceState::Success => "emblem-ok-symbolic"@,
            SourceState::Failed => "dialog-error-symbolic"@,
        },
        icon.1@ == match state {
            SourceState::Idle => ""@,
            SourceState::Running => "running"@,
            SourceState::Success => "success"@,
            SourceState::Failed => "error"@,
        },
{
    match state {
        SourceState::Idle => ("emblem-default-symbolic", ""),
        SourceState::Running => ("process-working-symbolic", "running"),
        SourceState::Success => ("emblem-ok-symbolic", "success"),
        SourceState::Failed => ("dialog-error-symbolic", "error"),
    }
}

/// How many sources of a run completed with and without success.
#[derive(Debug, Clone, Copy, PartialEq, Eq)]
pub struct RunSummary {
    pub completed: usize,
    pub failed: usize,
}

/// The event reports a source that completed with the given outcome.
pub open spec fn counts_as(event: EventView, outcome: bool) -> bool {
    match event {
        EventView::SourceCompleted(_, ok) => ok == outcome,
        _ => false,
    }
}

/// How many of the events report a source that completed with the given
/// outcome.
pub open spec fn completions(events: Seq<EventView>, outcome: bool) -> nat
    decreases events.len(),
{
    if events.len() == 0 {
        0
    } else if counts_as(events.last(), outcome) {
        completions(events.drop_last(), outcome) + 1
    } else {
        completions(events.drop_last(), outcome)
    }
}

/// The count as far as a machine word holds it.
pub open spec fn capped(count: int) -> usize {
    if count > usize::MAX {
        usize::MAX
    } else {
        count as usize
    }
}

impl RunSummary {
    /// The summary of a run of which nothing is known yet.
    pub fn new() -> (summary: Self)
        ensures
            summary.completed == 0,
            summary.failed == 0,
    {
        RunSummary { completed: 0, failed: 0 }
    }

    /// Takes note of one more event: a source that completes is counted by
    /// its outcome, and no other event counts. A count that has reached the
    /// largest machine word stays there.
    pub fn observe(&mut self, event: &UpdateEvent)
        ensures
            final(self).completed == capped(
                old(self).completed + completions(seq![event@], true),
            ),
            final(self).failed == capped(old(self).failed + completions(seq![event@], false)),
    {
        proof {
            assert(seq![event@].drop_last() =~= Seq::<EventView>::empty());
            assert(completions(seq![event@].drop_last(), true) == 0);
            assert(completions(seq![event@].drop_last(), false) == 0);
            assert(seq![event@].last() == event@);
        }
        match event {
            UpdateEvent::SourceCompleted(_, ok) => {
                if *ok {
                    if self.completed < usize::MAX {
                        self.completed = self.completed + 1;
                    }
                } else {
                    if self.failed < usize::MAX {
                        self.failed = self.failed + 1;
                    }
                }
            },
            _ => {},
        }
    }

    /// The summary of a whole sequence of events.
    pub fn of_events(events: &[UpdateEvent]) -> (summary: Self)
        ensures
            summary.completed == capped(completions(crate::updater::event_views(events@), true) as int),
            summary.failed == capped(completions(crate::updater::event_views(events@), false) as int),
    {
        let mut summary = RunSummary::new();
        let mut i: usize = 0;
        let ghost views = crate::updater::event_views(events@);
        while i < events.len()
            invariant
                i <= events@.len(),
                views == crate::updater::event_views(events@),
                summary.completed == capped(completions(views.take(i as int), true) as int),
                summary.failed == capped(completions(views.take(i as int), false) as int),
            decreases events@.len() - i,
        {
            proof {
                assert(views.take(i + 1).drop_last() =~= views.take(i as int));
                assert(views.take(i + 1).last() == events@[i as int]@);
                assert(seq![events@[i as int]@].drop_last() =~= Seq::<EventView>::empty());
                assert(completions(seq![events@[i as int]@].drop_last(), true) == 0);
                assert(completions(seq![events@[i as int]@].drop_last(), false) == 0);
                assert(seq![events@[i as int]@].last() == events@[i as int]@);
            }
            summary.observe(&events[i]);
            i += 1;
        }
        proof {
            assert(views.take(i as int) =~= views);
        }
        summary
    }

    /// The closing sentence of the run.
    pub fn message(&self) -> (text: String)
        ensures
            text@ == completion_text(self.completed as nat, self.failed as nat),
    {
        completion_message(self.completed, self.failed)
    }
}

/// The closing sentence for a run in which `completed` sources succeeded and
/// `failed` sources did not.
pub open spec fn completion_text(completed: nat, failed: nat) -> Seq<char> {
    if completed == 0 && failed == 0 {
        "No updates were performed"@
    } else if failed == 0 {
        "Successfully updated "@ + decimal(completed) + " package manager(s)"@
    } else if completed == 0 {
        "Failed to update "@ + decimal(failed) + " package manager(s)"@
    } else {
        "Updated "@ + decimal(completed) + " package manager(s), "@ + decimal(failed) + " failed"@
    }
}

/// Writes the closing sentence of a run.
pub fn completion_message(completed: usize, failed: usize) -> (text: String)
    ensures
        text@ == completion_text(completed as nat, failed as nat),
{
    if completed == 0 && failed == 0 {
        "No updates were performed".to_owned()
    } else if failed == 0 {
        let mut text = "Successfully updated ".to_owned();
        text.append(decimal_string(completed).as_str());
        text.append(" package manager(s)");
        text
    } else if completed == 0 {
        let mut text = "Failed to update ".to_owned();
        text.append(decimal_string(failed).as_str());
        text.append(" package manager(s)");
        text
    } else {
        let mut text = "Updated ".to_owned();
        text.append(decimal_string(completed).as_str());
        text.append(" package manager(s), ");
        text.append(decimal_string(failed).as_str());
        text.append(" failed");
        text
    }
}

} // verus!
