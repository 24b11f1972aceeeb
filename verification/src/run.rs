//! One run over a selection of sources: its state, the events it has
//! produced, and the steps that take it from its start to its end.

use vstd::prelude::*;
use crate::catalog::{manager_named, registered};
use crate::runner::{
    classify_stderr, classify_stdout, invocation_for, planned, spawn_failure_event,
    spawn_failure_text, stderr_event, stdout_event, InvocationView,
};
use crate::security::fault_message;
use crate::text::texts;
use crate::updater::{event_views, EventView, ManagerView, UpdateEvent};

verus! {

/// One run over a selection of sources: where it stands and every event it
/// has produced so far, in order.
#[derive(Debug)]
pub struct UpdateRun {
    /// The selected sources, in the caller's order.
    pub sources: Vec<String>,
    /// Whether the check commands run in place of the update commands.
    pub dry_run: bool,
    /// How many of the selected sources have been taken up.
    pub position: usize,
    /// Whether every source that has completed so far succeeded.
    pub success: bool,
    /// The source whose command is in flight, if any.
    pub active: Option<String>,
    /// Whether the end of the run has been reported.
    pub finished: bool,
    /// The events of the run so far.
    pub events: Vec<UpdateEvent>,
}

/// A run with its texts as sequences of characters.
pub ghost struct RunView {
    pub sources: Seq<Seq<char>>,
    pub dry_run: bool,
    pub position: int,
    pub success: bool,
    pub active: Option<Seq<char>>,
    pub finished: bool,
    pub events: Seq<EventView>,
}

impl View for UpdateRun {
    type V = RunView;

    open spec fn view(&self) -> RunView {
        RunView {
            sources: texts(self.sources@),
            dry_run: self.dry_run,
            position: self.position as int,
            success: self.success,
            active: match self.active {
                Some(name) => Some(name@),
                None => None,
            },
            finished: self.finished,
            events: event_views(self.events@),
        }
    }
}

/// The command that is run for a manager and whether it runs elevated: in a
/// dry run the check command, never elevated; otherwise the update command,
/// elevated where the manager asks for it.
pub open spec fn command_choice(manager: ManagerView, dry_run: bool) -> (Seq<Seq<char>>, bool) {
    if dry_run {
        (manager.check_cmd, false)
    } else {
        (manager.update_cmd, manager.needs_sudo)
    }
}

/// A fresh run over the given selection: nothing taken up, nothing failed,
/// and `Started` as its only event.
pub open spec fn fresh_run(sources: Seq<Seq<char>>, dry_run: bool) -> RunView {
    RunView {
        sources,
        dry_run,
        position: 0,
        success: true,
        active: None,
        finished: false,
        events: seq![EventView::Started],
    }
}

/// The run with its end reported.
pub open spec fn completed(run: RunView) -> RunView {
    RunView { finished: true, events: run.events.push(EventView::Completed(run.success)), ..run }
}

/// Walks the selection from the run's position to the next source whose
/// command can be started, or to the end. A source that the table does not
/// hold is passed over in silence. A source whose command is refused is
/// reported as started, failed with the refusal's message, and completed
/// without success, and the walk goes on.
pub open spec fn scan(managers: Seq<ManagerView>, run: RunView) -> (RunView, Option<InvocationView>)
    decreases run.sources.len() - run.position,
{
    if run.position < 0 || run.position >= run.sources.len() {
        (completed(run), None)
    } else {
        let id = run.sources[run.position];
        if !registered(managers, id) {
            scan(managers, RunView { position: run.position + 1, ..run })
        } else {
            let manager = manager_named(managers, id);
            let choice = command_choice(manager, run.dry_run);
            let started = run.events.push(EventView::SourceStarted(manager.name));
            match planned(manager.name, choice.0, choice.1) {
                Ok(invocation) => (
                    RunView {
                        position: run.position + 1,
                        active: Some(manager.name),
                        events: started,
                        ..run
                    },
                    Some(invocation),
                ),
                Err(fault) => scan(
                    managers,
                    RunView {
                        position: run.position + 1,
                        success: false,
                        events: started.push(
                            EventView::SourceError(manager.name, fault_message(fault)),
                        ).push(EventView::SourceCompleted(manager.name, false)),
                        ..run
                    },
                ),
            }
        }
    }
}

/// The run after the command in flight has ended with the given outcome: the
/// source is reported as completed and counts toward the overall outcome.
pub open spec fn source_done(run: RunView, success: bool) -> RunView {
    match run.active {
        Some(name) => RunView {
            success: run.success && success,
            active: None,
            events: run.events.push(EventView::SourceCompleted(name, success)),
            ..run
        },
        None => run,
    }
}

/// The run after the command of the source in flight could not be started:
/// a general error is reported, and the source completes without success.
pub open spec fn source_unstartable(run: RunView, reason: Seq<char>) -> RunView {
    match run.active {
        Some(name) => source_done(
            RunView {
                events: run.events.push(EventView::Error(spawn_failure_text(name, reason))),
                ..run
            },
            false,
        ),
        None => run,
    }
}

/// The run after one more event, if the line stands for one.
pub open spec fn with_event(run: RunView, event: Option<EventView>) -> RunView {
    match event {
        Some(e) => RunView { events: run.events.push(e), ..run },
        None => run,
    }
}

/// The run after a line of the command in flight was read from standard output.
pub open spec fn after_stdout(run: RunView, line: Seq<char>) -> RunView {
    match run.active {
        Some(name) => with_event(run, stdout_event(name, line)),
        None => run,
    }
}

/// The run after a line of the command in flight was read from standard error.
pub open spec fn after_stderr(run: RunView, line: Seq<char>) -> RunView {
    match run.active {
        Some(name) => with_event(run, stderr_event(name, line)),
        None => run,
    }
}

impl UpdateRun {
    /// The run's position lies within its selection.
    pub open spec fn wf(&self) -> bool {
        self.position <= self.sources@.len()
    }

    /// Records a line that the command in flight wrote to standard output.
    pub fn stdout_line(&mut self, line: String)
        ensures
            final(self)@ == after_stdout(old(self)@, line@),
            final(self).wf() == old(self).wf(),
    {
        let event = match &self.active {
            Some(name) => classify_stdout(name.as_str(), line),
            None => None,
        };
        match event {
            Some(e) => {
                self.events.push(e);
                assert(event_views(self.events@) =~= event_views(old(self).events@).push(e@));
            },
            None => {},
        }
    }

    /// Records a line that the command in flight wrote to standard error.
    pub fn stderr_line(&mut self, line: String)
        ensures
            final(self)@ == after_stderr(old(self)@, line@),
            final(self).wf() == old(self).wf(),
    {
        let event = match &self.active {
            Some(name) => classify_stderr(name.as_str(), line),
            None => None,
        };
        match event {
            Some(e) => {
                self.events.push(e);
                assert(event_views(self.events@) =~= event_views(old(self).events@).push(e@));
            },
            None => {},
        }
    }

    /// Records that the command of the source in flight could not be started.
    pub fn spawn_failed(&mut self, reason: &str)
        ensures
            final(self)@ == source_unstartable(old(self)@, reason@),
            final(self).wf() == old(self).wf(),
    {
        let active = self.active.take();
        match active {
            Some(name) => {
                let failure = spawn_failure_event(name.as_str(), reason);
                let done = UpdateEvent::SourceCompleted(name, false);
                self.events.push(failure);
                self.events.push(done);
                self.success = false;
                assert(event_views(self.events@) =~= event_views(old(self).events@).push(
                    failure@,
                ).push(done@));
            },
            None => {},
        }
    }

    /// Records that the command in flight has ended with the given outcome.
    pub fn source_finished(&mut self, success: bool)
        ensures
            final(self)@ == source_done(old(self)@, success),
            final(self).wf() == old(self).wf(),
    {
        let active = self.active.take();
        match active {
            Some(name) => {
                let done = UpdateEvent::SourceCompleted(name, success);
                self.events.push(done);
                self.success = self.success && success;
                assert(event_views(self.events@) =~= event_views(old(self).events@).push(done@));
            },
            None => {},
        }
    }
}

/// The command that a run starts for a source is the manager's check
/// command, never elevated, in a dry run, and the manager's update command,
/// elevated where the manager asks for it, otherwise.
pub proof fn launch_follows_dry_run(managers: Seq<ManagerView>, run: RunView)
    requires
        run.active is None,
    ensures
        match scan(managers, run).1 {
            Some(invocation) => {
                let after = scan(managers, run).0;
                &&& after.active is Some
                &&& registered(managers, after.active->0)
                &&& {
                    let manager = manager_named(managers, after.active->0);
                    if run.dry_run {
                        invocation == invocation_for(manager.check_cmd, false)
                    } else {
                        invocation == invocation_for(manager.update_cmd, manager.needs_sudo)
                    }
                }
            },
            None => scan(managers, run).0.active is None,
        },
    decreases run.sources.len() - run.position,
{
    if 0 <= run.position < run.sources.len() {
        let id = run.sources[run.position];
        if !registered(managers, id) {
            launch_follows_dry_run(managers, RunView { position: run.position + 1, ..run });
        } else {
            let manager = manager_named(managers, id);
            assert(manager.name == id);
            let choice = command_choice(manager, run.dry_run);
            let started = run.events.push(EventView::SourceStarted(manager.name));
            match planned(manager.name, choice.0, choice.1) {
                Ok(invocation) => {},
                Err(fault) => {
                    launch_follows_dry_run(
                        managers,
                        RunView {
                            position: run.position + 1,
                            success: false,
                            events: started.push(
                                EventView::SourceError(manager.name, fault_message(fault)),
                            ).push(EventView::SourceCompleted(manager.name, false)),
                            ..run
                        },
                    );
                },
            }
        }
    }
}

/// A selection in which no remaining source is registered ends the run at
/// once: nothing is started, nothing fails, and the only event is the end of
/// the run with the outcome so far. The empty selection is the plainest case.
pub proof fn unregistered_sources_are_skipped(managers: Seq<ManagerView>, run: RunView)
    requires
        0 <= run.position <= run.sources.len(),
        forall|i: int| run.position <= i < run.sources.len() ==> !registered(managers, #[trigger] run.sources[i]),
    ensures
        scan(managers, run) == (
            completed(RunView { position: run.sources.len() as int, ..run }),
            None::<InvocationView>,
        ),
    decreases run.sources.len() - run.position,
{
    if run.position < run.sources.len() {
        unregistered_sources_are_skipped(managers, RunView { position: run.position + 1, ..run });
    } else {
        assert(run == (RunView { position: run.sources.len() as int, ..run }));
    }
}

/// The events of a run only grow: a step of the run loop keeps every event
/// reported so far, in order, at the front.
pub proof fn scan_keeps_events(managers: Seq<ManagerView>, run: RunView)
    ensures
        run.events.is_prefix_of(scan(managers, run).0.events),
    decreases run.sources.len() - run.position,
{
    if 0 <= run.position < run.sources.len() {
        let id = run.sources[run.position];
        if !registered(managers, id) {
            scan_keeps_events(managers, RunView { position: run.position + 1, ..run });
        } else {
            let manager = manager_named(managers, id);
            let choice = command_choice(manager, run.dry_run);
            let started = run.events.push(EventView::SourceStarted(manager.name));
            match planned(manager.name, choice.0, choice.1) {
                Ok(invocation) => {
                    assert(run.events =~= started.subrange(0, run.events.len() as int));
                },
                Err(fault) => {
                    let next = RunView {
                        position: run.position + 1,
                        success: false,
                        events: started.push(
                            EventView::SourceError(manager.name, fault_message(fault)),
                        ).push(EventView::SourceCompleted(manager.name, false)),
                        ..run
                    };
                    scan_keeps_events(managers, next);
                    let out = scan(managers, next).0.events;
                    assert(next.events =~= out.subrange(0, next.events.len() as int));
                    assert(run.events =~= next.events.subrange(0, run.events.len() as int));
                    assert(run.events =~= out.subrange(0, run.events.len() as int));
                },
            }
        }
    } else {
        assert(run.events =~= completed(run).events.subrange(0, run.events.len() as int));
    }
}

/// The event reports the end of a run.
pub open spec fn is_end(event: EventView) -> bool {
    event is Completed
}

/// The event reports a source that completed without success.
pub open spec fn is_failure(event: EventView) -> bool {
    match event {
        EventView::SourceCompleted(_, ok) => !ok,
        _ => false,
    }
}

/// None of the events reports the end of a run.
pub open spec fn no_end_reported(events: Seq<EventView>) -> bool {
    forall|i: int| 0 <= i < events.len() ==> !is_end(#[trigger] events[i])
}

/// None of the events reports a source that completed without success.
pub open spec fn no_source_failed(events: Seq<EventView>) -> bool {
    forall|i: int| 0 <= i < events.len() ==> !is_failure(#[trigger] events[i])
}

/// How many of the events report that a source started.
pub open spec fn started_count(events: Seq<EventView>) -> nat
    decreases events.len(),
{
    if events.len() == 0 {
        0
    } else if events.last() is SourceStarted {
        started_count(events.drop_last()) + 1
    } else {
        started_count(events.drop_last())
    }
}

/// How many of the events report that a source completed.
pub open spec fn completed_count(events: Seq<EventView>) -> nat
    decreases events.len(),
{
    if events.len() == 0 {
        0
    } else if events.last() is SourceCompleted {
        completed_count(events.drop_last()) + 1
    } else {
        completed_count(events.drop_last())
    }
}

/// What holds of a run at every moment: its position lies within the
/// selection; its outcome so far is success exactly when no source has
/// completed without success; sources run one at a time, so that every
/// source that started has completed, but for the one in flight; while the
/// run has not ended no event reports its end; and once it has ended no
/// command is in flight, and its end is reported exactly once, as the last
/// event, with the overall outcome.
pub open spec fn run_consistent(run: RunView) -> bool {
    &&& 0 <= run.position <= run.sources.len()
    &&& run.success <==> no_source_failed(run.events)
    &&& started_count(run.events) == completed_count(run.events) + if run.active is Some {
        1nat
    } else {
        0nat
    }
    &&& !run.finished ==> no_end_reported(run.events)
    &&& run.finished ==> {
        &&& run.active is None
        &&& run.events.len() > 0
        &&& run.events.last() == EventView::Completed(run.success)
        &&& no_end_reported(run.events.drop_last())
    }
}

/// A fresh run is consistent.
pub proof fn fresh_run_is_consistent(sources: Seq<Seq<char>>, dry_run: bool)
    ensures
        run_consistent(fresh_run(sources, dry_run)),
{
    one_more_event(Seq::empty(), EventView::Started);
    assert(fresh_run(sources, dry_run).events =~= Seq::<EventView>::empty().push(
        EventView::Started,
    ));
}

proof fn one_more_event(events: Seq<EventView>, event: EventView)
    ensures
        no_source_failed(events.push(event)) <==> no_source_failed(events) && !is_failure(event),
        no_end_reported(events.push(event)) <==> no_end_reported(events) && !is_end(event),
        events.push(event).drop_last() == events,
        started_count(events.push(event)) == started_count(events) + if event is SourceStarted {
            1nat
        } else {
            0nat
        },
        completed_count(events.push(event)) == completed_count(events) + if event
            is SourceCompleted {
            1nat
        } else {
            0nat
        },
{
    let longer = events.push(event);
    assert(longer.drop_last() =~= events);
    assert(longer[events.len() as int] == event);
    if no_source_failed(longer) {
        assert forall|i: int| 0 <= i < events.len() implies !is_failure(#[trigger] events[i]) by {
            assert(longer[i] == events[i]);
        }
    }
    if no_end_reported(longer) {
        assert forall|i: int| 0 <= i < events.len() implies !is_end(#[trigger] events[i]) by {
            assert(longer[i] == events[i]);
        }
    }
    if no_source_failed(events) && !is_failure(event) {
        assert forall|i: int| 0 <= i < longer.len() implies !is_failure(#[trigger] longer[i]) by {
            if i < events.len() {
                assert(longer[i] == events[i]);
            }
        }
    }
    if no_end_reported(events) && !is_end(event) {
        assert forall|i: int| 0 <= i < longer.len() implies !is_end(#[trigger] longer[i]) by {
            if i < events.len() {
                assert(longer[i] == events[i]);
            }
        }
    }
}

pub(crate) proof fn ending_a_run_is_consistent(run: RunView)
    requires
        run_consistent(run),
        !run.finished,
        run.active is None,
    ensures
        run_consistent(completed(run)),
{
    one_more_event(run.events, EventView::Completed(run.success));
}

pub(crate) proof fn walking_keeps_consistency(managers: Seq<ManagerView>, run: RunView)
    requires
        run_consistent(run),
        !run.finished,
        run.active is None,
    ensures
        run_consistent(scan(managers, run).0),
        scan(managers, run).1 is None ==> scan(managers, run).0.finished,
        scan(managers, run).1 is Some ==> !scan(managers, run).0.finished && scan(
            managers,
            run,
        ).0.active is Some,
    decreases run.sources.len() - run.position,
{
    if run.position >= run.sources.len() {
        ending_a_run_is_consistent(run);
    } else {
        let id = run.sources[run.position];
        if !registered(managers, id) {
            walking_keeps_consistency(managers, RunView { position: run.position + 1, ..run });
        } else {
            let manager = manager_named(managers, id);
            let choice = command_choice(manager, run.dry_run);
            let begun = EventView::SourceStarted(manager.name);
            let started = run.events.push(begun);
            one_more_event(run.events, begun);
            match planned(manager.name, choice.0, choice.1) {
                Ok(invocation) => {},
                Err(fault) => {
                    let refused = EventView::SourceError(manager.name, fault_message(fault));
                    let done = EventView::SourceCompleted(manager.name, false);
                    one_more_event(started, refused);
                    one_more_event(started.push(refused), done);
                    walking_keeps_consistency(
                        managers,
                        RunView {
                            position: run.position + 1,
                            success: false,
                            events: started.push(refused).push(done),
                            ..run
                        },
                    );
                },
            }
        }
    }
}

/// What the command in flight reports keeps the run consistent: its lines,
/// its failure to start, and its end.
pub proof fn reports_keep_consistency(run: RunView, line: Seq<char>, success: bool)
    requires
        run_consistent(run),
    ensures
        run_consistent(after_stdout(run, line)),
        run_consistent(after_stderr(run, line)),
        run_consistent(source_unstartable(run, line)),
        run_consistent(source_done(run, success)),
{
    if run.active is Some {
        let name = run.active->0;
        if stdout_event(name, line) is Some {
            one_more_event(run.events, stdout_event(name, line)->0);
        }
        if stderr_event(name, line) is Some {
            one_more_event(run.events, stderr_event(name, line)->0);
        }
        let failure = EventView::Error(spawn_failure_text(name, line));
        one_more_event(run.events, failure);
        one_more_event(run.events.push(failure), EventView::SourceCompleted(name, false));
        one_more_event(run.events, EventView::SourceCompleted(name, success));
    }
}

} // verus!
