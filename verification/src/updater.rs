//! The events of a run, the descriptor of a package manager, and the
//! orchestrator that owns the table of managers and the run state.

use vstd::prelude::*;
use crate::catalog::{
    builtin_managers, catalog, catalog_is_well_formed, launchable, manager_named, manager_views,
    names_unique, registered,
};
use crate::detect::{Detection, DetectionView};
use crate::run::{
    completed, fresh_run, run_consistent, scan, source_done, walking_keeps_consistency,
    ending_a_run_is_consistent, RunView, UpdateRun,
};
use crate::runner::{plan_command, planned, Invocation, InvocationView};
use crate::security::{SecurityError, SecurityFault};
use crate::text::{slice_texts, str_eq, texts};

verus! {

/// What a consumer of a run is told, in the order in which it happens.
#[derive(Debug, Clone, PartialEq, Eq)]
pub enum UpdateEvent {
    Started,
    Progress(String),
    SourceStarted(String),
    SourceProgress(String, String),
    SourceCompleted(String, bool),
    SourceError(String, String),
    Completed(bool),
    Error(String),
}

/// An event with its texts as sequences of characters.
pub ghost enum EventView {
    Started,
    Progress(Seq<char>),
    SourceStarted(Seq<char>),
    SourceProgress(Seq<char>, Seq<char>),
    SourceCompleted(Seq<char>, bool),
    SourceError(Seq<char>, Seq<char>),
    Completed(bool),
    Error(Seq<char>),
}

impl View for UpdateEvent {
    type V = EventView;

    open spec fn view(&self) -> EventView {
        match self {
            UpdateEvent::Started => EventView::Started,
            UpdateEvent::Progress(text) => EventView::Progress(text@),
            UpdateEvent::SourceStarted(source) => EventView::SourceStarted(source@),
            UpdateEvent::SourceProgress(source, text) => EventView::SourceProgress(source@, text@),
            UpdateEvent::SourceCompleted(source, ok) => EventView::SourceCompleted(source@, *ok),
            UpdateEvent::SourceError(source, text) => EventView::SourceError(source@, text@),
            UpdateEvent::Completed(ok) => EventView::Completed(*ok),
            UpdateEvent::Error(text) => EventView::Error(text@),
        }
    }
}

/// The views of a sequence of events.
pub open spec fn event_views(events: Seq<UpdateEvent>) -> Seq<EventView> {
    Seq::new(events.len(), |i: int| events[i]@)
}

/// How one source stands while a consumer follows a run.
#[derive(Debug, Clone, Copy, PartialEq, Eq)]
pub enum SourceState {
    Idle,
    Running,
    Success,
    Failed,
}

/// One package manager: its identifier, what it is, the command that lists
/// pending updates, the command that applies them, and whether the latter
/// needs elevated rights.
#[derive(Debug, Clone, PartialEq, Eq)]
pub struct PackageManager {
    pub description: String,
    pub check_cmd: Vec<String>,
    pub update_cmd: Vec<String>,
    pub needs_sudo: bool,
    pub name: String,
}

/// A package manager with its texts as sequences of characters.
pub ghost struct ManagerView {
    pub description: Seq<char>,
    pub check_cmd: Seq<Seq<char>>,
    pub update_cmd: Seq<Seq<char>>,
    pub needs_sudo: bool,
    pub name: Seq<char>,
}

impl View for PackageManager {
    type V = ManagerView;

    open spec fn view(&self) -> ManagerView {
        ManagerView {
            description: self.description@,
            check_cmd: texts(self.check_cmd@),
            update_cmd: texts(self.update_cmd@),
            needs_sudo: self.needs_sudo,
            name: self.name@,
        }
    }
}

/// Owned copies of the tokens, in order.
pub fn owned_tokens(tokens: &[&str]) -> (owned: Vec<String>)
    ensures
        texts(owned@) == slice_texts(tokens@),
{
    let mut owned: Vec<String> = Vec::new();
    let mut i: usize = 0;
    while i < tokens.len()
        invariant
            i <= tokens@.len(),
            owned@.len() == i,
            forall|j: int| 0 <= j < i ==> owned@[j]@ == tokens@[j]@,
        decreases tokens@.len() - i,
    {
        owned.push(tokens[i].to_owned());
        i += 1;
    }
    assert(texts(owned@) =~= slice_texts(tokens@));
    owned
}

impl PackageManager {
    /// A descriptor made of the given parts.
    pub fn new(name: &str, check: &[&str], update: &[&str], sudo: bool, desc: &str) -> (manager: Self)
        ensures
            manager@ == (ManagerView {
                description: desc@,
                check_cmd: slice_texts(check@),
                update_cmd: slice_texts(update@),
                needs_sudo: sudo,
                name: name@,
            }),
    {
        PackageManager {
            description: desc.to_owned(),
            check_cmd: owned_tokens(check),
            update_cmd: owned_tokens(update),
            needs_sudo: sudo,
            name: name.to_owned(),
        }
    }
}

/// Why a run could not be started.
#[derive(Debug, Clone, PartialEq, Eq)]
pub enum UpdateError {
    /// A run is in progress; a second one is refused, not queued.
    AlreadyRunning,
}

impl UpdateError {
    /// The sentence that a consumer is shown for this error.
    pub fn message(&self) -> (text: String)
        ensures
            text@ == "Updates already running"@,
    {
        "Updates already running".to_owned()
    }
}

/// The orchestrator: the table of managers and the state that a run and a
/// stop request share.
#[derive(Debug)]
pub struct Updater {
    /// True from the start of a run until its end is reported or a stop is
    /// requested.
    pub running: bool,
    /// The processes of the source that is being run, for as long as they live.
    pub child_pids: Vec<u32>,
    /// The table of managers.
    pub managers: Vec<PackageManager>,
}

/// The orchestrator with its texts as sequences of characters.
pub ghost struct UpdaterView {
    pub running: bool,
    pub child_pids: Seq<u32>,
    pub managers: Seq<ManagerView>,
}

impl View for Updater {
    type V = UpdaterView;

    open spec fn view(&self) -> UpdaterView {
        UpdaterView {
            running: self.running,
            child_pids: self.child_pids@,
            managers: manager_views(self.managers@),
        }
    }
}

/// One step of the run loop. A run that has ended, or that waits for a
/// command in flight, stays as it is. After a stop request the run ends at
/// once and no further source is taken up. Otherwise the selection is walked
/// to the next command to start, and the run ends when there is none; the
/// orchestrator is running for exactly as long as the run has not ended.
pub open spec fn next_launch_step(updater: UpdaterView, run: RunView) -> (
    UpdaterView,
    RunView,
    Option<InvocationView>,
) {
    if run.finished || run.active is Some {
        (updater, run, None)
    } else if !updater.running {
        (updater, completed(run), None)
    } else {
        let walked = scan(updater.managers, run);
        (UpdaterView { running: walked.1 is Some, ..updater }, walked.0, walked.1)
    }
}

/// The list without any occurrence of `pid`, the others in their order.
pub open spec fn without(pids: Seq<u32>, pid: u32) -> Seq<u32>
    decreases pids.len(),
{
    if pids.len() == 0 {
        Seq::empty()
    } else if pids.last() == pid {
        without(pids.drop_last(), pid)
    } else {
        without(pids.drop_last(), pid).push(pids.last())
    }
}

/// A stop request: an idle orchestrator is left alone and nothing is
/// signalled; a running one stops running, and every process it tracks is to
/// be interrupted.
pub open spec fn stop_step(updater: UpdaterView) -> (UpdaterView, Seq<u32>) {
    if updater.running {
        (UpdaterView { running: false, ..updater }, updater.child_pids)
    } else {
        (updater, Seq::empty())
    }
}

/// Plans the check command of a manager, which never runs elevated.
pub fn check_updates(manager: &PackageManager) -> (plan: Result<Invocation, SecurityError>)
    requires
        launchable(manager@),
    ensures
        match plan {
            Ok(invocation) => planned(manager@.name, manager@.check_cmd, false) == Ok::<
                InvocationView,
                SecurityFault,
            >(invocation@),
            Err(e) => planned(manager@.name, manager@.check_cmd, false) == Err::<
                InvocationView,
                SecurityFault,
            >(e@),
        },
{
    plan_command(manager.check_cmd.as_slice(), false, manager)
}

/// Plans the update command of a manager, elevated where the manager asks
/// for it.
pub fn run_update(manager: &PackageManager) -> (plan: Result<Invocation, SecurityError>)
    requires
        launchable(manager@),
    ensures
        match plan {
            Ok(invocation) => planned(manager@.name, manager@.update_cmd, manager@.needs_sudo)
                == Ok::<InvocationView, SecurityFault>(invocation@),
            Err(e) => planned(manager@.name, manager@.update_cmd, manager@.needs_sudo) == Err::<
                InvocationView,
                SecurityFault,
            >(e@),
        },
{
    plan_command(manager.update_cmd.as_slice(), manager.needs_sudo, manager)
}

/// Copies the process identifiers but `pid`.
pub fn remove_pid(pids: &Vec<u32>, pid: u32) -> (kept: Vec<u32>)
    ensures
        kept@ == without(pids@, pid),
{
    let mut kept: Vec<u32> = Vec::new();
    let mut i: usize = 0;
    while i < pids.len()
        invariant
            i <= pids@.len(),
            kept@ == without(pids@.take(i as int), pid),
        decreases pids@.len() - i,
    {
        proof {
            assert(pids@.take(i + 1).drop_last() =~= pids@.take(i as int));
        }
        if pids[i] != pid {
            kept.push(pids[i]);
        }
        i += 1;
    }
    proof {
        assert(pids@.take(i as int) =~= pids@);
    }
    kept
}

impl Default for Updater {
    /// An idle orchestrator over the built-in catalog.
    fn default() -> (updater: Self)
        ensures
            updater.wf(),
            updater@ == (UpdaterView {
                running: false,
                child_pids: Seq::empty(),
                managers: catalog(),
            }),
    {
        Updater::new()
    }
}

impl Updater {
    /// The table is well formed: its names are distinct and every entry can
    /// be started.
    pub open spec fn wf(&self) -> bool {
        &&& names_unique(self@.managers)
        &&& forall|i: int| 0 <= i < self@.managers.len() ==> launchable(#[trigger] self@.managers[i])
    }

    /// Whether the table is well formed.
    pub fn is_well_formed(&self) -> (ok: bool)
        ensures
            ok == self.wf(),
    {
        let mut i: usize = 0;
        while i < self.managers.len()
            invariant
                i <= self.managers@.len(),
                forall|a: int| 0 <= a < i ==> launchable(#[trigger] self@.managers[a]),
                forall|a: int, b: int|
                    0 <= a < i && a < b < self.managers@.len() ==> (#[trigger] self@.managers[a]).name
                        != (#[trigger] self@.managers[b]).name,
            decreases self.managers@.len() - i,
        {
            let manager = &self.managers[i];
            assert(manager@ == self@.managers[i as int]);
            if manager.check_cmd.len() == 0 || (!manager.needs_sudo && manager.update_cmd.len()
                == 0) {
                assert(!launchable(self@.managers[i as int]));
                return false;
            }
            let mut j: usize = i + 1;
            while j < self.managers.len()
                invariant
                    i < j <= self.managers@.len(),
                    forall|b: int|
                        i < b < j ==> self@.managers[i as int].name != (
                        #[trigger] self@.managers[b]).name,
                decreases self.managers@.len() - j,
            {
                if str_eq(self.managers[i].name.as_str(), self.managers[j].name.as_str()) {
                    assert(self@.managers[i as int].name == self@.managers[j as int].name);
                    return false;
                }
                j += 1;
            }
            i += 1;
        }
        assert(names_unique(self@.managers)) by {
            assert forall|a: int, b: int|
                0 <= a < self@.managers.len() && 0 <= b < self@.managers.len() && a != b implies (
            #[trigger] self@.managers[a]).name != (#[trigger] self@.managers[b]).name by {
                if a < b {
                } else {
                    assert(self@.managers[b].name != self@.managers[a].name);
                }
            }
        }
        true
    }

    /// An idle orchestrator over the built-in catalog.
    pub fn new() -> (updater: Self)
        ensures
            updater.wf(),
            updater@ == (UpdaterView {
                running: false,
                child_pids: Seq::empty(),
                managers: catalog(),
            }),
    {
        let mut updater = Updater { running: false, child_pids: Vec::new(), managers: Vec::new() };
        updater.init_managers();
        updater
    }

    /// Fills an empty table with the built-in catalog.
    pub fn init_managers(&mut self)
        requires
            old(self).managers@.len() == 0,
        ensures
            final(self).wf(),
            final(self)@ == (UpdaterView { managers: catalog(), ..old(self)@ }),
    {
        self.managers = builtin_managers();
        proof {
            catalog_is_well_formed();
        }
    }

    /// Begins the detection of the managers that are installed. The caller
    /// probes each candidate it is given and records the answer.
    pub fn detect_sources(&self) -> (detection: Detection)
        ensures
            detection@ == (DetectionView { stage: 0, found: Seq::empty() }),
    {
        Detection::new()
    }

    /// Whether a run is in progress.
    pub fn is_running(&self) -> (running: bool)
        ensures
            running == self@.running,
    {
        self.running
    }

    /// Where in the table the manager of this name stands.
    pub fn find_manager(&self, name: &str) -> (found: Option<usize>)
        requires
            self.wf(),
        ensures
            match found {
                Some(k) => {
                    &&& k < self.managers@.len()
                    &&& registered(self@.managers, name@)
                    &&& self.managers@[k as int]@ == manager_named(self@.managers, name@)
                    &&& self.managers@[k as int].name@ == name@
                },
                None => !registered(self@.managers, name@),
            },
    {
        let mut i: usize = 0;
        while i < self.managers.len()
            invariant
                self.wf(),
                i <= self.managers@.len(),
                forall|j: int| 0 <= j < i ==> (#[trigger] self@.managers[j]).name != name@,
            decreases self.managers@.len() - i,
        {
            if str_eq(self.managers[i].name.as_str(), name) {
                proof {
                    let table = self@.managers;
                    assert(table[i as int].name == name@);
                    let chosen = choose|c: int|
                        0 <= c < table.len() && (#[trigger] table[c]).name == name@;
                    assert(chosen == i);
                }
                return Some(i);
            }
            i += 1;
        }
        None
    }

    /// The descriptor of the manager of this name, or nothing where the table
    /// holds none.
    pub fn get_manager_info(&self, name: &str) -> (info: Option<&PackageManager>)
        requires
            self.wf(),
        ensures
            match info {
                Some(manager) => registered(self@.managers, name@) && manager@ == manager_named(
                    self@.managers,
                    name@,
                ) && manager.name@ == name@,
                None => !registered(self@.managers, name@),
            },
    {
        match self.find_manager(name) {
            Some(k) => Some(&self.managers[k]),
            None => None,
        }
    }

    /// Starts a run over the selection. While a run is in progress the call
    /// is refused and nothing changes. Otherwise the orchestrator is running
    /// and the run it returns has reported `Started` and nothing else.
    pub fn run_updates(&mut self, sources: &[String], dry_run: bool) -> (started: Result<
        UpdateRun,
        UpdateError,
    >)
        ensures
            match started {
                Ok(run) => {
                    &&& !old(self)@.running
                    &&& final(self)@ == (UpdaterView { running: true, ..old(self)@ })
                    &&& final(self).managers == old(self).managers
                    &&& run@ == fresh_run(texts(sources@), dry_run)
                    &&& run.wf()
                },
                Err(e) => {
                    &&& old(self)@.running
                    &&& *final(self) == *old(self)
                    &&& e is AlreadyRunning
                },
            },
    {
        if self.is_running() {
            return Err(UpdateError::AlreadyRunning);
        }
        self.running = true;
        let mut selection: Vec<String> = Vec::new();
        let mut i: usize = 0;
        while i < sources.len()
            invariant
                i <= sources@.len(),
                selection@.len() == i,
                forall|j: int| 0 <= j < i ==> selection@[j]@ == sources@[j]@,
            decreases sources@.len() - i,
        {
            selection.push(sources[i].clone());
            i += 1;
        }
        let mut events: Vec<UpdateEvent> = Vec::new();
        events.push(UpdateEvent::Started);
        let run = UpdateRun {
            sources: selection,
            dry_run,
            position: 0,
            success: true,
            active: None,
            finished: false,
            events,
        };
        assert(run@.sources =~= texts(sources@));
        assert(run@.events =~= seq![EventView::Started]);
        Ok(run)
    }

    /// Takes the run to its next command, or to its end; see
    /// [`next_launch_step`]. The caller starts the invocation that is
    /// returned and reports what happens to it; when nothing is returned for
    /// a run that was not waiting, the run has ended.
    pub fn next_launch(&mut self, run: &mut UpdateRun) -> (launch: Option<Invocation>)
        requires
            old(self).wf(),
            old(run).wf(),
        ensures
            final(self).wf(),
            final(run).wf(),
            final(self).managers == old(self).managers,
            final(self)@ == next_launch_step(old(self)@, old(run)@).0,
            final(run)@ == next_launch_step(old(self)@, old(run)@).1,
            match launch {
                Some(invocation) => next_launch_step(old(self)@, old(run)@).2 == Some(invocation@),
                None => next_launch_step(old(self)@, old(run)@).2 is None,
            },
    {
        if run.finished || run.active.is_some() {
            return None;
        }
        if !self.running {
            let end = UpdateEvent::Completed(run.success);
            run.events.push(end);
            run.finished = true;
            assert(event_views(run.events@) =~= event_views(old(run).events@).push(end@));
            return None;
        }
        let ghost table = self@.managers;
        let ghost start = run@;
        while run.position < run.sources.len()
            invariant
                *self == *old(self),
                self.wf(),
                self.running,
                table == self@.managers,
                start == old(run)@,
                !start.finished,
                start.active is None,
                run.wf(),
                !run.finished,
                run.active is None,
                scan(table, run@) == scan(table, start),
            decreases run.sources@.len() - run.position,
        {
            let ghost before = run@;
            let found = self.find_manager(run.sources[run.position].as_str());
            run.position = run.position + 1;
            match found {
                None => {
                    assert(run@ == (RunView { position: before.position + 1, ..before }));
                },
                Some(k) => {
                    let manager = &self.managers[k];
                    assert(manager@ == self@.managers[k as int]);
                    let begun = UpdateEvent::SourceStarted(manager.name.clone());
                    run.events.push(begun);
                    assert(event_views(run.events@) =~= before.events.push(begun@));
                    let plan = if run.dry_run {
                        check_updates(manager)
                    } else {
                        run_update(manager)
                    };
                    match plan {
                        Ok(invocation) => {
                            run.active = Some(manager.name.clone());
                            assert(run@ == scan(table, before).0);
                            return Some(invocation);
                        },
                        Err(e) => {
                            let refused = UpdateEvent::SourceError(manager.name.clone(), e.message());
                            let done = UpdateEvent::SourceCompleted(manager.name.clone(), false);
                            run.events.push(refused);
                            run.events.push(done);
                            run.success = false;
                            assert(event_views(run.events@) =~= before.events.push(begun@).push(
                                refused@,
                            ).push(done@));
                            assert(run@ == (RunView {
                                position: before.position + 1,
                                success: false,
                                events: before.events.push(begun@).push(refused@).push(done@),
                                ..before
                            }));
                        },
                    }
                },
            }
        }
        let end = UpdateEvent::Completed(run.success);
        let ghost before = run@;
        run.events.push(end);
        run.finished = true;
        self.running = false;
        assert(event_views(run.events@) =~= before.events.push(end@));
        assert(run@ == completed(before));
        None
    }

    /// Records the process of the command that was just started, so that a
    /// stop request can find it.
    pub fn child_spawned(&mut self, pid: u32)
        ensures
            final(self)@ == (UpdaterView {
                child_pids: old(self)@.child_pids.push(pid),
                ..old(self)@
            }),
            final(self).managers == old(self).managers,
    {
        self.child_pids.push(pid);
    }

    /// Records that the process of the command in flight has gone, with the
    /// given outcome: it is tracked no longer, and the source completes.
    pub fn child_exited(&mut self, run: &mut UpdateRun, pid: u32, success: bool)
        ensures
            final(self)@ == (UpdaterView {
                child_pids: without(old(self)@.child_pids, pid),
                ..old(self)@
            }),
            final(self).managers == old(self).managers,
            final(run)@ == source_done(old(run)@, success),
            final(run).wf() == old(run).wf(),
    {
        self.child_pids = remove_pid(&self.child_pids, pid);
        run.source_finished(success);
    }

    /// Asks a run in progress to stop; see [`stop_step`]. Returns the
    /// processes that the caller is to interrupt.
    pub fn stop(&mut self) -> (to_interrupt: Vec<u32>)
        ensures
            final(self)@ == stop_step(old(self)@).0,
            final(self).managers == old(self).managers,
            to_interrupt@ == stop_step(old(self)@).1,
    {
        if self.is_running() {
            self.running = false;
            self.child_pids.clone()
        } else {
            Vec::new()
        }
    }
}

/// A stop request to an idle orchestrator changes nothing and asks for no
/// process to be interrupted.
pub proof fn stop_when_idle_does_nothing(updater: UpdaterView)
    requires
        !updater.running,
    ensures
        stop_step(updater) == (updater, Seq::<u32>::empty()),
{
}

/// A stop request to a running orchestrator reaches every process that is
/// tracked at that moment, and leaves the orchestrator idle.
pub proof fn stop_reaches_tracked_processes(updater: UpdaterView)
    requires
        updater.running,
    ensures
        stop_step(updater).1 == updater.child_pids,
        !stop_step(updater).0.running,
        stop_step(stop_step(updater).0) == (stop_step(updater).0, Seq::<u32>::empty()),
{
}

/// A process that has gone is tracked no longer, and every other process is
/// tracked exactly as before.
pub proof fn exited_process_is_forgotten(pids: Seq<u32>, pid: u32)
    ensures
        !without(pids, pid).contains(pid),
        forall|other: u32|
            other != pid ==> (without(pids, pid).contains(other) <==> pids.contains(other)),
    decreases pids.len(),
{
    if pids.len() > 0 {
        let front = pids.drop_last();
        let last = pids.last();
        exited_process_is_forgotten(front, pid);
        assert(pids =~= front.push(last));
        vstd::seq_lib::lemma_seq_contains_after_push(without(front, pid), last, pid);
        assert forall|other: u32| other != pid implies (without(pids, pid).contains(other)
            <==> pids.contains(other)) by {
            vstd::seq_lib::lemma_seq_contains_after_push(front, last, other);
            vstd::seq_lib::lemma_seq_contains_after_push(without(front, pid), last, other);
        }
    }
}

/// When a stop request arrives while a source is in flight, that source
/// still completes with its own outcome, the run then ends with the overall
/// outcome so far, and no later source of the selection is started or
/// reported. In particular the run ends without success when the interrupted
/// source fails.
pub proof fn stop_skips_later_sources(updater: UpdaterView, run: RunView, pid: u32, success: bool)
    requires
        updater.running,
        !run.finished,
        run.active is Some,
    ensures
        ({
            let stopped = stop_step(updater).0;
            let exited = UpdaterView { child_pids: without(stopped.child_pids, pid), ..stopped };
            let last = next_launch_step(exited, source_done(run, success));
            &&& last.2 is None
            &&& !last.0.running
            &&& last.1.finished
            &&& last.1.position == run.position
            &&& last.1.events == run.events.push(
                EventView::SourceCompleted(run.active->0, success),
            ).push(EventView::Completed(run.success && success))
        }),
{
}

/// A step of the run loop keeps the run consistent. A run that was waiting
/// for nothing has ended after the step exactly when the step starts no
/// command, and the orchestrator is then idle; when the step starts a
/// command, the orchestrator is still running.
pub proof fn next_launch_keeps_consistency(updater: UpdaterView, run: RunView)
    requires
        run_consistent(run),
    ensures
        ({
            let step = next_launch_step(updater, run);
            &&& run_consistent(step.1)
            &&& !run.finished && run.active is None ==> (step.1.finished <==> step.2 is None)
            &&& !run.finished && run.active is None && step.1.finished ==> !step.0.running
            &&& step.2 is Some ==> step.0.running && step.1.active is Some
        }),
{
    if !run.finished && run.active is None {
        if updater.running {
            walking_keeps_consistency(updater.managers, run);
        } else {
            ending_a_run_is_consistent(run);
        }
    }
}

} // verus!
