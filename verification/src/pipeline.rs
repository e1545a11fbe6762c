//! The pipeline controller: holds the latest text, the selected entry point,
//! the scheduler and the published artifact, and decides on each event
//! whether a parse runs.
//!
//! A mode change never parses by itself: the new entry point is used from the
//! next trigger on, be it a tick of the running scheduler or a commit.

use vstd::prelude::*;
use crate::artifact::{empty_artifact, ArtifactView, ParseArtifact};
use crate::mode::{GrammarEntryPoint, ModeSelector};
use crate::scheduler::{DebounceScheduler, SchedulerError, SchedulerView, DEFAULT_INTERVAL};
use crate::service::{parse_artifact, ParseService};

verus! {

/// The mathematical value of a pipeline controller.
pub struct PipelineView {
    /// The latest text that the presentation layer handed in.
    pub text: Seq<char>,
    /// The entry point that is selected.
    pub mode: GrammarEntryPoint,
    /// The scheduler of this session.
    pub scheduler: SchedulerView,
    /// The text that the last parse attempt read.
    pub parsed_text: Seq<char>,
    /// The entry point that the last parse attempt used.
    pub parsed_mode: GrammarEntryPoint,
    /// The artifact that is published.
    pub artifact: ArtifactView,
}

impl PipelineView {
    /// The published artifact is never stale or made up: it is the empty one
    /// of a session without a parse attempt, or it is what the parse service
    /// gives for the snapshot that the last attempt read.
    pub open spec fn wf(self) -> bool {
        &&& self.scheduler.wf()
        &&& (self.artifact == empty_artifact() || self.artifact == parse_artifact(
            self.parsed_text,
            self.parsed_mode,
        ))
    }

    /// The state at startup: empty text, `TopLevelItem`, an empty artifact
    /// and an idle scheduler.
    pub open spec fn initial(interval: nat) -> PipelineView {
        PipelineView {
            text: Seq::empty(),
            mode: GrammarEntryPoint::TopLevelItem,
            scheduler: SchedulerView::idle(interval),
            parsed_text: Seq::empty(),
            parsed_mode: GrammarEntryPoint::TopLevelItem,
            artifact: empty_artifact(),
        }
    }

    /// After the user changed the text: only the latest text differs.
    pub open spec fn edited(self, text: Seq<char>) -> PipelineView {
        PipelineView { text, ..self }
    }

    /// After another entry point was selected: only the mode differs.
    pub open spec fn mode_changed(self, mode: GrammarEntryPoint) -> PipelineView {
        PipelineView { mode, ..self }
    }

    /// After a trigger: the latest text and mode were parsed and the result
    /// replaced the artifact.
    pub open spec fn triggered(self) -> PipelineView {
        PipelineView {
            parsed_text: self.text,
            parsed_mode: self.mode,
            artifact: parse_artifact(self.text, self.mode),
            ..self
        }
    }

    /// After the user committed `text`: it became the latest text and was
    /// parsed at once.
    pub open spec fn committed(self, text: Seq<char>) -> PipelineView {
        self.edited(text).triggered()
    }

    /// After a tick of the host's timer: a trigger while the scheduler runs,
    /// nothing otherwise.
    pub open spec fn ticked(self) -> PipelineView {
        if self.scheduler.running {
            self.triggered()
        } else {
            self
        }
    }

    /// After one event.
    pub open spec fn after(self, event: EventView) -> PipelineView {
        match event {
            EventView::TextEdited(text) => self.edited(text),
            EventView::TextCommitted(text) => self.committed(text),
            EventView::ModeSelected(mode) => self.mode_changed(mode),
            EventView::TimerTick => self.ticked(),
        }
    }

    /// After a queue of events, handled in their order.
    pub open spec fn after_all(self, events: Seq<EventView>) -> PipelineView
        decreases events.len(),
    {
        if events.len() == 0 {
            self
        } else {
            self.after_all(events.drop_last()).after(events.last())
        }
    }

    /// After the scheduler was started.
    pub open spec fn started(self) -> PipelineView {
        PipelineView { scheduler: self.scheduler.started(), ..self }
    }

    /// After the scheduler was stopped.
    pub open spec fn stopped(self) -> PipelineView {
        PipelineView { scheduler: self.scheduler.stopped(), ..self }
    }
}

/// What the presentation layer and the host's timer report to the pipeline.
/// The events form one queue and are handled one at a time, in their order.
#[derive(Debug)]
pub enum PipelineEvent {
    /// The user changed the text.
    TextEdited(String),
    /// The user committed the text, as by leaving the input field.
    TextCommitted(String),
    /// The user selected an entry point.
    ModeSelected(GrammarEntryPoint),
    /// One interval of the host's timer has passed.
    TimerTick,
}

/// The mathematical value of an event.
pub enum EventView {
    TextEdited(Seq<char>),
    TextCommitted(Seq<char>),
    ModeSelected(GrammarEntryPoint),
    TimerTick,
}

impl PipelineEvent {
    pub open spec fn view(&self) -> EventView {
        match self {
            PipelineEvent::TextEdited(text) => EventView::TextEdited(text@),
            PipelineEvent::TextCommitted(text) => EventView::TextCommitted(text@),
            PipelineEvent::ModeSelected(mode) => EventView::ModeSelected(*mode),
            PipelineEvent::TimerTick => EventView::TimerTick,
        }
    }
}

/// The last parse attempt: the snapshot that it read and what it gave.
#[derive(Debug)]
struct Attempt {
    text: String,
    mode: GrammarEntryPoint,
    artifact: ParseArtifact,
}

/// The orchestrator of one session.
#[derive(Debug)]
pub struct PipelineController {
    text: String,
    selector: ModeSelector,
    scheduler: DebounceScheduler,
    last: Attempt,
}

impl PipelineController {
    #[verifier::type_invariant]
    spec fn well_formed(self) -> bool {
        self@.wf()
    }

    pub closed spec fn view(&self) -> PipelineView {
        PipelineView {
            text: self.text@,
            mode: self.selector@,
            scheduler: self.scheduler@,
            parsed_text: self.last.text@,
            parsed_mode: self.last.mode,
            artifact: self.last.artifact@,
        }
    }

    /// A controller at startup whose scheduler has the given interval. A zero
    /// interval is refused.
    pub fn new(interval: u32) -> (made: Result<PipelineController, SchedulerError>)
        ensures
            interval == 0 <==> made.is_err(),
            made matches Err(e) ==> e == SchedulerError::ZeroInterval,
            made matches Ok(c) ==> c@ == PipelineView::initial(interval as nat) && c@.wf(),
    {
        match DebounceScheduler::new(interval) {
            Ok(scheduler) => Ok(
                PipelineController {
                    text: String::new(),
                    selector: ModeSelector::new(),
                    scheduler,
                    last: Attempt {
                        text: String::new(),
                        mode: GrammarEntryPoint::TopLevelItem,
                        artifact: ParseArtifact::empty(),
                    },
                },
            ),
            Err(e) => Err(e),
        }
    }

    /// A controller at startup whose scheduler has the default interval.
    pub fn with_default_interval() -> (made: PipelineController)
        ensures
            made@ == PipelineView::initial(DEFAULT_INTERVAL as nat),
            made@.wf(),
    {
        PipelineController {
            text: String::new(),
            selector: ModeSelector::new(),
            scheduler: DebounceScheduler::with_default_interval(),
            last: Attempt {
                text: String::new(),
                mode: GrammarEntryPoint::TopLevelItem,
                artifact: ParseArtifact::empty(),
            },
        }
    }

    /// Starts the scheduler of this session. A second start without a stop
    /// in between is refused and changes nothing.
    pub fn start(&mut self) -> (done: Result<(), SchedulerError>)
        ensures
            old(self)@.scheduler.running <==> done.is_err(),
            done matches Err(e) ==> e == SchedulerError::AlreadyRunning && final(self)@ == old(
                self,
            )@,
            done.is_ok() ==> final(self)@ == old(self)@.started(),
            final(self)@.wf(),
    {
        proof {
            use_type_invariant(&*self);
        }
        self.scheduler.start()
    }

    /// Stops the scheduler: from now on no tick is a trigger.
    pub fn stop(&mut self)
        ensures
            final(self)@ == old(self)@.stopped(),
            final(self)@.wf(),
    {
        proof {
            use_type_invariant(&*self);
        }
        self.scheduler.stop();
    }

    /// Takes the text as the user has changed it. Nothing is parsed.
    pub fn edit_text(&mut self, text: String)
        ensures
            final(self)@ == old(self)@.edited(text@),
            final(self)@.wf(),
    {
        proof {
            use_type_invariant(&*self);
        }
        self.text = text;
    }

    /// Selects another entry point and tells whether the selection changed.
    /// Nothing is parsed: the next trigger reads the new entry point.
    pub fn on_mode_change(&mut self, new_mode: GrammarEntryPoint) -> (changed: bool)
        ensures
            final(self)@ == old(self)@.mode_changed(new_mode),
            changed == (old(self)@.mode != new_mode),
            final(self)@.wf(),
    {
        proof {
            use_type_invariant(&*self);
        }
        self.selector.select(new_mode)
    }

    /// Parses the latest text under the selected entry point and publishes
    /// the result in place of the previous artifact. The result tells whether
    /// the published artifact differs from the previous one.
    pub fn on_trigger(&mut self) -> (changed: bool)
        ensures
            final(self)@ == old(self)@.triggered(),
            changed == (final(self)@.artifact != old(self)@.artifact),
            final(self)@.wf(),
    {
        proof {
            use_type_invariant(&*self);
        }
        let mode = self.selector.current();
        let artifact = ParseService::parse(self.text.as_str(), mode);
        let changed = !artifact.same_as(&self.last.artifact);
        self.last = Attempt { text: self.text.clone(), mode, artifact };
        changed
    }

    /// Takes `text` as committed by the user and parses it at once, whatever
    /// the phase or state of the scheduler, which is left as it is.
    pub fn text_committed(&mut self, text: String) -> (changed: bool)
        ensures
            final(self)@ == old(self)@.committed(text@),
            final(self)@.artifact == parse_artifact(text@, old(self)@.mode),
            final(self)@.scheduler == old(self)@.scheduler,
            changed == (final(self)@.artifact != old(self)@.artifact),
            final(self)@.wf(),
    {
        self.edit_text(text);
        self.on_trigger()
    }

    /// One tick of the host's timer. While the scheduler runs it is a
    /// trigger; after a stop it is ignored. The result tells whether a parse
    /// ran.
    pub fn timer_tick(&mut self) -> (fired: bool)
        ensures
            fired == old(self)@.scheduler.running,
            final(self)@ == old(self)@.ticked(),
            final(self)@.wf(),
    {
        proof {
            use_type_invariant(&*self);
        }
        if self.scheduler.tick() {
            self.on_trigger();
            true
        } else {
            false
        }
    }

    /// Handles one event of the session and tells whether the published
    /// artifact differs from the one before it.
    pub fn handle(&mut self, event: PipelineEvent) -> (changed: bool)
        ensures
            final(self)@ == old(self)@.after(event@),
            changed == (final(self)@.artifact != old(self)@.artifact),
            final(self)@.wf(),
    {
        match event {
            PipelineEvent::TextEdited(text) => {
                self.edit_text(text);
                false
            },
            PipelineEvent::TextCommitted(text) => self.text_committed(text),
            PipelineEvent::ModeSelected(mode) => {
                self.on_mode_change(mode);
                false
            },
            PipelineEvent::TimerTick => {
                if self.scheduler.tick() {
                    self.on_trigger()
                } else {
                    proof {
                        use_type_invariant(&*self);
                    }
                    false
                }
            },
        }
    }

    /// The artifact that is published.
    pub fn current_artifact(&self) -> (artifact: &ParseArtifact)
        ensures
            artifact@ == self@.artifact,
            self@.wf(),
    {
        proof {
            use_type_invariant(self);
        }
        &self.last.artifact
    }

    /// The entry point that is selected.
    pub fn current_mode(&self) -> (mode: GrammarEntryPoint)
        ensures
            mode == self@.mode,
    {
        self.selector.current()
    }

    /// The latest text.
    pub fn current_text(&self) -> (text: &str)
        ensures
            text@ == self@.text,
    {
        self.text.as_str()
    }

    /// Whether the scheduler of this session runs.
    pub fn is_running(&self) -> (running: bool)
        ensures
            running == self@.scheduler.running,
    {
        self.scheduler.is_running()
    }

    /// The interval of the scheduler, for the host to set its timer by.
    pub fn interval(&self) -> (interval: u32)
        ensures
            interval == self@.scheduler.interval,
            interval > 0,
    {
        self.scheduler.interval()
    }
}

/// The startup state is well-formed for every interval but zero.
pub proof fn lemma_initial_is_well_formed(interval: nat)
    requires
        interval > 0,
    ensures
        PipelineView::initial(interval).wf(),
{
}

/// Every event leaves a well-formed state well-formed: whatever happens, the
/// published artifact is the empty one or the parse of the snapshot that the
/// last attempt read.
pub proof fn lemma_events_keep_well_formed(
    s: PipelineView,
    text: Seq<char>,
    mode: GrammarEntryPoint,
)
    requires
        s.wf(),
    ensures
        s.edited(text).wf(),
        s.mode_changed(mode).wf(),
        s.triggered().wf(),
        s.committed(text).wf(),
        s.ticked().wf(),
        s.started().wf(),
        s.stopped().wf(),
{
}

/// Whatever queue of events a session handles, in every state that it
/// reaches the published artifact is the empty one or the parse of the
/// snapshot that the last attempt read.
pub proof fn lemma_every_reachable_state_is_well_formed(s: PipelineView, events: Seq<EventView>)
    requires
        s.wf(),
    ensures
        s.after_all(events).wf(),
    decreases events.len(),
{
    if events.len() > 0 {
        lemma_every_reachable_state_is_well_formed(s, events.drop_last());
    }
}

/// A trigger is idempotent: a second trigger with no change of text or mode
/// in between leaves the state, and with it the published artifact, as the
/// first one left it.
pub proof fn lemma_trigger_is_idempotent(s: PipelineView)
    ensures
        s.triggered().triggered() == s.triggered(),
        s.triggered().triggered().artifact == s.triggered().artifact,
{
}

/// A commit is parsed at once, whatever the scheduler's state and phase, and
/// the artifact is that of the committed text, not of the text before it.
pub proof fn lemma_commit_is_immediate(s: PipelineView, text: Seq<char>)
    ensures
        s.committed(text).artifact == parse_artifact(text, s.mode),
        s.committed(text).parsed_text == text,
        s.committed(text).scheduler == s.scheduler,
        s.started().committed(text).artifact == s.stopped().committed(text).artifact,
{
}

/// Edits between two triggers are coalesced: of several texts handed in one
/// after the other only the last is ever parsed, and the state after the next
/// trigger is the one that the last text alone would have led to.
pub proof fn lemma_only_last_edit_is_parsed(
    s: PipelineView,
    first: Seq<char>,
    second: Seq<char>,
    third: Seq<char>,
)
    ensures
        s.edited(first).artifact == s.artifact,
        s.edited(first).edited(second).edited(third) == s.edited(third),
        s.edited(first).edited(second).edited(third).triggered() == s.edited(third).triggered(),
        s.edited(first).edited(second).edited(third).triggered().artifact == parse_artifact(
            third,
            s.mode,
        ),
{
}

/// A mode change parses nothing: the artifact stays until the next trigger,
/// which then reads the new entry point.
pub proof fn lemma_mode_change_waits_for_trigger(s: PipelineView, mode: GrammarEntryPoint)
    ensures
        s.mode_changed(mode).artifact == s.artifact,
        s.mode_changed(mode).triggered().artifact == parse_artifact(s.text, mode),
{
}

/// After a stop no tick is a trigger: the state stays as it is, however many
/// ticks still arrive.
pub proof fn lemma_no_trigger_after_stop(s: PipelineView)
    ensures
        s.stopped().ticked() == s.stopped(),
        s.stopped().ticked().ticked() == s.stopped(),
{
}

/// While the scheduler runs, a tick is a trigger and publishes the parse of
/// the latest text under the selected entry point.
pub proof fn lemma_tick_parses_while_running(s: PipelineView)
    requires
        s.scheduler.running,
    ensures
        s.ticked() == s.triggered(),
        s.ticked().artifact == parse_artifact(s.text, s.mode),
{
}

} // verus!
