//! The course of the program, from the recording to the finished video.

use std::collections::HashSet;
use std::path::PathBuf;
use vstd::prelude::*;

use crate::config::{initial_config, VideoConfig};
use crate::text::push_text;
use crate::ui::run::Reply;
use crate::ui::state::{typed, DrawState, UiDirective, UiMessage};
use crate::video::clips::Clip;

verus! {

/// Why the program cannot go on.
#[derive(Debug, Clone, Copy, PartialEq, Eq, Structural)]
pub enum ProcessError {
    /// It was not told what to work on.
    NoInputFile,
    /// It was not told where to put the video, and there is no usual place.
    NoOutputPath,
    /// The user has asked to stop.
    UserStop,
    /// The user has asked to exit.
    UserExit,
}

/// What the user is told.
pub open spec fn process_message(e: ProcessError) -> Seq<char> {
    match e {
        ProcessError::NoInputFile => "Please provide an input file"@,
        ProcessError::NoOutputPath => "Please provide a video output path"@,
        ProcessError::UserStop => "User requested stop"@,
        ProcessError::UserExit => "User requested exit"@,
    }
}

impl ProcessError {
    /// What the user is told.
    pub fn message(&self) -> (r: &'static str)
        ensures
            r@ == process_message(*self),
    {
        match self {
            ProcessError::NoInputFile => "Please provide an input file",
            ProcessError::NoOutputPath => "Please provide a video output path",
            ProcessError::UserStop => "User requested stop",
            ProcessError::UserExit => "User requested exit",
        }
    }
}

/// What to work on: the argument that was given for it.
pub fn input_file(argument: Option<PathBuf>) -> (r: Result<PathBuf, ProcessError>)
    ensures
        r == match argument {
            Some(path) => Ok::<PathBuf, ProcessError>(path),
            None => Err::<PathBuf, ProcessError>(ProcessError::NoInputFile),
        },
{
    match argument {
        Some(path) => Ok(path),
        None => Err(ProcessError::NoInputFile),
    }
}

/// Where to put the video: the argument that was given for it, or else the usual place.
pub fn output_file(argument: Option<PathBuf>, usual: Option<PathBuf>) -> (r: Result<
    PathBuf,
    ProcessError,
>)
    ensures
        r == match (argument, usual) {
            (Some(path), _) => Ok::<PathBuf, ProcessError>(path),
            (None, Some(path)) => Ok::<PathBuf, ProcessError>(path),
            (None, None) => Err::<PathBuf, ProcessError>(ProcessError::NoOutputPath),
        },
{
    match argument {
        Some(path) => Ok(path),
        None => match usual {
            Some(path) => Ok(path),
            None => Err(ProcessError::NoOutputPath),
        },
    }
}

/// Whether any of the arguments asks for the temporary directory to be kept.
pub open spec fn asks_to_keep(arguments: Seq<Seq<char>>) -> bool {
    arguments.contains("--keep-temp"@)
}

/// Arguments, as text.
pub open spec fn argument_texts(arguments: Seq<String>) -> Seq<Seq<char>> {
    arguments.map_values(|a: String| a@)
}

/// Whether the temporary directory should be kept: whether any argument asks for it.
pub fn keep_temp(arguments: &Vec<String>) -> (r: bool)
    ensures
        r == asks_to_keep(argument_texts(arguments@)),
{
    let wanted = "--keep-temp".to_owned();
    for i in 0..arguments.len()
        invariant
            wanted@ == "--keep-temp"@,
            forall|j: int| 0 <= j < i ==> argument_texts(arguments@)[j] != "--keep-temp"@,
    {
        if arguments[i] == wanted {
            assert(argument_texts(arguments@)[i as int] == "--keep-temp"@);
            return true;
        }
    }
    false
}

/// What the program does after the user has seen the clips.
#[derive(Debug, Clone, Copy, PartialEq, Eq, Structural)]
pub enum ProcessStep {
    /// Nothing more.
    Stop,
    /// Cut the recording again.
    Again(VideoConfig),
    /// Make the video.
    Render,
}

/// Determines what the program does after the user has seen the clips.
pub fn after_clips(message: UiMessage) -> (r: ProcessStep)
    ensures
        r == match message {
            UiMessage::Halt => ProcessStep::Stop,
            UiMessage::RerunVideoProcess(config) => ProcessStep::Again(config),
            UiMessage::GoForIt => ProcessStep::Render,
        },
{
    match message {
        UiMessage::Halt => ProcessStep::Stop,
        UiMessage::RerunVideoProcess(config) => ProcessStep::Again(config),
        UiMessage::GoForIt => ProcessStep::Render,
    }
}

/// What has happened in the course of the program.
#[derive(Debug)]
pub enum ProcessEvent {
    /// The recording was cut into these clips, and those at `indices` were picked.
    Clipped { clips: Vec<Clip>, indices: HashSet<usize> },
    /// The user has answered to the clips, and has left those at `active` active.
    Answered { message: UiMessage, active: HashSet<usize> },
    /// The video was made.
    Rendered,
    /// These are the arguments of the program.
    Arguments(Vec<String>),
}

/// What the program does next.
#[derive(Debug)]
pub enum ProcessAction {
    /// Cut the recording, and pick clips.
    Cut(VideoConfig),
    /// Show this to the user, and wait for the answer.
    Show(UiDirective),
    /// Make a video of those clips that are at `active`.
    Render { clips: Vec<Clip>, active: HashSet<usize> },
    /// Look at the arguments.
    ReadArguments,
    /// Keep the temporary directory. This is the end.
    Keep,
    /// Remove the temporary directory. This is the end.
    Remove,
}

/// How far the program has come.
#[derive(Debug)]
pub enum Stage {
    /// The recording is being cut.
    Cutting,
    /// The user is shown these clips.
    Asking(Vec<Clip>),
    /// The video is being made.
    Rendering,
    /// All but the temporary directory is taken care of.
    Cleaning,
    /// Nothing is left to do.
    Over,
}

/// The course of the program from the recording to the finished video. It goes in rounds: the
/// recording is cut and shown to the user, who may ask for it to be cut differently.
#[derive(Debug)]
pub struct Processing {
    /// How the recording is cut in this round.
    pub config: VideoConfig,
    /// How far the program has come.
    pub stage: Stage,
}

/// What has happened, in mathematical terms.
pub enum EventView {
    Clipped { clips: Seq<Clip>, indices: Set<usize> },
    Answered { message: UiMessage, active: Set<usize> },
    Rendered,
    Arguments(Seq<Seq<char>>),
}

/// What the program does next, in mathematical terms.
pub enum ActionView {
    Cut(VideoConfig),
    Show { clips: Seq<Clip>, indices: Set<usize>, config: VideoConfig },
    Render { clips: Seq<Clip>, active: Set<usize> },
    ReadArguments,
    Keep,
    Remove,
}

/// How far the program has come, in mathematical terms.
pub enum StageView {
    Cutting,
    Asking(Seq<Clip>),
    Rendering,
    Cleaning,
    Over,
}

/// The course of the program, in mathematical terms.
pub struct ProcessView {
    /// How the recording is cut in this round.
    pub config: VideoConfig,
    /// How far the program has come.
    pub stage: StageView,
}

impl View for ProcessEvent {
    type V = EventView;

    open spec fn view(&self) -> EventView {
        match self {
            ProcessEvent::Clipped { clips, indices } => EventView::Clipped {
                clips: clips@,
                indices: indices@,
            },
            ProcessEvent::Answered { message, active } => EventView::Answered {
                message: *message,
                active: active@,
            },
            ProcessEvent::Rendered => EventView::Rendered,
            ProcessEvent::Arguments(arguments) => EventView::Arguments(argument_texts(arguments@)),
        }
    }
}

impl Reply {
    /// What has happened when the user has replied.
    pub fn into_event(self) -> (r: ProcessEvent)
        ensures
            r@ == (EventView::Answered { message: self.message, active: self.active@ }),
    {
        ProcessEvent::Answered { message: self.message, active: self.active }
    }
}

/// Whether `action` is what `view` says.
pub open spec fn does(action: ProcessAction, view: ActionView) -> bool {
    match action {
        ProcessAction::Cut(config) => view == ActionView::Cut(config),
        ProcessAction::Show(UiDirective::Clips { clips, indices, config }) => view
            == (ActionView::Show { clips: clips@, indices: indices@, config }),
        ProcessAction::Show(_) => false,
        ProcessAction::Render { clips, active } => view == (ActionView::Render {
            clips: clips@,
            active: active@,
        }),
        ProcessAction::ReadArguments => view is ReadArguments,
        ProcessAction::Keep => view is Keep,
        ProcessAction::Remove => view is Remove,
    }
}

impl View for Processing {
    type V = ProcessView;

    open spec fn view(&self) -> ProcessView {
        ProcessView {
            config: self.config,
            stage: match self.stage {
                Stage::Cutting => StageView::Cutting,
                Stage::Asking(clips) => StageView::Asking(clips@),
                Stage::Rendering => StageView::Rendering,
                Stage::Cleaning => StageView::Cleaning,
                Stage::Over => StageView::Over,
            },
        }
    }
}

/// Where an event takes the program, and what the program does then. `None` if the event cannot
/// happen at this stage.
pub open spec fn next_step(state: ProcessView, event: EventView) -> Option<
    (ProcessView, ActionView),
> {
    match (state.stage, event) {
        (StageView::Cutting, EventView::Clipped { clips, indices }) => Some(
            (
                ProcessView { stage: StageView::Asking(clips), ..state },
                ActionView::Show { clips, indices, config: state.config },
            ),
        ),
        (StageView::Asking(clips), EventView::Answered { message, active }) => Some(
            match message {
                UiMessage::Halt => (
                    ProcessView { stage: StageView::Cleaning, ..state },
                    ActionView::ReadArguments,
                ),
                UiMessage::RerunVideoProcess(config) => (
                    ProcessView { config, stage: StageView::Cutting },
                    ActionView::Cut(config),
                ),
                UiMessage::GoForIt => (
                    ProcessView { stage: StageView::Rendering, ..state },
                    ActionView::Render { clips, active },
                ),
            },
        ),
        (StageView::Rendering, EventView::Rendered) => Some(
            (ProcessView { stage: StageView::Cleaning, ..state }, ActionView::ReadArguments),
        ),
        (StageView::Cleaning, EventView::Arguments(arguments)) => Some(
            (
                ProcessView { stage: StageView::Over, ..state },
                if asks_to_keep(arguments) {
                    ActionView::Keep
                } else {
                    ActionView::Remove
                },
            ),
        ),
        _ => None,
    }
}

/// The same clips once more.
fn copied(clips: &Vec<Clip>) -> (r: Vec<Clip>)
    ensures
        r@ == clips@,
{
    let mut out: Vec<Clip> = Vec::new();
    for i in 0..clips.len()
        invariant
            out@ == clips@.take(i as int),
    {
        out.push(clips[i]);
        assert(clips@.take(i + 1) =~= clips@.take(i as int).push(clips@[i as int]));
    }
    assert(clips@.take(clips@.len() as int) =~= clips@);
    out
}

impl Processing {
    /// The program at its start, and what it does first: it cuts the recording with the
    /// configuration that is set before the user has a say.
    pub fn start() -> (r: (Processing, ProcessAction))
        ensures
            r.0@ == start_view(),
            does(r.1, ActionView::Cut(initial_config())),
    {
        let config = VideoConfig::initial();
        (Processing { config, stage: Stage::Cutting }, ProcessAction::Cut(config))
    }

    /// Something has happened. Returns what the program does next; nothing, and nothing changes,
    /// if this cannot happen at the stage that the program is at.
    pub fn step(&mut self, event: ProcessEvent) -> (r: Option<ProcessAction>)
        ensures
            match next_step(old(self)@, event@) {
                Some((state, action)) => final(self)@ == state && r is Some && does(
                    r->Some_0,
                    action,
                ),
                None => final(self)@ == old(self)@ && r is None,
            },
    {
        match event {
            ProcessEvent::Clipped { clips, indices } => match &self.stage {
                Stage::Cutting => {
                    self.stage = Stage::Asking(copied(&clips));
                    Some(
                        ProcessAction::Show(
                            UiDirective::Clips { clips, indices, config: self.config },
                        ),
                    )
                },
                _ => None,
            },
            ProcessEvent::Answered { message, active } => match &self.stage {
                Stage::Asking(clips) => match after_clips(message) {
                    ProcessStep::Stop => {
                        self.stage = Stage::Cleaning;
                        Some(ProcessAction::ReadArguments)
                    },
                    ProcessStep::Again(config) => {
                        self.config = config;
                        self.stage = Stage::Cutting;
                        Some(ProcessAction::Cut(config))
                    },
                    ProcessStep::Render => {
                        let clips = copied(clips);
                        self.stage = Stage::Rendering;
                        Some(ProcessAction::Render { clips, active })
                    },
                },
                _ => None,
            },
            ProcessEvent::Rendered => match &self.stage {
                Stage::Rendering => {
                    self.stage = Stage::Cleaning;
                    Some(ProcessAction::ReadArguments)
                },
                _ => None,
            },
            ProcessEvent::Arguments(arguments) => match &self.stage {
                Stage::Cleaning => {
                    self.stage = Stage::Over;
                    Some(
                        if keep_temp(&arguments) {
                            ProcessAction::Keep
                        } else {
                            ProcessAction::Remove
                        },
                    )
                },
                _ => None,
            },
        }
    }
}

/// What the user has chosen is what is made: if the space bar is pressed while the list of clips is
/// shown, the reply asks for the video, and the program makes it of the clips of this round that
/// are active in the list.
pub proof fn the_choice_is_rendered(
    before: DrawState,
    after: DrawState,
    message: UiMessage,
    state: ProcessView,
    clips: Seq<Clip>,
)
    requires
        before.last_directive is Clips,
        typed(before, after, ' ', Some(message)),
        state.stage == StageView::Asking(clips),
    ensures
        message == UiMessage::GoForIt,
        next_step(state, EventView::Answered { message, active: after.active() }) == Some(
            (
                ProcessView { stage: StageView::Rendering, ..state },
                ActionView::Render { clips, active: before.active() },
            ),
        ),
{
}

/// Where a row of events takes the program, and what the program does on the way. `None` if one of
/// them cannot happen when its turn comes.
pub open spec fn course(state: ProcessView, events: Seq<EventView>) -> Option<
    (ProcessView, Seq<ActionView>),
>
    decreases events.len(),
{
    if events.len() == 0 {
        Some((state, seq![]))
    } else {
        match course(state, events.drop_last()) {
            None => None,
            Some((before, actions)) => match next_step(before, events.last()) {
                None => None,
                Some((after, action)) => Some((after, actions.push(action))),
            },
        }
    }
}

/// A round: the recording is cut into `clips`, of which those at `indices` are picked; the user
/// answers with `message` when those at `active` are active.
pub struct Round {
    pub clips: Seq<Clip>,
    pub indices: Set<usize>,
    pub message: UiMessage,
    pub active: Set<usize>,
}

/// What happens in the given rounds, one after the other.
pub open spec fn round_events(rounds: Seq<Round>) -> Seq<EventView>
    decreases rounds.len(),
{
    if rounds.len() == 0 {
        seq![]
    } else {
        let last = rounds.last();
        round_events(rounds.drop_last()).push(
            EventView::Clipped { clips: last.clips, indices: last.indices },
        ).push(EventView::Answered { message: last.message, active: last.active })
    }
}

/// How the recording is cut in round `k`: as set before the user has a say in the first round,
/// and as the answer of the round before says in any other.
pub open spec fn round_config(rounds: Seq<Round>, k: int) -> VideoConfig {
    if k <= 0 {
        initial_config()
    } else {
        rounds[k - 1].message->RerunVideoProcess_0
    }
}

/// Whether the user asks in every one of the rounds for another one.
pub open spec fn goes_on(rounds: Seq<Round>) -> bool {
    forall|k: int| 0 <= k < rounds.len() ==> (#[trigger] rounds[k]).message is RerunVideoProcess
}

/// What happens after the rounds: the video is made if the last answer asks for it, and the
/// arguments are read.
pub open spec fn closing_events(message: UiMessage, arguments: Seq<Seq<char>>) -> Seq<EventView> {
    if message is GoForIt {
        seq![EventView::Rendered, EventView::Arguments(arguments)]
    } else {
        seq![EventView::Arguments(arguments)]
    }
}

/// What the program does when the recording of round `k` is cut.
pub open spec fn after_cut(actions: Seq<ActionView>, k: int) -> ActionView {
    actions[2 * k]
}

/// What the program does when the user has answered in round `k`.
pub open spec fn after_answer(actions: Seq<ActionView>, k: int) -> ActionView {
    actions[2 * k + 1]
}

/// What the program shows to the user in round `k`.
pub open spec fn round_shown(rounds: Seq<Round>, k: int) -> ActionView {
    ActionView::Show {
        clips: rounds[k].clips,
        indices: rounds[k].indices,
        config: round_config(rounds, k),
    }
}

/// The state at the start.
pub open spec fn start_view() -> ProcessView {
    ProcessView { config: initial_config(), stage: StageView::Cutting }
}

proof fn lemma_one_more(events: Seq<EventView>, event: EventView)
    requires
        course(start_view(), events) is Some,
        next_step(course(start_view(), events)->Some_0.0, event) is Some,
    ensures
        ({
            let (before, actions) = course(start_view(), events)->Some_0;
            let (after, action) = next_step(before, event)->Some_0;
            course(start_view(), events.push(event)) == Some((after, actions.push(action)))
        }),
{
    assert(events.push(event).drop_last() =~= events);
}

proof fn lemma_rounds(rounds: Seq<Round>)
    requires
        goes_on(rounds),
    ensures
        ({
            let n = rounds.len() as int;
            let (state, actions) = course(start_view(), round_events(rounds))->Some_0;
            &&& course(start_view(), round_events(rounds)) is Some
            &&& state == (ProcessView {
                config: round_config(rounds, n),
                stage: StageView::Cutting,
            })
            &&& round_events(rounds).len() == 2 * n
            &&& actions.len() == 2 * n
            &&& forall|k: int|
                0 <= k < n ==> #[trigger] after_cut(actions, k) == round_shown(rounds, k)
            &&& forall|k: int|
                0 <= k < n ==> #[trigger] after_answer(actions, k) == ActionView::Cut(
                    round_config(rounds, k + 1),
                )
        }),
    decreases rounds.len(),
{
    let n = rounds.len() as int;
    if n > 0 {
        let rest = rounds.drop_last();
        assert forall|k: int| 0 <= k < rest.len() implies (
        #[trigger] rest[k]).message is RerunVideoProcess by {
            assert(rounds[k].message is RerunVideoProcess);
        }
        lemma_rounds(rest);
        let last = rounds.last();
        assert(rounds[n - 1].message is RerunVideoProcess);
        assert(round_config(rest, n - 1) == round_config(rounds, n - 1));
        let events = round_events(rest);
        let clipped = EventView::Clipped { clips: last.clips, indices: last.indices };
        let answered = EventView::Answered { message: last.message, active: last.active };
        lemma_one_more(events, clipped);
        lemma_one_more(events.push(clipped), answered);
        let before = course(start_view(), events)->Some_0.1;
        let actions = course(start_view(), round_events(rounds))->Some_0.1;
        assert(actions == before.push(round_shown(rounds, n - 1)).push(
            ActionView::Cut(round_config(rounds, n)),
        ));
        assert forall|k: int| 0 <= k < n implies #[trigger] after_cut(actions, k) == round_shown(
            rounds,
            k,
        ) by {
            if k < n - 1 {
                assert(after_cut(before, k) == round_shown(rest, k));
                assert(rest[k] == rounds[k]);
            }
        }
        assert forall|k: int| 0 <= k < n implies #[trigger] after_answer(actions, k)
            == ActionView::Cut(round_config(rounds, k + 1)) by {
            if k < n - 1 {
                assert(after_answer(before, k) == ActionView::Cut(round_config(rest, k + 1)));
            }
        }
    }
}

/// The law of the rounds. The user asks for another round as long as `rounds` go on, and in the
/// round `end` to halt or to make the video. Then each round is cut, and shown, with the
/// configuration that is its own: the first with the one that is set before the user has a say,
/// any other with the one that the user has asked for in the round before. The video is made
/// exactly if the last answer asks for it, once, and of the clips of the last round that are
/// active then. In the end the temporary directory is removed, unless an argument asks to keep it.
pub proof fn rounds_lead_to_one_video(
    rounds: Seq<Round>,
    end: Round,
    arguments: Seq<Seq<char>>,
)
    requires
        goes_on(rounds),
        end.message is Halt || end.message is GoForIt,
    ensures
        ({
            let all = rounds.push(end);
            let n = rounds.len() as int;
            let events = round_events(all) + closing_events(end.message, arguments);
            let (state, actions) = course(start_view(), events)->Some_0;
            &&& course(start_view(), events) is Some
            &&& state.stage is Over
            &&& actions.len() == events.len()
            &&& forall|k: int|
                0 <= k <= n ==> #[trigger] after_cut(actions, k) == round_shown(all, k)
            &&& forall|k: int|
                0 <= k < n ==> #[trigger] after_answer(actions, k) == ActionView::Cut(
                    round_config(all, k + 1),
                )
            &&& end.message is GoForIt ==> after_answer(actions, n) == (ActionView::Render {
                clips: end.clips,
                active: end.active,
            })
            &&& forall|i: int|
                0 <= i < actions.len() ==> ((#[trigger] actions[i]) is Render
                    <==> end.message is GoForIt && i == 2 * n + 1)
            &&& actions.last() == if asks_to_keep(arguments) {
                ActionView::Keep
            } else {
                ActionView::Remove
            }
        }),
{
    let all = rounds.push(end);
    let n = rounds.len() as int;
    lemma_rounds(rounds);
    assert(all.drop_last() =~= rounds);
    assert(round_config(all, n) == round_config(rounds, n));
    let clipped = EventView::Clipped { clips: end.clips, indices: end.indices };
    let answered = EventView::Answered { message: end.message, active: end.active };
    let finish = EventView::Arguments(arguments);
    let before = course(start_view(), round_events(rounds))->Some_0.1;
    let asked = round_events(rounds).push(clipped);
    let told = asked.push(answered);
    lemma_one_more(round_events(rounds), clipped);
    lemma_one_more(asked, answered);
    let events = told + closing_events(end.message, arguments);
    if end.message is GoForIt {
        lemma_one_more(told, EventView::Rendered);
        lemma_one_more(told.push(EventView::Rendered), finish);
        assert(events =~= told.push(EventView::Rendered).push(finish));
    } else {
        lemma_one_more(told, finish);
        assert(events =~= told.push(finish));
    }
    let actions = course(start_view(), events)->Some_0.1;
    assert(actions.take(2 * n) =~= before);
    assert(actions[2 * n] == round_shown(all, n));
    assert forall|k: int| 0 <= k <= n implies #[trigger] after_cut(actions, k) == round_shown(
        all,
        k,
    ) by {
        if k < n {
            assert(after_cut(before, k) == round_shown(rounds, k));
            assert(actions.take(2 * n)[2 * k] == actions[2 * k]);
        }
    }
    assert forall|k: int| 0 <= k < n implies #[trigger] after_answer(actions, k)
        == ActionView::Cut(round_config(all, k + 1)) by {
        assert(after_answer(before, k) == ActionView::Cut(round_config(rounds, k + 1)));
        assert(actions.take(2 * n)[2 * k + 1] == actions[2 * k + 1]);
    }
    assert forall|i: int| 0 <= i < actions.len() implies ((#[trigger] actions[i]) is Render
        <==> end.message is GoForIt && i == 2 * n + 1) by {
        if i <= 2 * n {
            let k = i / 2;
            if i == 2 * k {
                assert(after_cut(actions, k) is Show);
            } else {
                assert(after_answer(actions, k) is Cut);
            }
        }
    }
}

/// What has happened while the program waits for a task.
#[derive(Debug, Clone, Copy, PartialEq, Eq, Structural)]
pub enum TaskEvent {
    /// The task is done.
    Done,
    /// The user has sent a message. `None` if it was lost.
    Message(Option<UiMessage>),
}

/// What the program does about a task that it waits for.
#[derive(Debug, Clone, Copy, PartialEq, Eq, Structural)]
pub enum TaskStep {
    /// Take the result.
    Return,
    /// Break the task off, and fail because the user has asked to stop.
    Abort,
    /// Go on waiting.
    Wait,
}

/// Determines what the program does about a task: only a request to halt breaks it off.
pub fn task_step(event: TaskEvent) -> (r: TaskStep)
    ensures
        r == match event {
            TaskEvent::Done => TaskStep::Return,
            TaskEvent::Message(Some(UiMessage::Halt)) => TaskStep::Abort,
            TaskEvent::Message(_) => TaskStep::Wait,
        },
{
    match event {
        TaskEvent::Done => TaskStep::Return,
        TaskEvent::Message(Some(UiMessage::Halt)) => TaskStep::Abort,
        TaskEvent::Message(_) => TaskStep::Wait,
    }
}

/// What has happened while MELT runs.
#[derive(Debug, Clone, Copy, PartialEq, Eq, Structural)]
pub enum MeltEvent {
    /// It has come to an end.
    Exited,
    /// The user has sent a message.
    Message(UiMessage),
    /// It has written a line.
    Output,
    /// It has written a line about an error.
    ErrorOutput,
}

/// What the program does while MELT runs.
#[derive(Debug, Clone, Copy, PartialEq, Eq, Structural)]
pub enum MeltStep {
    /// Go on to what MELT has left behind.
    Drain,
    /// Kill MELT, then go on to what it has left behind.
    Kill,
    /// Go on waiting.
    Wait,
    /// Log the line as information, and go on waiting.
    LogOutput,
    /// Log the line as an error, and go on waiting.
    LogError,
}

/// Determines what the program does while MELT runs.
pub fn melt_step(event: MeltEvent) -> (r: MeltStep)
    ensures
        r == match event {
            MeltEvent::Exited => MeltStep::Drain,
            MeltEvent::Message(UiMessage::Halt) => MeltStep::Kill,
            MeltEvent::Message(_) => MeltStep::Wait,
            MeltEvent::Output => MeltStep::LogOutput,
            MeltEvent::ErrorOutput => MeltStep::LogError,
        },
{
    match event {
        MeltEvent::Exited => MeltStep::Drain,
        MeltEvent::Message(UiMessage::Halt) => MeltStep::Kill,
        MeltEvent::Message(_) => MeltStep::Wait,
        MeltEvent::Output => MeltStep::LogOutput,
        MeltEvent::ErrorOutput => MeltStep::LogError,
    }
}

/// Whether there may be more of what MELT has left behind: a line could be read, and it was not
/// empty.
pub fn drains_on(read: bool, line: &String) -> (r: bool)
    ensures
        r == (read && line@.len() > 0),
{
    read && !line.as_str().is_empty()
}

/// How many dots follow after `dots` of them: one more, or one again after three.
pub open spec fn next_dots(dots: int) -> int {
    if dots >= 3 {
        1
    } else {
        dots + 1
    }
}

/// A message that shows that something goes on: a text with a changing number of dots.
#[derive(Debug)]
pub struct Ellipsis {
    /// The text.
    pub text: String,
    /// How many dots it had last.
    pub dots: usize,
}

impl Ellipsis {
    /// A message that will first have three dots.
    pub fn new(text: &str) -> (r: Ellipsis)
        ensures
            r.text@ == text@,
            r.dots == 2,
    {
        Ellipsis { text: text.to_owned(), dots: 2 }
    }

    /// The message with its next number of dots.
    pub fn update(&mut self) -> (r: String)
        ensures
            final(self).text@ == old(self).text@,
            final(self).dots == next_dots(old(self).dots as int),
            r@ == old(self).text@ + Seq::new(final(self).dots as nat, |i: int| '.'),
    {
        if self.dots >= 3 {
            self.dots = 1;
        } else {
            self.dots = self.dots + 1;
        }
        let mut out = String::new();
        push_text(&mut out, self.text.as_str());
        let ghost text = out@;
        for i in 0..self.dots
            invariant
                out@ == text + Seq::new(i as nat, |i: int| '.'),
        {
            out.push('.');
            assert(Seq::new((i + 1) as nat, |i: int| '.') =~= Seq::new(i as nat, |i: int| '.').push(
                '.',
            ));
        }
        out
    }
}

/// The number of dots stays between one and three, and repeats after three steps.
pub proof fn dots_repeat(dots: int)
    requires
        1 <= dots <= 3,
    ensures
        1 <= next_dots(dots) <= 3,
        next_dots(dots) != dots,
        next_dots(next_dots(next_dots(dots))) == dots,
{
}

/// The temporary directory is kept exactly if one of the arguments, wherever it stands, is the one
/// that asks for it, to the letter.
pub proof fn one_argument_is_enough(arguments: Seq<Seq<char>>)
    ensures
        asks_to_keep(arguments) <==> exists|i: int|
            0 <= i < arguments.len() && (#[trigger] arguments[i]) == "--keep-temp"@,
{
}

/// What [`keep_temp`] and [`drains_on`] return: whether one of the arguments is the one that asks for
/// the directory to be kept, and whether a line was read that is not empty.
pub proof fn arguments_and_lines(
    arguments: Vec<String>,
    keep: bool,
    read: bool,
    line: String,
    more: bool,
)
    requires
        call_ensures(keep_temp, (&arguments,), keep),
        call_ensures(drains_on, (read, &line), more),
    ensures
        keep <==> exists|i: int|
            0 <= i < arguments@.len() && (#[trigger] arguments@[i])@ == "--keep-temp"@,
        more <==> read && line@.len() > 0,
{
    let all = argument_texts(arguments@);
    assert(all.len() == arguments@.len());
    if keep {
        let i = choose|i: int| 0 <= i < all.len() && all[i] == "--keep-temp"@;
        assert(arguments@[i]@ == "--keep-temp"@);
    }
    if exists|i: int| 0 <= i < arguments@.len() && (#[trigger] arguments@[i])@ == "--keep-temp"@ {
        let i = choose|i: int|
            0 <= i < arguments@.len() && (#[trigger] arguments@[i])@ == "--keep-temp"@;
        assert(all[i] == "--keep-temp"@);
    }
}

/// What [`Ellipsis::update`] does: it shows the text with one to three dots, and one more than the
/// last time, or one again after three.
pub proof fn dots_are_added(message: &mut Ellipsis, r: String)
    requires
        1 <= old(message).dots <= 3,
        call_ensures(Ellipsis::update, (message,), r),
    ensures
        final(message).text@ == old(message).text@,
        old(message).dots < 3 ==> final(message).dots == old(message).dots + 1,
        old(message).dots == 3 ==> final(message).dots == 1,
        r@.len() == old(message).text@.len() + final(message).dots,
        r@.take(old(message).text@.len() as int) == old(message).text@,
        forall|i: int| old(message).text@.len() <= i < r@.len() ==> #[trigger] r@[i] == '.',
{
    assert(r@.take(old(message).text@.len() as int) =~= old(message).text@);
}

/// What [`Processing::start`] and [`Processing::step`] do is what the law of the rounds speaks of:
/// they start as it says, and each step is the next one of the course.
pub proof fn the_program_keeps_to_the_course(
    started: (Processing, ProcessAction),
    program: &mut Processing,
    event: ProcessEvent,
    r: Option<ProcessAction>,
)
    requires
        call_ensures(Processing::start, (), started),
        call_ensures(Processing::step, (program, event), r),
    ensures
        started.0@ == start_view(),
        started.1 is Cut && started.1->Cut_0 == initial_config(),
        r is Some <==> course(old(program)@, seq![event@]) is Some,
        r is Some ==> {
            let (state, actions) = course(old(program)@, seq![event@])->Some_0;
            final(program)@ == state && does(r->Some_0, actions[0])
        },
        r is None ==> final(program)@ == old(program)@,
{
    reveal_with_fuel(course, 2);
    assert(seq![event@].drop_last() =~= seq![]);
}

/// What [`input_file`] and [`output_file`] return: the path that was given; for the output the usual
/// one if none was; and an error if there is none at all.
pub proof fn paths_are_taken_as_given(
    given: Option<PathBuf>,
    usual: Option<PathBuf>,
    r: Result<PathBuf, ProcessError>,
    s: Result<PathBuf, ProcessError>,
)
    requires
        call_ensures(input_file, (given,), r),
        call_ensures(output_file, (given, usual), s),
    ensures
        r is Ok <==> given is Some,
        r is Ok ==> Some(r->Ok_0) == given,
        s is Ok <==> given is Some || usual is Some,
        given is Some ==> Some(s->Ok_0) == given,
        given is None && usual is Some ==> Some(s->Ok_0) == usual,
        r is Err ==> r->Err_0 is NoInputFile,
        s is Err ==> s->Err_0 is NoOutputPath,
{
}

/// A task is given up exactly if the user halts, and the renderer is killed exactly then. Another
/// message changes nothing.
pub proof fn only_a_halt_ends_the_work(
    message: UiMessage,
    after: ProcessStep,
    task: TaskStep,
    melt: MeltStep,
)
    requires
        call_ensures(after_clips, (message,), after),
        call_ensures(task_step, (TaskEvent::Message(Some(message)),), task),
        call_ensures(melt_step, (MeltEvent::Message(message),), melt),
    ensures
        after is Stop <==> message is Halt,
        after is Render <==> message is GoForIt,
        message is RerunVideoProcess ==> after == ProcessStep::Again(message->RerunVideoProcess_0),
        task is Abort <==> message is Halt,
        task is Wait <==> !(message is Halt),
        melt is Kill <==> message is Halt,
        melt is Wait <==> !(message is Halt),
{
}

} // verus!
