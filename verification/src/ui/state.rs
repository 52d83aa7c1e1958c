//! What the keys do.

use std::collections::HashSet;

use vstd::prelude::*;

use crate::assembly::{can_count, countable_clips};
use crate::binary64::Binary64;
use crate::config::VideoConfig;
use crate::ui::textbox::{shortened, TextBoxState};
use crate::video::clips::Clip;

verus! {

/// What the program asks the user interface to show.
#[derive(Debug)]
pub enum UiDirective {
    /// Some text.
    DisplayText(String),
    /// That it is over.
    Stop,
    /// The same as before, drawn anew.
    Refresh,
    /// The clips, which of them are active, and how they came about.
    Clips { clips: Vec<Clip>, indices: HashSet<usize>, config: VideoConfig },
    /// The configuration, to be edited.
    ModifyVideoConfig(VideoConfig),
}

/// What the user asks the program to do.
#[derive(Debug, Clone, Copy, PartialEq, Eq, Structural)]
pub enum UiMessage {
    /// Halt the program as gracefully as possible.
    Halt,
    /// Cut the recording again with the given configuration.
    RerunVideoProcess(VideoConfig),
    /// Make a video out of the active clips.
    GoForIt,
}

/// Which row of the list of clips is selected.
#[derive(Debug, Clone, Copy, PartialEq, Eq, Structural)]
pub struct TableState {
    /// The index of the row.
    pub selected: Option<usize>,
}

/// The configuration while it is edited.
#[derive(Debug)]
pub struct VideoConfigState {
    /// Silence threshold, silence time, silence degradation and time limit.
    pub textboxes: Vec<TextBoxState>,
    /// The text box that has the focus.
    pub focused: usize,
}

/// The texts of text boxes.
pub open spec fn texts(boxes: Seq<TextBoxState>) -> Seq<Seq<char>> {
    boxes.map_values(|b: TextBoxState| b.text@)
}

/// Which of the text boxes show a cursor.
pub open spec fn marks(boxes: Seq<TextBoxState>) -> Seq<bool> {
    boxes.map_values(|b: TextBoxState| b.focused)
}

/// The index of the first text box that shows a cursor, or how many there are if none does.
pub open spec fn first_marked(marks: Seq<bool>) -> int
    decreases marks.len(),
{
    if marks.len() == 0 {
        0
    } else if marks[0] {
        0
    } else {
        1 + first_marked(marks.skip(1))
    }
}

/// The marks of `n` text boxes of which only the one at `focused` shows a cursor.
pub open spec fn only_mark(n: nat, focused: int) -> Seq<bool> {
    Seq::new(n, |i: int| i == focused)
}

proof fn lemma_first_marked(marks: Seq<bool>)
    ensures
        0 <= first_marked(marks) <= marks.len(),
        first_marked(marks) < marks.len() ==> marks[first_marked(marks)],
        forall|i: int| 0 <= i < first_marked(marks) ==> !#[trigger] marks[i],
    decreases marks.len(),
{
    if marks.len() > 0 && !marks[0] {
        let rest = marks.skip(1);
        lemma_first_marked(rest);
        assert forall|i: int| 0 <= i < first_marked(marks) implies !#[trigger] marks[i] by {
            if i > 0 {
                assert(rest[i - 1] == marks[i]);
            }
        }
    }
}

/// If one text box shows a cursor, it is the first that does.
pub proof fn only_mark_is_first(n: nat, focused: int)
    requires
        0 <= focused < n,
    ensures
        first_marked(only_mark(n, focused)) == focused,
{
    lemma_first_marked(only_mark(n, focused));
    assert(only_mark(n, focused)[focused]);
}

/// `after` is `before` with the focus moved to the text box at `next`.
pub open spec fn refocused(before: VideoConfigState, after: VideoConfigState, next: int) -> bool {
    &&& after.focused == next
    &&& texts(after.textboxes@) == texts(before.textboxes@)
    &&& marks(after.textboxes@) == marks(before.textboxes@).update(
        before.focused as int,
        false,
    ).update(next, true)
}

/// `after` is `before` with the text of the first text box that shows a cursor replaced by
/// `text`, or `before` itself if no text box does.
pub open spec fn retyped(
    before: VideoConfigState,
    after: VideoConfigState,
    text: Seq<char>,
) -> bool {
    let k = first_marked(marks(before.textboxes@));
    &&& after.focused == before.focused
    &&& marks(after.textboxes@) == marks(before.textboxes@)
    &&& texts(after.textboxes@) == if k < before.textboxes@.len() {
        texts(before.textboxes@).update(k, text)
    } else {
        texts(before.textboxes@)
    }
}

impl VideoConfigState {
    /// The text box above the one that has the focus, or that one if it is the first.
    pub open spec fn above(self) -> int {
        if self.focused > 0 {
            self.focused - 1
        } else {
            0
        }
    }

    /// The text box below the one that has the focus, or the last one.
    pub open spec fn below(self) -> int {
        if self.focused + 1 < self.textboxes@.len() {
            self.focused + 1
        } else {
            self.textboxes@.len() - 1
        }
    }

    /// What the first text box that shows a cursor holds.
    pub open spec fn current(self) -> Seq<char> {
        self.textboxes@[first_marked(marks(self.textboxes@))].text@
    }

    /// What the first text box that shows a cursor holds after `c` was typed. The end of a line
    /// is ignored.
    pub open spec fn with_char(self, c: char) -> Seq<char> {
        if c == '\n' {
            self.current()
        } else {
            self.current().push(c)
        }
    }

    /// There are four text boxes, and the one that has the focus, and no other, shows a cursor.
    pub open spec fn wf(self) -> bool {
        &&& self.textboxes@.len() == 4
        &&& self.focused < 4
        &&& marks(self.textboxes@) == only_mark(4, self.focused as int)
    }

    /// Four text boxes with the given texts, the first of them focused.
    pub fn new(values: &Vec<String>) -> (r: VideoConfigState)
        requires
            values@.len() == 4,
        ensures
            r.wf(),
            r.focused == 0,
            texts(r.textboxes@) == values@.map_values(|s: String| s@),
    {
        let mut textboxes: Vec<TextBoxState> = Vec::new();
        for i in 0..4usize
            invariant
                values@.len() == 4,
                textboxes@.len() == i,
                forall|j: int|
                    0 <= j < i ==> (#[trigger] textboxes@[j]).text@ == values@[j]@
                        && textboxes@[j].focused == (j == 0),
        {
            let mut b = TextBoxState::new(values[i].clone());
            if i == 0 {
                b.focus(true);
            }
            textboxes.push(b);
        }
        assert(texts(textboxes@) =~= values@.map_values(|s: String| s@));
        assert(marks(textboxes@) =~= only_mark(4, 0));
        VideoConfigState { textboxes, focused: 0 }
    }

    /// Moves the focus to the text box at `next`.
    fn focus_on(&mut self, next: usize)
        requires
            old(self).focused < old(self).textboxes@.len(),
            next < old(self).textboxes@.len(),
        ensures
            refocused(*old(self), *final(self), next as int),
    {
        let ghost before = self.textboxes@;
        self.textboxes[self.focused].focus(false);
        self.focused = next;
        self.textboxes[self.focused].focus(true);
        assert(texts(self.textboxes@) =~= texts(before));
        assert(marks(self.textboxes@) =~= marks(before).update(
            old(self).focused as int,
            false,
        ).update(next as int, true));
    }

    /// Moves the focus one text box up, if there is one.
    pub fn on_up(&mut self)
        requires
            old(self).focused < old(self).textboxes@.len(),
        ensures
            refocused(*old(self), *final(self), old(self).above()),
            old(self).wf() ==> final(self).wf(),
    {
        let next: usize = if self.focused > 0 {
            self.focused - 1
        } else {
            0
        };
        self.focus_on(next);
        proof {
            if old(self).wf() {
                assert(self.textboxes@.len() == texts(self.textboxes@).len());
                assert(texts(old(self).textboxes@).len() == 4);
                assert(marks(self.textboxes@) =~= only_mark(4, self.focused as int));
            }
        }
    }

    /// Moves the focus one text box down, if there is one.
    pub fn on_down(&mut self)
        requires
            old(self).focused < old(self).textboxes@.len(),
        ensures
            refocused(*old(self), *final(self), old(self).below()),
            old(self).wf() ==> final(self).wf(),
    {
        let n: usize = self.textboxes.len();
        let next: usize = if self.focused < n - 1 {
            self.focused + 1
        } else {
            n - 1
        };
        self.focus_on(next);
        proof {
            if old(self).wf() {
                assert(self.textboxes@.len() == texts(self.textboxes@).len());
                assert(texts(old(self).textboxes@).len() == 4);
                assert(marks(self.textboxes@) =~= only_mark(4, self.focused as int));
            }
        }
    }

    /// The index of the first text box that shows a cursor, or how many there are if none does.
    fn marked(&self) -> (r: usize)
        ensures
            r == first_marked(marks(self.textboxes@)),
    {
        let ghost all = marks(self.textboxes@);
        let mut i: usize = 0;
        proof {
            lemma_first_marked(all);
        }
        while i < self.textboxes.len()
            invariant
                all == marks(self.textboxes@),
                i <= all.len(),
                forall|j: int| 0 <= j < i ==> !#[trigger] all[j],
                0 <= first_marked(all) <= all.len(),
                first_marked(all) < all.len() ==> all[first_marked(all)],
                forall|j: int| 0 <= j < first_marked(all) ==> !#[trigger] all[j],
            decreases all.len() - i,
        {
            if self.textboxes[i].focused() {
                assert(all[i as int]);
                return i;
            }
            assert(!all[i as int]);
            i = i + 1;
        }
        i
    }

    /// A character was typed: it goes to the text box that shows a cursor, unless it is the end
    /// of a line. The program is asked for nothing.
    pub fn on_char(&mut self, c: char) -> (r: Option<UiMessage>)
        ensures
            r is None,
            retyped(*old(self), *final(self), old(self).with_char(c)),
            old(self).wf() ==> final(self).wf(),
    {
        let ghost before = self.textboxes@;
        if c != '\n' {
            let k: usize = self.marked();
            if k < self.textboxes.len() {
                self.textboxes[k].push(c);
                assert(texts(self.textboxes@) =~= texts(before).update(
                    k as int,
                    before[k as int].text@.push(c),
                ));
                assert(marks(self.textboxes@) =~= marks(before));
            }
        } else {
            proof {
                lemma_first_marked(marks(before));
                let k = first_marked(marks(before));
                if k < before.len() {
                    assert(texts(before) =~= texts(before).update(k, before[k].text@));
                }
            }
        }
        None
    }

    /// Backspace was pressed: the text box that shows a cursor loses its last character.
    pub fn on_backspace(&mut self)
        ensures
            retyped(*old(self), *final(self), shortened(old(self).current())),
            old(self).wf() ==> final(self).wf(),
    {
        let ghost before = self.textboxes@;
        let k: usize = self.marked();
        if k < self.textboxes.len() {
            self.textboxes[k].pop();
            assert(texts(self.textboxes@) =~= texts(before).update(
                k as int,
                shortened(before[k as int].text@),
            ));
            assert(marks(self.textboxes@) =~= marks(before));
        }
    }
}

/// What the user interface shows, and what it remembers.
#[derive(Debug)]
pub struct DrawState {
    /// What the program has asked for last.
    pub last_directive: UiDirective,
    /// The list of clips, once it was shown.
    pub table_state: Option<TableState>,
    /// The configuration while it is edited, once it was shown.
    pub video_config: Option<VideoConfigState>,
    /// Whether the log is large.
    pub tracing_toggle: bool,
}

/// What the text of a text box means, read as a number: the number itself, and the number of
/// microseconds in that many seconds.
#[derive(Debug, Clone, Copy, PartialEq, Eq, Structural)]
pub struct FieldValue {
    /// The number.
    pub number: Binary64,
    /// That many seconds, in microseconds.
    pub microseconds: i64,
}

/// Why a key could not be handled.
#[derive(Debug)]
pub enum UiError {
    /// The text of a text box is not a number.
    NotANumber { text: String },
}

/// Whether the error is that `text` is not a number.
pub open spec fn not_a_number(e: UiError, text: Seq<char>) -> bool {
    match e {
        UiError::NotANumber { text: t } => t@ == text,
    }
}

/// The index of the first text that is not a number, or how many there are if all are.
pub open spec fn first_unread(values: Seq<Option<FieldValue>>) -> int
    decreases values.len(),
{
    if values.len() == 0 {
        0
    } else if values[0] is None {
        0
    } else {
        1 + first_unread(values.skip(1))
    }
}

/// The configuration that four numbers make up.
pub open spec fn config_of(values: Seq<Option<FieldValue>>) -> VideoConfig {
    VideoConfig {
        silence_threshold: values[0]->Some_0.number,
        silence_time: values[1]->Some_0.microseconds,
        silence_degrade: values[2]->Some_0.number,
        time_limit: values[3]->Some_0.microseconds,
    }
}

/// A set with one element taken out if it was in, and put in if it was not.
pub open spec fn toggled(set: Set<usize>, x: usize) -> Set<usize> {
    if set.contains(x) {
        set.remove(x)
    } else {
        set.insert(x)
    }
}

/// Changing the status of a clip twice changes nothing.
pub proof fn toggling_twice_changes_nothing(set: Set<usize>, x: usize)
    ensures
        toggled(toggled(set, x), x) == set,
{
    assert(toggled(toggled(set, x), x) =~= set);
}

/// `after` is `before` but for which of the clips are active.
pub open spec fn reactivated(before: UiDirective, after: UiDirective, active: Set<usize>) -> bool {
    match (before, after) {
        (
            UiDirective::Clips { clips: c1, indices: _, config: f1 },
            UiDirective::Clips { clips: c2, indices: i2, config: f2 },
        ) => c1 == c2 && f1 == f2 && i2@ == active,
        _ => false,
    }
}

/// `after` is what the "up" key makes of `before`.
pub open spec fn went_up(before: DrawState, after: DrawState) -> bool {
    &&& after.last_directive == before.last_directive
    &&& after.tracing_toggle == before.tracing_toggle
    &&& after.table_state == if before.listing() && before.selecting() {
        Some(
            TableState {
                selected: Some(
                    if before.row() > 0 {
                        (before.row() - 1) as usize
                    } else {
                        0
                    },
                ),
            },
        )
    } else {
        before.table_state
    }
    &&& (if before.editing() {
        &&& after.video_config is Some
        &&& refocused(
            before.video_config->Some_0,
            after.video_config->Some_0,
            before.video_config->Some_0.above(),
        )
    } else {
        after.video_config == before.video_config
    })
}

/// `after` is what the "down" key makes of `before`.
pub open spec fn went_down(before: DrawState, after: DrawState) -> bool {
    &&& after.last_directive == before.last_directive
    &&& after.tracing_toggle == before.tracing_toggle
    &&& after.table_state == if before.listing() && before.selecting() {
        Some(
            TableState {
                selected: Some(
                    if before.row() + 1 < before.clip_count() {
                        (before.row() + 1) as usize
                    } else {
                        (before.clip_count() - 1) as usize
                    },
                ),
            },
        )
    } else {
        before.table_state
    }
    &&& (if before.editing() {
        &&& after.video_config is Some
        &&& refocused(
            before.video_config->Some_0,
            after.video_config->Some_0,
            before.video_config->Some_0.below(),
        )
    } else {
        after.video_config == before.video_config
    })
}

/// `after` and the outcome `r` are what the "enter" key makes of `before`, where `values` holds
/// what the texts of the text boxes mean as numbers.
pub open spec fn entered(
    before: DrawState,
    after: DrawState,
    values: Seq<Option<FieldValue>>,
    r: Result<Option<UiMessage>, UiError>,
) -> bool {
    &&& after.table_state == before.table_state
    &&& after.video_config == before.video_config
    &&& after.tracing_toggle == before.tracing_toggle
    &&& (if before.listing() {
        &&& r == Ok::<Option<UiMessage>, UiError>(None)
        &&& reactivated(
            before.last_directive,
            after.last_directive,
            toggled(before.active(), before.row()),
        )
    } else {
        after.last_directive == before.last_directive
    })
    &&& before.editing() ==> match r {
        Ok(m) => first_unread(values) == 4 && m == Some(
            UiMessage::RerunVideoProcess(config_of(values)),
        ),
        Err(e) => first_unread(values) < 4 && not_a_number(
            e,
            texts(before.video_config->Some_0.textboxes@)[first_unread(values)],
        ),
    }
    &&& !before.editing() ==> r == Ok::<Option<UiMessage>, UiError>(None)
}

/// `after` and the message `r` are what the character `c` makes of `before`.
pub open spec fn typed(
    before: DrawState,
    after: DrawState,
    c: char,
    r: Option<UiMessage>,
) -> bool {
    &&& after.table_state == before.table_state
    &&& after.tracing_toggle == (if c == 't' {
        !before.tracing_toggle
    } else {
        before.tracing_toggle
    })
    &&& after.last_directive == (match before.last_directive {
        UiDirective::Clips { config, .. } if c == 'c' => UiDirective::ModifyVideoConfig(
            config,
        ),
        other => other,
    })
    &&& (if before.editing() && c != ' ' && c != 't' {
        &&& after.video_config is Some
        &&& retyped(
            before.video_config->Some_0,
            after.video_config->Some_0,
            before.video_config->Some_0.with_char(c),
        )
    } else {
        after.video_config == before.video_config
    })
    &&& r == if c == ' ' && before.last_directive is Clips {
        Some(UiMessage::GoForIt)
    } else {
        None
    }
}

/// `after` is what the backspace key makes of `before`.
pub open spec fn erased(before: DrawState, after: DrawState) -> bool {
    &&& after.last_directive == before.last_directive
    &&& after.table_state == before.table_state
    &&& after.tracing_toggle == before.tracing_toggle
    &&& (if before.editing() {
        &&& after.video_config is Some
        &&& retyped(
            before.video_config->Some_0,
            after.video_config->Some_0,
            shortened(before.video_config->Some_0.current()),
        )
    } else {
        after.video_config == before.video_config
    })
}

/// Whether the lengths of all clips can be computed.
fn all_measurable(clips: &Vec<Clip>) -> (r: bool)
    ensures
        r == forall|i: int| 0 <= i < clips@.len() ==> (#[trigger] clips@[i]).measurable(),
{
    for i in 0..clips.len()
        invariant
            forall|j: int| 0 <= j < i ==> (#[trigger] clips@[j]).measurable(),
    {
        if !clips[i].is_measurable() {
            assert(!clips@[i as int].measurable());
            return false;
        }
    }
    true
}

/// The same set once more.
pub(crate) fn copied(set: &HashSet<usize>) -> (r: HashSet<usize>)
    ensures
        r@ == set@,
{
    broadcast use vstd::std_specs::hash::group_hash_axioms;

    let mut out: HashSet<usize> = HashSet::new();
    for x in it: set.iter()
        invariant
            it.seq().unref().to_set() == set@,
            forall|k: usize|
                out@.contains(k) <==> exists|j: int|
                    0 <= j < it.index() && #[trigger] it.seq().unref()[j] == k,
    {
        out.insert(*x);
        assert(it.seq().unref()[it.index() as int] == *x);
    }
    assert(out@ =~= set@);
    out
}

impl DrawState {
    /// What can be drawn: not to draw anew, which is no picture, and of clips only such whose
    /// lengths can be computed, and of which the active ones can be added up.
    pub open spec fn showable(directive: UiDirective) -> bool {
        match directive {
            UiDirective::Refresh => false,
            UiDirective::Clips { clips, indices, .. } => {
                &&& forall|i: int| 0 <= i < clips@.len() ==> (#[trigger] clips@[i]).measurable()
                &&& countable_clips(clips@, indices@)
            },
            _ => true,
        }
    }

    /// The state is one that the user interface can get into.
    pub open spec fn wf(self) -> bool {
        &&& !(self.last_directive is Refresh)
        &&& self.table_state matches Some(ts) ==> ts.selected is Some
        &&& self.video_config matches Some(vc) ==> vc.wf()
    }

    /// What is to be shown was shown before.
    pub open spec fn drawn(self) -> bool {
        &&& self.last_directive is Clips ==> self.table_state is Some
        &&& self.last_directive is ModifyVideoConfig ==> self.video_config is Some
    }

    /// Whether the list of clips is on the screen.
    pub open spec fn listing(self) -> bool {
        self.last_directive is Clips && self.table_state is Some
    }

    /// Whether the configuration is on the screen.
    pub open spec fn editing(self) -> bool {
        self.last_directive is ModifyVideoConfig && self.video_config is Some
    }

    /// Whether a row of the list of clips is selected.
    pub open spec fn selecting(self) -> bool {
        self.table_state is Some && self.table_state->Some_0.selected is Some
    }

    /// The row that is selected.
    pub open spec fn row(self) -> usize {
        self.table_state->Some_0.selected->Some_0
    }

    /// How many clips there are.
    pub open spec fn clip_count(self) -> int {
        match self.last_directive {
            UiDirective::Clips { clips, .. } => clips@.len() as int,
            _ => 0,
        }
    }

    /// Which clips are active.
    pub open spec fn active(self) -> Set<usize> {
        match self.last_directive {
            UiDirective::Clips { indices, .. } => indices@,
            _ => Set::empty(),
        }
    }

    /// Whether what was asked for can be drawn.
    pub fn can_show(&self) -> (r: bool)
        ensures
            r == DrawState::showable(self.last_directive),
    {
        match &self.last_directive {
            UiDirective::Refresh => false,
            UiDirective::Clips { clips, indices, .. } => all_measurable(clips) && can_count(
                clips,
                indices,
            ),
            _ => true,
        }
    }

    /// Which clips are active.
    pub fn active_clips(&self) -> (r: HashSet<usize>)
        ensures
            r@ == self.active(),
    {
        broadcast use vstd::std_specs::hash::group_hash_axioms;

        match &self.last_directive {
            UiDirective::Clips { indices, .. } => copied(indices),
            _ => HashSet::new(),
        }
    }

    /// The state before anything has happened.
    pub fn new() -> (r: DrawState)
        ensures
            r.wf(),
            r.drawn(),
            r.last_directive matches UiDirective::DisplayText(t) && t@ == "Loading..."@,
            r.table_state is None,
            r.video_config is None,
            !r.tracing_toggle,
    {
        DrawState {
            last_directive: UiDirective::DisplayText("Loading...".to_owned()),
            table_state: None,
            video_config: None,
            tracing_toggle: false,
        }
    }

    /// The "up" key was pressed. If the configuration is on the screen, one of its text boxes has
    /// the focus.
    pub fn on_up(&mut self)
        requires
            old(self).editing() ==> old(self).video_config->Some_0.focused < old(
                self,
            ).video_config->Some_0.textboxes@.len(),
        ensures
            old(self).wf() ==> final(self).wf(),
            went_up(*old(self), *final(self)),
    {
        match &self.last_directive {
            UiDirective::Clips { .. } => {
                if let Some(ts) = self.table_state {
                    let selected = match ts.selected {
                        Some(s) => Some(
                            if s > 0 {
                                s - 1
                            } else {
                                0
                            },
                        ),
                        None => None,
                    };
                    self.table_state = Some(TableState { selected });
                }
            },
            UiDirective::ModifyVideoConfig(_) => {
                if let Some(vc) = &mut self.video_config {
                    vc.on_up();
                }
            },
            _ => {},
        }
    }

    /// The "down" key was pressed. If a list of clips is on the screen and a row of it selected, it
    /// must not be empty; if the configuration is, one of its text boxes has the focus.
    pub fn on_down(&mut self)
        requires
            old(self).listing() && old(self).selecting() ==> old(self).clip_count() > 0,
            old(self).editing() ==> old(self).video_config->Some_0.focused < old(
                self,
            ).video_config->Some_0.textboxes@.len(),
        ensures
            old(self).wf() ==> final(self).wf(),
            went_down(*old(self), *final(self)),
    {
        match &self.last_directive {
            UiDirective::Clips { clips, .. } => {
                if let Some(ts) = self.table_state {
                    let selected = match ts.selected {
                        Some(s) => {
                            let last: usize = clips.len() - 1;
                            Some(
                                if s < last {
                                    s + 1
                                } else {
                                    last
                                },
                            )
                        },
                        None => None,
                    };
                    self.table_state = Some(TableState { selected });
                }
            },
            UiDirective::ModifyVideoConfig(_) => {
                if let Some(vc) = &mut self.video_config {
                    vc.on_down();
                }
            },
            _ => {},
        }
    }

    /// The "esc" key was pressed. Returns whether the program should exit.
    pub fn on_esc(&mut self) -> (r: bool)
        ensures
            *final(self) == *old(self),
            r == (old(self).last_directive is Clips || old(
                self,
            ).last_directive is ModifyVideoConfig),
    {
        match &self.last_directive {
            UiDirective::Clips { .. } => true,
            UiDirective::ModifyVideoConfig(_) => true,
            _ => false,
        }
    }
}

proof fn lemma_first_unread(values: Seq<Option<FieldValue>>)
    ensures
        0 <= first_unread(values) <= values.len(),
        first_unread(values) < values.len() ==> values[first_unread(values)] is None,
        forall|i: int| 0 <= i < first_unread(values) ==> (#[trigger] values[i]) is Some,
    decreases values.len(),
{
    if values.len() > 0 && values[0] is Some {
        let rest = values.skip(1);
        lemma_first_unread(rest);
        assert forall|i: int| 0 <= i < first_unread(values) implies (
        #[trigger] values[i]) is Some by {
            if i > 0 {
                assert(rest[i - 1] == values[i]);
            }
        }
    }
}

/// Reads the configuration from the texts of the four text boxes. `values` holds what they mean
/// as numbers. The first one that is not a number is reported.
pub fn read_config(vc: &VideoConfigState, values: &Vec<Option<FieldValue>>) -> (r: Result<
    VideoConfig,
    UiError,
>)
    requires
        vc.textboxes@.len() == 4,
        values@.len() == 4,
    ensures
        match r {
            Ok(config) => first_unread(values@) == 4 && config == config_of(values@),
            Err(e) => first_unread(values@) < 4 && not_a_number(
                e,
                texts(vc.textboxes@)[first_unread(values@)],
            ),
        },
{
    proof {
        lemma_first_unread(values@);
    }
    let mut read: Vec<FieldValue> = Vec::new();
    for i in 0..4usize
        invariant
            vc.textboxes@.len() == 4,
            values@.len() == 4,
            read@.len() == i,
            forall|j: int|
                0 <= j < i ==> (#[trigger] values@[j]) is Some && read@[j] == values@[j]->Some_0,
            0 <= first_unread(values@) <= values@.len(),
            first_unread(values@) < values@.len() ==> values@[first_unread(values@)] is None,
            forall|j: int| 0 <= j < first_unread(values@) ==> (#[trigger] values@[j]) is Some,
    {
        match values[i] {
            Some(v) => read.push(v),
            None => {
                assert(first_unread(values@) == i);
                return Err(UiError::NotANumber { text: vc.textboxes[i].text().to_owned() });
            },
        }
    }
    assert(values@[0] is Some && values@[1] is Some && values@[2] is Some && values@[3] is Some);
    Ok(
        VideoConfig {
            silence_threshold: read[0].number,
            silence_time: read[1].microseconds,
            silence_degrade: read[2].number,
            time_limit: read[3].microseconds,
        },
    )
}

impl DrawState {
    /// The "enter" key was pressed. In the list of clips the selected clip changes its status;
    /// in the configuration the program is asked to start over with what the text boxes say.
    /// `values` holds what their texts mean as numbers. In the list a clip is selected, and in the
    /// configuration there are four text boxes.
    pub fn on_enter(&mut self, values: &Vec<Option<FieldValue>>) -> (r: Result<
        Option<UiMessage>,
        UiError,
    >)
        requires
            old(self).listing() ==> old(self).selecting(),
            old(self).editing() ==> values@.len() == 4
                && old(self).video_config->Some_0.textboxes@.len() == 4,
        ensures
            old(self).wf() ==> final(self).wf(),
            entered(*old(self), *final(self), values@, r),
    {
        broadcast use vstd::std_specs::hash::group_hash_axioms;

        match &mut self.last_directive {
            UiDirective::Clips { indices, .. } => {
                if let Some(ts) = self.table_state {
                    if let Some(selected) = ts.selected {
                        if indices.contains(&selected) {
                            indices.remove(&selected);
                        } else {
                            indices.insert(selected);
                        }
                    }
                }
                Ok(None)
            },
            UiDirective::ModifyVideoConfig(_) => match &self.video_config {
                Some(vc) => match read_config(vc, values) {
                    Ok(config) => Ok(Some(UiMessage::RerunVideoProcess(config))),
                    Err(e) => Err(e),
                },
                None => Ok(None),
            },
            _ => Ok(None),
        }
    }

    /// A character was pressed. If a message is needed, it is returned: in the list of clips,
    /// the space bar asks for the video. There, `c` goes over to the configuration, and `t`
    /// changes the size of the log everywhere. All other characters are typed into the
    /// configuration, if that is asked for; it was shown before.
    pub fn on_char(&mut self, c: char) -> (r: Option<UiMessage>)
        requires
            old(self).last_directive is ModifyVideoConfig && c != ' ' && c != 't'
                ==> old(self).video_config is Some,
        ensures
            old(self).wf() ==> final(self).wf(),
            typed(*old(self), *final(self), c, r),
    {
        if c == ' ' {
            return match &self.last_directive {
                UiDirective::Clips { .. } => Some(UiMessage::GoForIt),
                _ => None,
            };
        }
        if c == 't' {
            self.tracing_toggle = !self.tracing_toggle;
            return None;
        }
        let mut edit: Option<VideoConfig> = None;
        match &self.last_directive {
            UiDirective::Clips { config, .. } => {
                edit = Some(*config);
            },
            UiDirective::ModifyVideoConfig(_) => {
                if let Some(vc) = &mut self.video_config {
                    return vc.on_char(c);
                }
            },
            _ => {},
        }
        if let Some(config) = edit {
            if c == 'c' {
                self.last_directive = UiDirective::ModifyVideoConfig(config);
            }
        }
        None
    }

    /// Backspace was pressed. If the configuration is asked for, it was shown before.
    pub fn on_backspace(&mut self)
        requires
            old(self).last_directive is ModifyVideoConfig ==> old(self).video_config is Some,
        ensures
            old(self).wf() ==> final(self).wf(),
            erased(*old(self), *final(self)),
    {
        match &self.last_directive {
            UiDirective::ModifyVideoConfig(_) => {
                if let Some(vc) = &mut self.video_config {
                    vc.on_backspace();
                }
            },
            _ => {},
        }
    }
}

/// In the configuration, backspace takes back what was typed: after any character but the end of
/// a line, the text boxes hold what they held before.
pub proof fn backspace_undoes_typing(
    before: VideoConfigState,
    between: VideoConfigState,
    after: VideoConfigState,
    c: char,
)
    requires
        c != '\n',
        retyped(before, between, before.with_char(c)),
        retyped(between, after, shortened(between.current())),
    ensures
        texts(after.textboxes@) == texts(before.textboxes@),
        marks(after.textboxes@) == marks(before.textboxes@),
        after.focused == before.focused,
{
    let k = first_marked(marks(before.textboxes@));
    lemma_first_marked(marks(before.textboxes@));
    assert(texts(between.textboxes@).len() == between.textboxes@.len());
    assert(texts(before.textboxes@).len() == before.textboxes@.len());
    if k < before.textboxes@.len() {
        assert(texts(between.textboxes@)[k] == between.current());
        assert(shortened(before.with_char(c)) =~= before.current());
    }
    assert(texts(after.textboxes@) =~= texts(before.textboxes@));
}

/// The keys keep the selection in the list of clips once it is there, and "down" brings it there
/// if there are any clips.
pub proof fn selection_stays_in_the_list(before: DrawState, after: DrawState)
    requires
        before.listing(),
        before.selecting(),
    ensures
        went_up(before, after) && before.row() < before.clip_count() ==> after.row()
            < after.clip_count(),
        went_down(before, after) && before.clip_count() > 0 ==> after.row() < after.clip_count(),
{
}

/// "Up" and "down" move the selection by one row, and stop at the ends of the list. In the middle of
/// the list one takes back what the other has done.
pub proof fn the_selection_moves_by_one(before: DrawState, up: DrawState, down: DrawState)
    requires
        before.last_directive is Clips,
        before.table_state is Some,
        before.table_state->Some_0.selected is Some,
        went_up(before, up),
        went_down(before, down),
    ensures
        ({
            let row = before.table_state->Some_0.selected->Some_0;
            let count = before.last_directive->clips@.len();
            &&& up.table_state is Some && up.table_state->Some_0.selected is Some
            &&& row > 0 ==> up.table_state->Some_0.selected->Some_0 == row - 1
            &&& row == 0 ==> up.table_state->Some_0.selected->Some_0 == 0
            &&& down.table_state is Some && down.table_state->Some_0.selected is Some
            &&& row + 1 < count ==> down.table_state->Some_0.selected->Some_0 == row + 1
            &&& count > 0 && row + 1 >= count ==> down.table_state->Some_0.selected->Some_0 == count
                - 1
        }),
        up.last_directive == before.last_directive,
        up.video_config == before.video_config,
        up.tracing_toggle == before.tracing_toggle,
        down.last_directive == before.last_directive,
        down.video_config == before.video_config,
        down.tracing_toggle == before.tracing_toggle,
{
    assert(before.last_directive->clips.len() == before.clip_count());
}

/// "Up" and "down" move the focus by one text box, and stop at the first and at the last. No text
/// changes, and the cursor is in the box that has the focus.
pub proof fn the_focus_moves_by_one(before: DrawState, up: DrawState, down: DrawState)
    requires
        before.wf(),
        before.last_directive is ModifyVideoConfig,
        before.video_config is Some,
        went_up(before, up),
        went_down(before, down),
    ensures
        ({
            let old_boxes = before.video_config->Some_0.textboxes@;
            let focus = before.video_config->Some_0.focused;
            let above = up.video_config->Some_0;
            let below = down.video_config->Some_0;
            &&& up.video_config is Some && down.video_config is Some
            &&& focus > 0 ==> above.focused == focus - 1
            &&& focus == 0 ==> above.focused == 0
            &&& focus < 3 ==> below.focused == focus + 1
            &&& focus == 3 ==> below.focused == 3
            &&& above.textboxes@.len() == 4 && below.textboxes@.len() == 4
            &&& forall|i: int|
                0 <= i < 4 ==> (#[trigger] above.textboxes@[i]).text@ == old_boxes[i].text@
                    && above.textboxes@[i].focused == (i == above.focused)
            &&& forall|i: int|
                0 <= i < 4 ==> (#[trigger] below.textboxes@[i]).text@ == old_boxes[i].text@
                    && below.textboxes@[i].focused == (i == below.focused)
        }),
        up.last_directive == before.last_directive,
        up.table_state == before.table_state,
        down.last_directive == before.last_directive,
        down.table_state == before.table_state,
{
    let old_state = before.video_config->Some_0;
    lemma_refocused(old_state, up.video_config->Some_0, old_state.above());
    lemma_refocused(old_state, down.video_config->Some_0, old_state.below());
}

proof fn lemma_refocused(before: VideoConfigState, after: VideoConfigState, next: int)
    requires
        before.wf(),
        0 <= next < 4,
        refocused(before, after, next),
    ensures
        after.textboxes@.len() == 4,
        forall|i: int|
            0 <= i < 4 ==> (#[trigger] after.textboxes@[i]).text@ == before.textboxes@[i].text@
                && after.textboxes@[i].focused == (i == next),
{
    assert(texts(after.textboxes@).len() == after.textboxes@.len());
    assert(texts(before.textboxes@).len() == 4);
    assert forall|i: int| 0 <= i < 4 implies (#[trigger] after.textboxes@[i]).text@
        == before.textboxes@[i].text@ && after.textboxes@[i].focused == (i == next) by {
        assert(texts(after.textboxes@)[i] == texts(before.textboxes@)[i]);
        assert(marks(after.textboxes@)[i] == after.textboxes@[i].focused);
        assert(only_mark(4, before.focused as int)[i] == (i == before.focused));
    }
}

/// "Enter" in the list of clips changes the status of the selected clip and of no other, and asks
/// the program for nothing.
pub proof fn enter_changes_one_clip(
    before: DrawState,
    after: DrawState,
    values: Seq<Option<FieldValue>>,
    r: Result<Option<UiMessage>, UiError>,
    x: usize,
)
    requires
        before.last_directive is Clips,
        before.table_state is Some,
        before.table_state->Some_0.selected is Some,
        entered(before, after, values, r),
    ensures
        after.last_directive is Clips,
        after.last_directive->clips == before.last_directive->clips,
        after.last_directive->config == before.last_directive->config,
        after.last_directive->indices@.contains(x) <==> before.last_directive->indices@.contains(x)
            != (before.table_state->Some_0.selected == Some(x)),
        after.table_state == before.table_state,
        r is Ok && r->Ok_0 is None,
{
}

/// "Enter" in the configuration asks for another round with what the text boxes say, if all of them
/// are numbers: threshold and degradation as they are, and the two times in microseconds. The text
/// of the first one that is no number is reported otherwise.
pub proof fn enter_reads_the_text_boxes(
    before: DrawState,
    after: DrawState,
    values: Seq<Option<FieldValue>>,
    r: Result<Option<UiMessage>, UiError>,
    k: int,
)
    requires
        before.last_directive is ModifyVideoConfig,
        before.video_config is Some,
        before.video_config->Some_0.textboxes@.len() == 4,
        values.len() == 4,
        0 <= k <= 4,
        forall|i: int| 0 <= i < k ==> (#[trigger] values[i]) is Some,
        k < 4 ==> values[k] is None,
        entered(before, after, values, r),
    ensures
        k == 4 ==> r is Ok && r->Ok_0 is Some && r->Ok_0->Some_0 is RerunVideoProcess && {
            let config = r->Ok_0->Some_0->RerunVideoProcess_0;
            &&& config.silence_threshold == values[0]->Some_0.number
            &&& config.silence_time == values[1]->Some_0.microseconds
            &&& config.silence_degrade == values[2]->Some_0.number
            &&& config.time_limit == values[3]->Some_0.microseconds
        },
        k < 4 ==> r is Err && r->Err_0->text@ == before.video_config->Some_0.textboxes@[k].text@,
        after == before,
{
    lemma_first_unread(values);
    let m = first_unread(values);
    if m < k {
        assert(values[m] is Some);
    }
    if k < m {
        assert(values[k] is Some);
    }
    if k < 4 {
        assert(texts(before.video_config->Some_0.textboxes@)[k]
            == before.video_config->Some_0.textboxes@[k].text@);
    }
}

/// What characters do apart from typing. Only `t` changes the size of the log, and it does so
/// everywhere. Only the space bar asks for the video, and only in the list of clips. Only `c` goes
/// over to the configuration, from the list, and takes along the configuration of the clips.
pub proof fn characters_with_a_meaning(
    before: DrawState,
    after: DrawState,
    c: char,
    r: Option<UiMessage>,
)
    requires
        typed(before, after, c, r),
    ensures
        after.tracing_toggle != before.tracing_toggle <==> c == 't',
        r is Some <==> c == ' ' && before.last_directive is Clips,
        r is Some ==> r->Some_0 is GoForIt,
        c == 'c' && before.last_directive is Clips ==> after.last_directive is ModifyVideoConfig
            && after.last_directive->ModifyVideoConfig_0 == before.last_directive->config,
        !(c == 'c' && before.last_directive is Clips) ==> after.last_directive
            == before.last_directive,
        after.table_state == before.table_state,
        !(before.last_directive is ModifyVideoConfig) || c == ' ' || c == 't'
            ==> after.video_config == before.video_config,
{
}

/// What is typed in the configuration goes to the end of the text box that has the focus, and
/// backspace takes the last character of that box. The other text boxes, the focus and the cursor
/// stay as they are.
pub proof fn typing_goes_to_the_focus(
    before: DrawState,
    typed_on: DrawState,
    erased_from: DrawState,
    c: char,
    r: Option<UiMessage>,
)
    requires
        before.wf(),
        before.last_directive is ModifyVideoConfig,
        before.video_config is Some,
        c != ' ' && c != 't' && c != '\n',
        typed(before, typed_on, c, r),
        erased(before, erased_from),
    ensures
        ({
            let old_boxes = before.video_config->Some_0.textboxes@;
            let focus = before.video_config->Some_0.focused as int;
            let more = typed_on.video_config->Some_0;
            let less = erased_from.video_config->Some_0;
            &&& typed_on.video_config is Some && erased_from.video_config is Some
            &&& more.focused == focus && less.focused == focus
            &&& more.textboxes@.len() == 4 && less.textboxes@.len() == 4
            &&& more.textboxes@[focus].text@ == old_boxes[focus].text@.push(c)
            &&& old_boxes[focus].text@.len() > 0 ==> less.textboxes@[focus].text@
                == old_boxes[focus].text@.drop_last()
            &&& old_boxes[focus].text@.len() == 0 ==> less.textboxes@[focus].text@.len() == 0
            &&& forall|i: int|
                0 <= i < 4 && i != focus ==> (#[trigger] more.textboxes@[i]).text@
                    == old_boxes[i].text@
            &&& forall|i: int|
                0 <= i < 4 && i != focus ==> (#[trigger] less.textboxes@[i]).text@
                    == old_boxes[i].text@
        }),
{
    let old_state = before.video_config->Some_0;
    let focus = old_state.focused as int;
    only_mark_is_first(4, focus);
    lemma_retyped(old_state, typed_on.video_config->Some_0, old_state.with_char(c));
    lemma_retyped(old_state, erased_from.video_config->Some_0, shortened(old_state.current()));
}

proof fn lemma_retyped(before: VideoConfigState, after: VideoConfigState, text: Seq<char>)
    requires
        before.wf(),
        retyped(before, after, text),
    ensures
        after.textboxes@.len() == 4,
        after.textboxes@[before.focused as int].text@ == text,
        forall|i: int|
            0 <= i < 4 && i != before.focused ==> (#[trigger] after.textboxes@[i]).text@
                == before.textboxes@[i].text@,
{
    only_mark_is_first(4, before.focused as int);
    assert(texts(after.textboxes@).len() == after.textboxes@.len());
    assert(texts(before.textboxes@).len() == 4);
    assert(texts(after.textboxes@)[before.focused as int]
        == after.textboxes@[before.focused as int].text@);
    assert forall|i: int| 0 <= i < 4 && i != before.focused implies (
    #[trigger] after.textboxes@[i]).text@ == before.textboxes@[i].text@ by {
        assert(texts(after.textboxes@)[i] == texts(before.textboxes@)[i]);
    }
}

/// What the functions of the keys do is what the laws of the keys speak of.
pub proof fn keys_keep_to_their_laws(
    up: &mut DrawState,
    down: &mut DrawState,
    enter: &mut DrawState,
    values: Vec<Option<FieldValue>>,
    entering: Result<Option<UiMessage>, UiError>,
    letter: &mut DrawState,
    c: char,
    typing: Option<UiMessage>,
    backspace: &mut DrawState,
    esc: &mut DrawState,
    leaving: bool,
)
    requires
        call_ensures(DrawState::on_up, (up,), ()),
        call_ensures(DrawState::on_down, (down,), ()),
        call_ensures(DrawState::on_enter, (enter, &values), entering),
        call_ensures(DrawState::on_char, (letter, c), typing),
        call_ensures(DrawState::on_backspace, (backspace,), ()),
        call_ensures(DrawState::on_esc, (esc,), leaving),
    ensures
        went_up(*old(up), *final(up)),
        went_down(*old(down), *final(down)),
        entered(*old(enter), *final(enter), values@, entering),
        typed(*old(letter), *final(letter), c, typing),
        erased(*old(backspace), *final(backspace)),
        leaving <==> old(esc).last_directive is Clips || old(esc).last_directive is ModifyVideoConfig,
        *final(esc) == *old(esc),
{
}

} // verus!
