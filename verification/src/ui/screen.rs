//! What is on the screen.

use std::collections::HashSet;

use vstd::prelude::*;

use crate::assembly::{active_duration, countable_clips};
use crate::sort_clips::active_time;
use crate::text::push_text;
use crate::ui::layout::{
    bordered, clips_layout, clips_rows, config_layout, config_rows, divided, divisible, has_border,
    log_area, log_height, pane_area, screen_layout, screen_rows, Area,
};
use crate::ui::state::{
    marks, only_mark, texts, DrawState, TableState, UiDirective, VideoConfigState,
};
use crate::ui::subscriber::{line_views, Inner, Level, Line};
use crate::ui::textbox::{textbox_line, Span, SpanView, TextBox};
use crate::ui::timestamp::{timestamp_text, Timestamp};
use crate::video::clips::Clip;

verus! {

/// A row of the list of clips, as text.
pub struct RowView {
    /// From when to when the clip lasts.
    pub range: Seq<char>,
    /// How long it is.
    pub duration: Seq<char>,
    /// Whether it is active, in words.
    pub status: Seq<char>,
    /// Whether it is active.
    pub active: bool,
}

/// A row of the list of clips.
#[derive(Debug)]
pub struct ClipRow {
    /// From when to when the clip lasts.
    pub range: String,
    /// How long it is.
    pub duration: String,
    /// Whether it is active, in words.
    pub status: String,
    /// Whether it is active.
    pub active: bool,
}

impl View for ClipRow {
    type V = RowView;

    open spec fn view(&self) -> RowView {
        RowView {
            range: self.range@,
            duration: self.duration@,
            status: self.status@,
            active: self.active,
        }
    }
}

/// The row of a clip.
pub open spec fn clip_row(clip: Clip, active: bool) -> RowView {
    RowView {
        range: timestamp_text(clip.start as int) + " - "@ + timestamp_text(clip.end as int),
        duration: timestamp_text(clip.length()),
        status: if active {
            "ACTIVE"@
        } else {
            "INACTIVE"@
        },
        active,
    }
}

/// The rows of the list of clips.
pub open spec fn clip_rows(clips: Seq<Clip>, active: Set<usize>) -> Seq<RowView> {
    Seq::new(clips.len(), |i: int| clip_row(clips[i], active.contains(i as usize)))
}

/// What stands above the list of clips: what it is for, which keys do what, and how long the
/// active clips are together.
pub open spec fn clip_instructions(time: int) -> Seq<Seq<char>> {
    seq![
        "Select clips to produce a video"@,
        "Enter to change status, C to reconfigure, Spacebar to continue, Esc to exit"@,
        "Current time: "@ + timestamp_text(time),
    ]
}

/// What stands before the text boxes of the configuration.
pub open spec fn config_headers() -> Seq<Seq<char>> {
    seq![
        "Silence Threshold"@,
        "Silence Time (seconds)"@,
        "Silence Degradation"@,
        "Time Limit (seconds)"@,
    ]
}

/// The lines of the configuration: each text box with its header.
pub open spec fn config_lines(vc: VideoConfigState) -> Seq<Seq<SpanView>> {
    Seq::new(
        4,
        |i: int|
            textbox_line(
                Some(config_headers()[i]),
                texts(vc.textboxes@)[i],
                marks(vc.textboxes@)[i],
            ),
    )
}

/// The part of the screen that shows what the program is about.
#[derive(Debug)]
pub enum Pane {
    /// Some text.
    Message(String),
    /// The clips: instructions, a row for each, and which one is selected.
    Clips { instructions: Vec<String>, rows: Vec<ClipRow>, selected: Option<usize> },
    /// The configuration: a line for each text box, and instructions.
    Config { lines: Vec<Vec<Span>>, hint: String },
}

/// What is on the screen.
#[derive(Debug)]
pub struct Screen {
    /// What the program is about.
    pub pane: Pane,
    /// The newest entries of the log, oldest first.
    pub log: Vec<Line>,
}

/// The row of a clip.
fn row(clip: Clip, active: bool) -> (r: ClipRow)
    requires
        clip.measurable(),
    ensures
        r@ == clip_row(clip, active),
{
    let mut range = Timestamp(clip.start).to_string();
    push_text(&mut range, " - ");
    let end = Timestamp(clip.end).to_string();
    push_text(&mut range, end.as_str());
    let duration = Timestamp(clip.len()).to_string();
    let status = if active {
        "ACTIVE".to_owned()
    } else {
        "INACTIVE".to_owned()
    };
    ClipRow { range, duration, status, active }
}

/// The rows of the list of clips.
pub fn rows(clips: &Vec<Clip>, active: &HashSet<usize>) -> (r: Vec<ClipRow>)
    requires
        forall|i: int| 0 <= i < clips@.len() ==> (#[trigger] clips@[i]).measurable(),
    ensures
        r@.map_values(|c: ClipRow| c@) == clip_rows(clips@, active@),
{
    broadcast use vstd::std_specs::hash::group_hash_axioms;

    let mut out: Vec<ClipRow> = Vec::new();
    for i in 0..clips.len()
        invariant
            forall|i: int| 0 <= i < clips@.len() ==> (#[trigger] clips@[i]).measurable(),
            out@.len() == i,
            forall|j: int|
                0 <= j < i ==> (#[trigger] out@[j])@ == clip_row(
                    clips@[j],
                    active@.contains(j as usize),
                ),
    {
        out.push(row(clips[i], active.contains(&i)));
    }
    assert(out@.map_values(|c: ClipRow| c@) =~= clip_rows(clips@, active@));
    out
}

/// What stands above the list of clips.
pub fn instructions(clips: &Vec<Clip>, active: &HashSet<usize>) -> (r: Vec<String>)
    requires
        countable_clips(clips@, active@),
    ensures
        r@.map_values(|s: String| s@) == clip_instructions(active_time(clips@, active@)),
{
    let mut out: Vec<String> = Vec::new();
    out.push("Select clips to produce a video".to_owned());
    out.push(
        "Enter to change status, C to reconfigure, Spacebar to continue, Esc to exit".to_owned(),
    );
    let mut time = "Current time: ".to_owned();
    let total = Timestamp(active_duration(clips, active)).to_string();
    push_text(&mut time, total.as_str());
    out.push(time);
    assert(out@.map_values(|s: String| s@) =~= clip_instructions(active_time(clips@, active@)));
    out
}

/// The header of the text box at `i`.
fn config_header(i: usize) -> (r: String)
    requires
        i < 4,
    ensures
        r@ == config_headers()[i as int],
{
    if i == 0 {
        "Silence Threshold".to_owned()
    } else if i == 1 {
        "Silence Time (seconds)".to_owned()
    } else if i == 2 {
        "Silence Degradation".to_owned()
    } else {
        "Time Limit (seconds)".to_owned()
    }
}

/// The lines of text boxes, as text.
pub open spec fn span_views(lines: Seq<Vec<Span>>) -> Seq<Seq<SpanView>> {
    lines.map_values(|l: Vec<Span>| l@.map_values(|s: Span| s@))
}

/// The lines of the configuration.
pub fn lines(vc: &VideoConfigState) -> (r: Vec<Vec<Span>>)
    requires
        vc.textboxes@.len() == 4,
    ensures
        span_views(r@) == config_lines(*vc),
{
    let mut out: Vec<Vec<Span>> = Vec::new();
    for i in 0..4usize
        invariant
            vc.textboxes@.len() == 4,
            out@.len() == i,
            forall|j: int|
                0 <= j < i ==> span_views(out@)[j] == #[trigger] config_lines(*vc)[j],
    {
        let textbox = TextBox::default().header(config_header(i));
        let line = textbox.render(&vc.textboxes[i]);
        assert(line@.map_values(|s: Span| s@) == config_lines(*vc)[i as int]);
        let ghost before = span_views(out@);
        out.push(line);
        assert(span_views(out@) =~= before.push(line@.map_values(|s: Span| s@)));
    }
    assert(span_views(out@) =~= config_lines(*vc));
    out
}

/// Whether `pane` is what `state` shows.
pub open spec fn shows(state: DrawState, pane: Pane) -> bool {
    match state.last_directive {
        UiDirective::Stop => pane matches Pane::Message(t) && t@ == "Press any key to continue..."@,
        UiDirective::DisplayText(text) => pane matches Pane::Message(t) && t@ == text@,
        UiDirective::Refresh => false,
        UiDirective::Clips { clips, indices, .. } => pane matches Pane::Clips {
            instructions,
            rows,
            selected,
        } && {
            &&& instructions@.map_values(|s: String| s@) == clip_instructions(
                active_time(clips@, indices@),
            )
            &&& rows@.map_values(|c: ClipRow| c@) == clip_rows(clips@, indices@)
            &&& state.table_state == Some(TableState { selected })
        },
        UiDirective::ModifyVideoConfig(_) => pane matches Pane::Config { lines, hint } && {
            &&& state.video_config is Some
            &&& span_views(lines@) == config_lines(state.video_config->Some_0)
            &&& hint@
                == "Press Enter to apply changes, up/down to change focus, Esc to exit"@
        },
    }
}

/// What drawing does: `after` is `before` with what is shown for the first time set up, and
/// `screen` is what `after` shows, with the newest `log_rows` entries of the log, oldest first.
pub open spec fn drew(
    before: DrawState,
    after: DrawState,
    defaults: Seq<String>,
    log: Seq<Line>,
    log_rows: int,
    screen: Screen,
) -> bool {
    &&& after.drawn()
    &&& shows(after, screen.pane)
    &&& after.last_directive == before.last_directive
    &&& after.tracing_toggle == before.tracing_toggle
    &&& after.table_state == if before.last_directive is Clips && before.table_state is None {
        Some(TableState { selected: Some(0) })
    } else {
        before.table_state
    }
    &&& if before.last_directive is ModifyVideoConfig && before.video_config is None {
        &&& after.video_config is Some
        &&& after.video_config->Some_0.focused == 0
        &&& texts(after.video_config->Some_0.textboxes@) == defaults.map_values(|s: String| s@)
        &&& marks(after.video_config->Some_0.textboxes@) == only_mark(4, 0)
    } else {
        after.video_config == before.video_config
    }
    &&& line_views(screen.log@) == if log_rows < log.len() {
        line_views(log).skip(log.len() - log_rows)
    } else {
        line_views(log)
    }
}

/// What is on the screen, and where.
#[derive(Debug)]
pub struct Picture {
    /// Where it is shown what the program is about.
    pub pane: Area,
    /// Where the log is shown.
    pub log: Area,
    /// The parts of the pane: of the list of clips the instructions and the list, of the
    /// configuration its lines and the instructions.
    pub parts: Vec<Area>,
    /// What is shown.
    pub screen: Screen,
}

/// Whether `parts` are the parts of the pane for what is to be shown.
pub open spec fn partitioned(directive: UiDirective, pane: Area, parts: Seq<Area>) -> bool {
    match directive {
        UiDirective::Clips { .. } => divided(parts, pane, 0, clips_rows()),
        UiDirective::ModifyVideoConfig(_) => divided(parts, bordered(pane), 3, config_rows()),
        _ => parts.len() == 0,
    }
}

/// Whether a screen of the given size has room for what is to be shown: it can be divided, the
/// border of the log fits into its part, and the pane can be divided too.
pub open spec fn has_room(state: DrawState, size: Area) -> bool {
    let pane = pane_area(size, state.tracing_toggle);
    &&& divisible(size, 2, screen_rows(state.tracing_toggle))
    &&& log_area(size, state.tracing_toggle).height >= 2
    &&& match state.last_directive {
        UiDirective::Clips { .. } => divisible(pane, 0, clips_rows()),
        UiDirective::ModifyVideoConfig(_) => has_border(pane) && divisible(
            bordered(pane),
            3,
            config_rows(),
        ),
        _ => true,
    }
}

impl DrawState {
    /// Draws the screen. The first time that the list of clips is shown, its first row is
    /// selected; the first time that the configuration is shown, its text boxes are filled with
    /// `defaults`, and the first one has the focus. There are four of them. `log_rows` is how many
    /// entries of the log there is room for.
    pub fn draw(&mut self, defaults: &Vec<String>, log: &Inner, log_rows: u16) -> (r: Screen)
        requires
            DrawState::showable(old(self).last_directive),
            old(self).last_directive is ModifyVideoConfig ==> match old(self).video_config {
                Some(vc) => vc.textboxes@.len() == 4,
                None => defaults@.len() == 4,
            },
        ensures
            old(self).wf() ==> final(self).wf(),
            drew(*old(self), *final(self), defaults@, log.lines@, log_rows as int, r),
    {
        match &self.last_directive {
            UiDirective::Clips { .. } => {
                if self.table_state.is_none() {
                    self.table_state = Some(TableState { selected: Some(0) });
                }
            },
            UiDirective::ModifyVideoConfig(_) => {
                if self.video_config.is_none() {
                    self.video_config = Some(VideoConfigState::new(defaults));
                }
            },
            _ => {},
        }
        let pane = match &self.last_directive {
            UiDirective::Stop => Pane::Message("Press any key to continue...".to_owned()),
            UiDirective::DisplayText(text) => Pane::Message(text.clone()),
            UiDirective::Refresh => Pane::Message(String::new()),
            UiDirective::Clips { clips, indices, .. } => Pane::Clips {
                instructions: instructions(clips, indices),
                rows: rows(clips, indices),
                selected: match self.table_state {
                    Some(ts) => ts.selected,
                    None => None,
                },
            },
            UiDirective::ModifyVideoConfig(_) => Pane::Config {
                lines: match &self.video_config {
                    Some(vc) => lines(vc),
                    None => Vec::new(),
                },
                hint:
                    "Press Enter to apply changes, up/down to change focus, Esc to exit".to_owned(),
            },
        };
        Screen { pane, log: log.newest(log_rows as usize) }
    }

    /// Divides a screen of the given size, and draws it as [`DrawState::draw`] does. The log is
    /// large if the user wants it to be, and shows as many entries as its part has room for.
    /// Nothing happens if the screen does not have room for everything.
    pub fn frame(&mut self, size: Area, defaults: &Vec<String>, log: &Inner) -> (r: Option<Picture>)
        requires
            DrawState::showable(old(self).last_directive),
            old(self).last_directive is ModifyVideoConfig ==> match old(self).video_config {
                Some(vc) => vc.textboxes@.len() == 4,
                None => defaults@.len() == 4,
            },
        ensures
            old(self).wf() ==> final(self).wf(),
            r is Some <==> has_room(*old(self), size),
            match r {
                Some(picture) => {
                    &&& picture.pane == pane_area(size, old(self).tracing_toggle)
                    &&& picture.log == log_area(size, old(self).tracing_toggle)
                    &&& partitioned(old(self).last_directive, picture.pane, picture.parts@)
                    &&& drew(
                        *old(self),
                        *final(self),
                        defaults@,
                        log.lines@,
                        picture.log.height - 2,
                        picture.screen,
                    )
                },
                None => *final(self) == *old(self),
            },
    {
        let areas = match screen_layout(size, self.tracing_toggle) {
            Some(areas) => areas,
            None => {
                return None;
            },
        };
        let pane: Area = areas[0];
        let bottom: Area = areas[1];
        let log_rows: u16 = match log_height(bottom) {
            Some(rows) => rows,
            None => {
                return None;
            },
        };
        let parts = match &self.last_directive {
            UiDirective::Clips { .. } => clips_layout(pane),
            UiDirective::ModifyVideoConfig(_) => config_layout(pane),
            _ => Some(Vec::new()),
        };
        match parts {
            Some(parts) => {
                let screen = self.draw(defaults, log, log_rows);
                Some(Picture { pane, log: bottom, parts, screen })
            },
            None => None,
        }
    }
}

/// The row of a clip shows when it starts, when it ends and how long it is, both ends included, and
/// says that it is active exactly if it is. There is one row for each clip, in order.
pub proof fn a_row_shows_its_clip(clips: Seq<Clip>, active: Set<usize>, i: int)
    requires
        0 <= i < clips.len() <= usize::MAX,
    ensures
        clip_rows(clips, active).len() == clips.len(),
        clip_rows(clips, active)[i].range == timestamp_text(clips[i].start as int) + " - "@
            + timestamp_text(clips[i].end as int),
        clip_rows(clips, active)[i].duration == timestamp_text(clips[i].end - clips[i].start + 1),
        clip_rows(clips, active)[i].active <==> active.contains(i as usize),
        active.contains(i as usize) ==> clip_rows(clips, active)[i].status == "ACTIVE"@,
        !active.contains(i as usize) ==> clip_rows(clips, active)[i].status == "INACTIVE"@,
{
}

/// Each line of the configuration shows the text of its text box behind its header, and the cursor
/// stands in the one that has the focus.
pub proof fn a_line_shows_its_text_box(vc: VideoConfigState, i: int)
    requires
        vc.wf(),
        0 <= i < 4,
    ensures
        config_lines(vc).len() == 4,
        config_lines(vc)[i].len() == if i == vc.focused {
            4int
        } else {
            3
        },
        config_lines(vc)[i][2].text == vc.textboxes@[i].text@,
        config_lines(vc)[0][0].text == "Silence Threshold"@,
        config_lines(vc)[1][0].text == "Silence Time (seconds)"@,
        config_lines(vc)[2][0].text == "Silence Degradation"@,
        config_lines(vc)[3][0].text == "Time Limit (seconds)"@,
{
    assert(texts(vc.textboxes@)[i] == vc.textboxes@[i].text@);
    assert(marks(vc.textboxes@)[i] == only_mark(4, vc.focused as int)[i]);
}

/// The screen shows as many of the newest entries of the log as there is room for, oldest first.
pub proof fn the_newest_entries_are_shown(
    before: DrawState,
    after: DrawState,
    defaults: Seq<String>,
    log: Seq<Line>,
    log_rows: int,
    screen: Screen,
    i: int,
)
    requires
        drew(before, after, defaults, log, log_rows, screen),
        0 <= log_rows,
    ensures
        screen.log@.len() == if log_rows < log.len() {
            log_rows
        } else {
            log.len() as int
        },
        0 <= i < screen.log@.len() ==> screen.log@[i].level == log[log.len() - screen.log@.len()
            + i].level,
        0 <= i < screen.log@.len() ==> screen.log@[i].body@ == log[log.len() - screen.log@.len()
            + i].body@,
{
    assert(line_views(screen.log@).len() == screen.log@.len());
    assert(line_views(log).len() == log.len());
    if 0 <= i < screen.log@.len() {
        assert(line_views(screen.log@)[i] == screen.log@[i]@);
        assert(line_views(log)[log.len() - screen.log@.len() + i] == log[log.len()
            - screen.log@.len() + i]@);
    }
}

/// What [`rows`] returns: a row for each clip, in order, that shows when the clip starts and ends, how
/// long it is, and whether it is active.
pub proof fn rows_show_their_clips(
    clips: Vec<Clip>,
    active: HashSet<usize>,
    r: Vec<ClipRow>,
    i: int,
)
    requires
        call_ensures(rows, (&clips, &active), r),
    ensures
        r@.len() == clips@.len(),
        0 <= i < clips@.len() <= usize::MAX ==> {
            &&& r@[i].range@ == timestamp_text(clips@[i].start as int) + " - "@ + timestamp_text(
                clips@[i].end as int,
            )
            &&& r@[i].duration@ == timestamp_text(clips@[i].end - clips@[i].start + 1)
            &&& r@[i].active <==> active@.contains(i as usize)
            &&& active@.contains(i as usize) ==> r@[i].status@ == "ACTIVE"@
            &&& !active@.contains(i as usize) ==> r@[i].status@ == "INACTIVE"@
        },
{
    let views = r@.map_values(|c: ClipRow| c@);
    assert(views.len() == r@.len());
    if 0 <= i < clips@.len() <= usize::MAX {
        a_row_shows_its_clip(clips@, active@, i);
        assert(views[i] == r@[i]@);
    }
}

/// What [`lines`] returns: the text of each text box stands behind its header.
pub proof fn lines_show_their_text_boxes(vc: VideoConfigState, r: Vec<Vec<Span>>, i: int)
    requires
        vc.wf(),
        call_ensures(lines, (&vc,), r),
        0 <= i < 4,
    ensures
        r@.len() == 4,
        r@[i]@.len() == if i == vc.focused {
            4int
        } else {
            3
        },
        r@[i]@[2]@.text == vc.textboxes@[i].text@,
{
    a_line_shows_its_text_box(vc, i);
    let all = span_views(r@);
    assert(all.len() == r@.len());
    assert(all[i] == r@[i]@.map_values(|s: Span| s@));
    assert(all[i].len() == r@[i]@.len());
    assert(all[i][2] == r@[i]@[2]@);
}

/// What [`instructions`] returns: the last line shows how long the active clips are together.
pub proof fn the_time_is_shown(clips: Vec<Clip>, active: HashSet<usize>, time: i64, r: Vec<String>)
    requires
        call_ensures(instructions, (&clips, &active), r),
        call_ensures(active_duration, (&clips, &active), time),
    ensures
        r@.len() == 3,
        r@[2]@ == "Current time: "@ + timestamp_text(time as int),
{
    let all = r@.map_values(|s: String| s@);
    assert(all.len() == r@.len());
    assert(all[2] == r@[2]@);
}

/// What [`DrawState::frame`] does where there is room: the pane and the log share the screen, the log
/// shows its newest entries, as many as fit between its borders, and the first clip is selected if no
/// list was shown before. What was asked for and the size of the log stay as they are.
pub proof fn a_frame_shows_the_state(
    state: &mut DrawState,
    size: Area,
    defaults: Vec<String>,
    log: Inner,
    r: Option<Picture>,
    i: int,
)
    requires
        size.width >= 4,
        size.height >= 4,
        call_ensures(DrawState::frame, (state, size, &defaults, &log), r),
        r is Some,
    ensures
        r->Some_0.pane.y == size.y + 2,
        r->Some_0.log.y == r->Some_0.pane.y + r->Some_0.pane.height,
        r->Some_0.log.y + r->Some_0.log.height == size.y + size.height - 2,
        r->Some_0.log.height >= 2,
        r->Some_0.screen.log@.len() <= r->Some_0.log.height - 2,
        r->Some_0.screen.log@.len() == log.lines@.len() || r->Some_0.screen.log@.len()
            == r->Some_0.log.height - 2,
        0 <= i < r->Some_0.screen.log@.len() ==> r->Some_0.screen.log@[i].body@
            == log.lines@[log.lines@.len() - r->Some_0.screen.log@.len() + i].body@,
        final(state).last_directive == old(state).last_directive,
        final(state).tracing_toggle == old(state).tracing_toggle,
        old(state).table_state is Some ==> final(state).table_state == old(state).table_state,
        old(state).video_config is Some ==> final(state).video_config == old(state).video_config,
        old(state).last_directive is Clips && old(state).table_state is None
            ==> final(state).table_state == Some(TableState { selected: Some(0) }),
{
    let picture = r->Some_0;
    assert(has_room(*old(state), size));
    crate::ui::layout::pane_and_log_share_the_screen(size, old(state).tracing_toggle);
    the_newest_entries_are_shown(
        *old(state),
        *final(state),
        defaults@,
        log.lines@,
        picture.log.height - 2,
        picture.screen,
        i,
    );
}

} // verus!
