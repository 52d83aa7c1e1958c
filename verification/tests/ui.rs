use carcetti::binary64::Binary64;
use carcetti::config::VideoConfig;
use carcetti::processing::ProcessEvent;
use carcetti::ui::layout::{
    clips_layout, config_layout, divide, log_height, screen_layout, Area, Rows,
};
use carcetti::ui::run::{Key, KeyAction, KeyCode, UiLoop};
use carcetti::ui::screen::{Pane, Screen};
use carcetti::ui::state::{DrawState, FieldValue, UiDirective, UiError, UiMessage, VideoConfigState};
use carcetti::ui::subscriber::{enabled, label, record_debug, Color, Inner, Level, Line};
use carcetti::ui::textbox::{TextBox, TextBoxState};
use carcetti::ui::timestamp::Timestamp;
use carcetti::video::clips::Clip;
use std::collections::HashSet;

fn b(x: f64) -> Binary64 {
    Binary64::from_bits(x.to_bits())
}

fn key(code: KeyCode) -> Key {
    Key { code, control: false }
}

fn clip(start: i64, end: i64) -> Clip {
    Clip { start, end, priority: b(0.0) }
}

fn three_clips() -> UiDirective {
    UiDirective::Clips {
        clips: vec![clip(0, 999_999), clip(1_000_000, 2_999_999), clip(3_000_000, 6_999_999)],
        indices: [1usize].into_iter().collect(),
        config: VideoConfig::initial(),
    }
}

fn defaults() -> Vec<String> {
    ["1.0", "1.0", "1.1", "15.0"].iter().map(|s| s.to_string()).collect()
}

fn draw(ui: &mut UiLoop) -> Screen {
    ui.state.draw(&defaults(), &Inner::new(), 10)
}

fn active(ui: &UiLoop) -> Vec<usize> {
    match &ui.state.last_directive {
        UiDirective::Clips { indices, .. } => {
            let mut v: Vec<usize> = indices.iter().copied().collect();
            v.sort();
            v
        }
        _ => panic!("no clips"),
    }
}

fn selected(ui: &UiLoop) -> usize {
    ui.state.table_state.unwrap().selected.unwrap()
}

fn texts(ui: &UiLoop) -> Vec<String> {
    ui.state
        .video_config
        .as_ref()
        .unwrap()
        .textboxes
        .iter()
        .map(|t| t.text().to_string())
        .collect()
}

fn one_cursor(vc: &VideoConfigState) {
    for (i, t) in vc.textboxes.iter().enumerate() {
        assert_eq!(t.focused(), i == vc.focused);
    }
}

fn listing() -> UiLoop {
    let mut ui = UiLoop::new();
    ui.on_directive(Some(three_clips()));
    draw(&mut ui);
    ui
}

fn editing() -> UiLoop {
    let mut ui = listing();
    assert!(matches!(ui.on_key(key(KeyCode::Char('c')), &vec![]), KeyAction::Continue));
    draw(&mut ui);
    ui
}

#[test]
fn timestamps_are_clocks() {
    assert_eq!(Timestamp(0).to_string(), "00:00:00.000");
    assert_eq!(Timestamp(1_999).to_string(), "00:00:00.001");
    assert_eq!(Timestamp(3_723_004_567).to_string(), "01:02:03.004");
    assert_eq!(Timestamp(360_000_000_000).to_string(), "100:00:00.000");
    assert_eq!(Timestamp(-3_723_004_567).to_string(), "-1:-2:-3.-04");
    assert_eq!(Timestamp(-1_000).to_string(), "00:00:00.-01");
    assert_eq!(Timestamp(i64::MIN).to_string(), "-2562047788:00:-54.-775");
}

#[test]
fn clocks_add_up() {
    for us in vec![0i64, 59_999_999, 60_000_000, 3_599_999_999, 86_400_123_456] {
        let s = Timestamp(us).to_string();
        let parts: Vec<i64> = s.split(|c| c == ':' || c == '.').map(|p| p.parse().unwrap()).collect();
        assert_eq!(((parts[0] * 60 + parts[1]) * 60 + parts[2]) * 1000 + parts[3], us / 1000);
    }
}

#[test]
fn text_boxes_take_characters() {
    let mut t = TextBoxState::new("ab".to_string());
    assert!(!t.focused());
    t.push('\u{e9}');
    assert_eq!(t.text(), "ab\u{e9}");
    t.pop();
    assert_eq!(t.text(), "ab");
    t.pop();
    t.pop();
    t.pop();
    assert_eq!(t.text(), "");
    t.focus(true);
    assert!(t.focused());
    assert_eq!(TextBoxState::default().text(), "");
    assert!(!TextBoxState::default().focused());
}

#[test]
fn text_boxes_show_header_text_and_cursor() {
    let show = |t: TextBox, s: &TextBoxState| {
        t.render(s).into_iter().map(|p| (p.text, p.bold)).collect::<Vec<_>>()
    };
    let mut s = TextBoxState::new("1.0".to_string());
    assert_eq!(show(TextBox::default(), &s), vec![("1.0".to_string(), false)]);
    s.focus(true);
    assert_eq!(
        show(TextBox::default().header("Limit".to_string()), &s),
        vec![
            ("Limit".to_string(), true),
            (": ".to_string(), true),
            ("1.0".to_string(), false),
            ("_".to_string(), false)
        ]
    );
}

#[test]
fn labels_have_colours() {
    let l = label(Level::Error);
    assert_eq!((l.text, l.color, l.bold), ("ERROR ", Color::Red, true));
    let l = label(Level::Warn);
    assert_eq!((l.text, l.color, l.bold), ("WARN  ", Color::Yellow, true));
    let l = label(Level::Info);
    assert_eq!((l.text, l.color, l.bold), ("INFO  ", Color::Green, false));
    let l = label(Level::Debug);
    assert_eq!((l.text, l.color, l.bold), ("DEBUG ", Color::Cyan, false));
    let l = label(Level::Trace);
    assert_eq!((l.text, l.color, l.bold), ("TRACE ", Color::Blue, false));
}

#[test]
fn talkative_entries_are_not_recorded() {
    assert!(enabled(Level::Error));
    assert!(enabled(Level::Warn));
    assert!(enabled(Level::Info));
    assert!(!enabled(Level::Debug));
    assert!(!enabled(Level::Trace));
    let mut s = "a ".to_string();
    record_debug(&mut s, "\"b\"");
    assert_eq!(s, "a \"b\" ");
}

#[test]
fn the_log_forgets_the_oldest() {
    let mut log = Inner::new();
    for i in 0..1000 {
        log.record(Line { level: Level::Info, body: i.to_string() });
    }
    assert_eq!(log.lines.len(), 1000);
    log.record(Line { level: Level::Warn, body: "1000".to_string() });
    assert_eq!(log.lines.len(), 251);
    assert_eq!(log.lines[0].body, "750");
    assert_eq!(log.lines[250].body, "1000");
    for i in 0..5000 {
        log.record(Line { level: Level::Info, body: i.to_string() });
        assert!(log.lines.len() <= 1000);
        assert_eq!(log.lines[log.lines.len() - 1].body, i.to_string());
    }
}

#[test]
fn the_newest_entries_are_shown() {
    let mut log = Inner::new();
    for i in 0..5 {
        log.record(Line { level: Level::Info, body: i.to_string() });
    }
    let bodies = |n| log.newest(n).into_iter().map(|l| l.body).collect::<Vec<_>>();
    assert_eq!(bodies(2), vec!["3", "4"]);
    assert_eq!(bodies(5).len(), 5);
    assert_eq!(bodies(9).len(), 5);
    assert_eq!(bodies(0).len(), 0);
}

#[test]
fn the_screen_is_divided() {
    let size = Area { x: 0, y: 0, width: 104, height: 54 };
    let parts = screen_layout(size, false).unwrap();
    assert_eq!(parts[0], Area { x: 2, y: 2, width: 100, height: 40 });
    assert_eq!(parts[1], Area { x: 2, y: 42, width: 100, height: 10 });
    let large = screen_layout(size, true).unwrap();
    assert_eq!(large[1].y + large[1].height, 52);
    assert!(large[1].height > 40);
    assert_eq!(screen_layout(Area { x: 0, y: 0, width: 10, height: 1000 }, false), None);
    assert_eq!(screen_layout(Area { x: 1, y: 0, width: u16::MAX, height: 10 }, false), None);
    let list = clips_layout(parts[0]).unwrap();
    assert_eq!(list[0].height, 5);
    assert_eq!(list[1], Area { x: 2, y: 7, width: 100, height: 35 });
    let config = config_layout(parts[0]).unwrap();
    assert_eq!(config.len(), 5);
    assert!(config.iter().all(|p| p.x == 6 && p.width == 92));
    assert_eq!(config[4].y + config[4].height, 2 + 40 - 1 - 3);
    assert_eq!(config_layout(Area { x: 0, y: 0, width: 1, height: 9 }), None);
    assert_eq!(log_height(parts[1]), Some(8));
    assert_eq!(log_height(Area { x: 0, y: 0, width: 9, height: 1 }), None);
}

#[test]
fn areas_are_divided_inside_their_margin() {
    let area = Area { x: 3, y: 4, width: 20, height: 30 };
    let rows = vec![Rows::Length(5), Rows::Max(9999), Rows::Percentage(20)];
    let parts = divide(area, 1, &rows).unwrap();
    assert_eq!(parts.len(), 3);
    assert!(parts.iter().all(|p| p.x == 4 && p.width == 18));
    assert_eq!(parts[2].y + parts[2].height, 4 + 30 - 1);
    assert_eq!(divide(area, 1, &vec![]).unwrap().len(), 0);
    assert_eq!(divide(area, 40_000, &rows), None);
    assert_eq!(divide(area, 1, &vec![Rows::Percentage(u16::MAX)]), None);
}

#[test]
fn shares_are_rounded_down() {
    for h in 0..656u16 {
        let area = Area { x: 1, y: 7, width: 9, height: h };
        for p in vec![0u16, 5, 33, 50, 80, 95, 100] {
            let rows = vec![Rows::Percentage(p), Rows::Percentage(100 - p)];
            let parts = divide(area, 0, &rows);
            if u32::from(p.max(100 - p)) * u32::from(h) > 65535 {
                assert_eq!(parts, None);
                continue;
            }
            let first = p * h / 100;
            assert_eq!(
                parts.unwrap(),
                vec![
                    Area { x: 1, y: 7, width: 9, height: first },
                    Area { x: 1, y: 7 + first, width: 9, height: h - first }
                ]
            );
        }
    }
}

#[test]
fn a_fixed_height_comes_before_the_rest() {
    for h in 0..300u16 {
        let area = Area { x: 1, y: 7, width: 9, height: h };
        for (l, m) in vec![(5u16, 9999u16), (0, 300), (40, 260), (400, 0)] {
            let rows = vec![Rows::Length(l), Rows::Max(m)];
            let first = l.min(h);
            assert_eq!(
                divide(area, 0, &rows).unwrap(),
                vec![
                    Area { x: 1, y: 7, width: 9, height: first },
                    Area { x: 1, y: 7 + first, width: 9, height: h - first }
                ]
            );
        }
        assert_eq!(clips_layout(area).unwrap()[0].height, h.min(5));
    }
}

#[test]
fn fifths_are_rounded_down() {
    for h in 0..1000u16 {
        let area = Area { x: 1, y: 7, width: 9, height: h + 8 };
        let parts = config_layout(area).unwrap();
        for i in 0..5u16 {
            let part = parts[i as usize];
            assert_eq!(part.y, 7 + 4 + i * h / 5);
            if i < 4 {
                assert_eq!(part.height, h / 5);
            }
        }
        assert_eq!(parts[4].y + parts[4].height, 7 + 4 + h);
    }
}

#[test]
fn a_large_log_has_nearly_all_of_the_screen() {
    let size = Area { x: 0, y: 0, width: 104, height: 63 };
    let parts = screen_layout(size, true).unwrap();
    assert_eq!((parts[0].y, parts[0].height), (2, 2));
    assert_eq!((parts[1].y, parts[1].height), (4, 57));
    let parts = screen_layout(size, false).unwrap();
    assert_eq!((parts[0].y, parts[0].height), (2, 47));
    assert_eq!((parts[1].y, parts[1].height), (49, 12));
}

#[test]
fn at_first_there_is_a_message() {
    let mut ui = UiLoop::new();
    match draw(&mut ui).pane {
        Pane::Message(t) => assert_eq!(t, "Loading..."),
        _ => panic!("no message"),
    }
    ui.on_directive(Some(UiDirective::DisplayText("hello".to_string())));
    ui.on_directive(Some(UiDirective::Refresh));
    match draw(&mut ui).pane {
        Pane::Message(t) => assert_eq!(t, "hello"),
        _ => panic!("no message"),
    }
    assert!(matches!(ui.on_key(key(KeyCode::Esc), &vec![]), KeyAction::Continue));
    assert!(matches!(ui.on_key(key(KeyCode::Char(' ')), &vec![]), KeyAction::Continue));
}

#[test]
fn after_the_end_any_key_leaves() {
    let mut ui = UiLoop::new();
    ui.on_directive(Some(UiDirective::Stop));
    ui.on_directive(Some(UiDirective::DisplayText("late".to_string())));
    match draw(&mut ui).pane {
        Pane::Message(t) => assert_eq!(t, "Press any key to continue..."),
        _ => panic!("no message"),
    }
    assert!(matches!(ui.on_key(key(KeyCode::Other), &vec![]), KeyAction::Quit));
    let mut ui = UiLoop::new();
    ui.on_directive(None);
    assert!(!ui.running);
}

#[test]
fn clips_are_listed() {
    let mut ui = listing();
    match draw(&mut ui).pane {
        Pane::Clips { instructions, rows, selected } => {
            assert_eq!(selected, Some(0));
            assert_eq!(
                instructions,
                vec![
                    "Select clips to produce a video",
                    "Enter to change status, C to reconfigure, Spacebar to continue, Esc to exit",
                    "Current time: 00:00:02.000"
                ]
            );
            assert_eq!(rows.len(), 3);
            assert_eq!(rows[0].range, "00:00:00.000 - 00:00:00.999");
            assert_eq!(rows[0].duration, "00:00:01.000");
            assert_eq!((rows[0].status.as_str(), rows[0].active), ("INACTIVE", false));
            assert_eq!((rows[1].status.as_str(), rows[1].active), ("ACTIVE", true));
        }
        _ => panic!("no clips"),
    }
}

#[test]
fn the_selection_moves_inside_the_list() {
    let mut ui = listing();
    assert_eq!(selected(&ui), 0);
    ui.on_key(key(KeyCode::Up), &vec![]);
    assert_eq!(selected(&ui), 0);
    for expected in vec![1, 2, 2] {
        ui.on_key(key(KeyCode::Down), &vec![]);
        assert_eq!(selected(&ui), expected);
    }
    ui.on_key(key(KeyCode::Up), &vec![]);
    assert_eq!(selected(&ui), 1);
}

#[test]
fn enter_changes_the_status_of_a_clip() {
    let mut ui = listing();
    assert_eq!(active(&ui), vec![1]);
    assert!(matches!(ui.on_key(key(KeyCode::Enter), &vec![]), KeyAction::Continue));
    assert_eq!(active(&ui), vec![0, 1]);
    ui.on_key(key(KeyCode::Enter), &vec![]);
    assert_eq!(active(&ui), vec![1]);
    ui.on_key(key(KeyCode::Down), &vec![]);
    ui.on_key(key(KeyCode::Enter), &vec![]);
    assert!(active(&ui).is_empty());
}

#[test]
fn keys_of_the_list_ask_the_program() {
    let mut ui = listing();
    match ui.on_key(key(KeyCode::Char(' ')), &vec![]) {
        KeyAction::Send(m) => assert_eq!(m, UiMessage::GoForIt),
        _ => panic!("no message"),
    }
    assert!(matches!(ui.on_key(key(KeyCode::Esc), &vec![]), KeyAction::HaltAndQuit));
    let exit = Key { code: KeyCode::Char('c'), control: true };
    assert!(matches!(ui.on_key(exit, &vec![]), KeyAction::HaltAndFail));
    assert!(matches!(ui.state.last_directive, UiDirective::Clips { .. }));
    assert!(matches!(ui.on_key(key(KeyCode::Backspace), &vec![]), KeyAction::Continue));
    assert!(matches!(ui.on_key(key(KeyCode::Char('x')), &vec![]), KeyAction::Continue));
}

#[test]
fn the_log_changes_its_size_everywhere() {
    let mut ui = editing();
    assert!(!ui.state.tracing_toggle);
    ui.on_key(key(KeyCode::Char('t')), &vec![]);
    assert!(ui.state.tracing_toggle);
    assert_eq!(texts(&ui), defaults());
    ui.on_key(key(KeyCode::Char('t')), &vec![]);
    assert!(!ui.state.tracing_toggle);
}

#[test]
fn the_configuration_is_shown() {
    let mut ui = editing();
    match draw(&mut ui).pane {
        Pane::Config { lines, hint } => {
            assert_eq!(
                hint,
                "Press Enter to apply changes, up/down to change focus, Esc to exit"
            );
            let shown: Vec<String> =
                lines.iter().map(|l| l.iter().map(|s| s.text.as_str()).collect()).collect();
            assert_eq!(
                shown,
                vec![
                    "Silence Threshold: 1.0_",
                    "Silence Time (seconds): 1.0",
                    "Silence Degradation: 1.1",
                    "Time Limit (seconds): 15.0"
                ]
            );
        }
        _ => panic!("no configuration"),
    }
}

#[test]
fn the_focus_moves_over_the_text_boxes() {
    let mut ui = editing();
    for expected in vec![1, 2, 3, 3] {
        ui.on_key(key(KeyCode::Down), &vec![None; 4]);
        let vc = ui.state.video_config.as_ref().unwrap();
        assert_eq!(vc.focused, expected);
        one_cursor(vc);
    }
    for expected in vec![2, 1, 0, 0] {
        ui.on_key(key(KeyCode::Up), &vec![None; 4]);
        let vc = ui.state.video_config.as_ref().unwrap();
        assert_eq!(vc.focused, expected);
        one_cursor(vc);
    }
}

#[test]
fn characters_are_typed_into_the_configuration() {
    let mut ui = editing();
    ui.on_key(key(KeyCode::Down), &vec![None; 4]);
    for c in vec!['2', 'c', '\n', ' ', 't'] {
        assert!(matches!(ui.on_key(key(KeyCode::Char(c)), &vec![None; 4]), KeyAction::Continue));
    }
    assert_eq!(texts(&ui)[1], "1.02c");
    ui.on_key(key(KeyCode::Backspace), &vec![None; 4]);
    ui.on_key(key(KeyCode::Backspace), &vec![None; 4]);
    assert_eq!(texts(&ui), defaults());
    one_cursor(ui.state.video_config.as_ref().unwrap());
}

#[test]
fn enter_starts_over_with_the_configuration() {
    let mut ui = editing();
    let value = |x: f64| Some(FieldValue { number: b(x), microseconds: (x * 1_000_000.0) as i64 });
    let values = vec![value(0.5), value(2.0), value(1.25), value(30.0)];
    match ui.on_key(key(KeyCode::Enter), &values) {
        KeyAction::Send(UiMessage::RerunVideoProcess(c)) => {
            assert_eq!(c.silence_threshold, b(0.5));
            assert_eq!(c.silence_time, 2_000_000);
            assert_eq!(c.silence_degrade, b(1.25));
            assert_eq!(c.time_limit, 30_000_000);
        }
        _ => panic!("no message"),
    }
    match ui.on_key(key(KeyCode::Enter), &vec![value(0.5), None, None, value(1.0)]) {
        KeyAction::Fail(e) => {
            assert_eq!(e.message(), "could not parse 1.0 as a float");
            assert!(matches!(e, UiError::NotANumber { .. }));
        }
        _ => panic!("no error"),
    }
    assert!(matches!(ui.on_key(key(KeyCode::Esc), &vec![None; 4]), KeyAction::HaltAndQuit));
}

#[test]
fn the_configuration_is_that_of_the_clips() {
    let mut state = DrawState::new();
    let mut config = VideoConfig::initial();
    config.time_limit = 7;
    state.last_directive = UiDirective::Clips {
        clips: vec![clip(0, 1)],
        indices: HashSet::new(),
        config,
    };
    state.draw(&vec![], &Inner::new(), 0);
    assert_eq!(state.on_char('c'), None);
    match state.last_directive {
        UiDirective::ModifyVideoConfig(c) => assert_eq!(c, config),
        _ => panic!("no configuration"),
    }
}

#[test]
fn enter_does_not_depend_on_the_cursor() {
    let mut state = DrawState::new();
    state.last_directive = UiDirective::ModifyVideoConfig(VideoConfig::initial());
    state.video_config = Some(VideoConfigState {
        textboxes: ["2.5", "1.5", "1.1", "15"]
            .iter()
            .map(|t| TextBoxState::new(t.to_string()))
            .collect(),
        focused: 0,
    });
    let values = [2.5, 1.5, 1.1, 15.0]
        .iter()
        .map(|x| Some(FieldValue { number: b(*x), microseconds: (*x * 1_000_000.0) as i64 }))
        .collect();
    match state.on_enter(&values) {
        Ok(Some(UiMessage::RerunVideoProcess(c))) => {
            assert_eq!(c.silence_threshold, b(2.5));
            assert_eq!(c.silence_time, 1_500_000);
            assert_eq!(c.silence_degrade, b(1.1));
            assert_eq!(c.time_limit, 15_000_000);
        }
        _ => panic!("no message"),
    }
}

#[test]
fn characters_do_not_depend_on_the_selection() {
    let mut state = DrawState::new();
    state.last_directive = three_clips();
    assert_eq!(state.on_char(' '), Some(UiMessage::GoForIt));
    assert_eq!(state.on_char('x'), None);
    assert!(matches!(state.last_directive, UiDirective::Clips { .. }));
    assert_eq!(state.on_char('c'), None);
    assert!(matches!(state.last_directive, UiDirective::ModifyVideoConfig(_)));
    assert_eq!(state.on_char(' '), None);
    assert_eq!(state.table_state, None);
}

#[test]
fn a_picture_has_everything_in_its_place() {
    let size = Area { x: 0, y: 0, width: 104, height: 54 };
    let mut log = Inner::new();
    for i in 0..100 {
        log.record(Line { level: Level::Info, body: i.to_string() });
    }
    let mut ui = UiLoop::new();
    let p = ui.state.frame(size, &vec![], &log).unwrap();
    assert_eq!(p.pane, Area { x: 2, y: 2, width: 100, height: 40 });
    assert_eq!(p.log, Area { x: 2, y: 42, width: 100, height: 10 });
    assert!(p.parts.is_empty());
    assert_eq!(p.screen.log.len(), 8);
    assert_eq!(p.screen.log[7].body, "99");

    ui.on_directive(Some(three_clips()));
    ui.on_key(key(KeyCode::Char('t')), &vec![]);
    let p = ui.state.frame(size, &vec![], &log).unwrap();
    assert_eq!(p.pane.height, 2);
    assert_eq!(p.parts, clips_layout(p.pane).unwrap());
    assert_eq!(p.screen.log.len(), 46);
    assert!(matches!(p.screen.pane, Pane::Clips { .. }));

    ui.on_key(key(KeyCode::Char('c')), &vec![]);
    let p = ui.state.frame(size, &defaults(), &log).unwrap();
    assert_eq!(p.parts, config_layout(p.pane).unwrap());
    assert!(matches!(p.screen.pane, Pane::Config { .. }));
}

#[test]
fn a_small_screen_has_no_picture() {
    let mut ui = UiLoop::new();
    let small = Area { x: 0, y: 0, width: 104, height: 9 };
    assert!(ui.state.frame(small, &vec![], &Inner::new()).is_none());
    let large = Area { x: 0, y: 0, width: 104, height: 10 };
    assert!(ui.state.frame(large, &vec![], &Inner::new()).is_some());
    ui.on_directive(Some(three_clips()));
    assert!(ui.state.frame(small, &vec![], &Inner::new()).is_none());
    assert_eq!(ui.state.table_state, None);
}

#[test]
fn the_reply_holds_what_the_user_has_chosen() {
    let mut ui = listing();
    ui.on_key(key(KeyCode::Down), &vec![]);
    ui.on_key(key(KeyCode::Down), &vec![]);
    ui.on_key(key(KeyCode::Enter), &vec![]);
    let message = match ui.on_key(key(KeyCode::Char(' ')), &vec![]) {
        KeyAction::Send(m) => m,
        _ => panic!("no message"),
    };
    let reply = ui.reply(message).clone();
    assert_eq!(reply.message, UiMessage::GoForIt);
    assert_eq!(reply.active, HashSet::from([1, 2]));
    match reply.into_event() {
        ProcessEvent::Answered { message, active } => {
            assert_eq!(message, UiMessage::GoForIt);
            assert_eq!(active, HashSet::from([1, 2]));
        }
        _ => panic!("no answer"),
    }
    assert!(UiLoop::new().reply(UiMessage::Halt).active.is_empty());
}

#[test]
fn what_cannot_be_shown_is_noticed() {
    let mut state = DrawState::new();
    assert!(state.can_show());
    state.last_directive = three_clips();
    assert!(state.can_show());
    state.last_directive = UiDirective::Refresh;
    assert!(!state.can_show());
    state.last_directive = UiDirective::Clips {
        clips: vec![clip(0, 9), clip(i64::MIN, i64::MAX)],
        indices: HashSet::from([0]),
        config: VideoConfig::initial(),
    };
    assert!(!state.can_show());
    state.last_directive = UiDirective::Clips {
        clips: vec![clip(0, i64::MAX - 1), clip(0, 9)],
        indices: HashSet::from([1]),
        config: VideoConfig::initial(),
    };
    assert!(state.can_show());
}
