//! The loop of the user interface: what it does on a directive of the program, and on a key.

use std::collections::HashSet;

use vstd::prelude::*;

use crate::ui::state::{
    copied, entered, erased, typed, went_down, went_up, DrawState, FieldValue, UiDirective, UiError,
    UiMessage,
};

verus! {

/// A key.
#[derive(Debug, Clone, Copy, PartialEq, Eq, Structural)]
pub enum KeyCode {
    Up,
    Down,
    Enter,
    Esc,
    Backspace,
    /// A key that types a character.
    Char(char),
    /// Any other key.
    Other,
}

/// A key that was pressed, and whether the control key was held down.
#[derive(Debug, Clone, Copy, PartialEq, Eq, Structural)]
pub struct Key {
    pub code: KeyCode,
    pub control: bool,
}

/// What is to be done after a key was handled.
#[derive(Debug)]
pub enum KeyAction {
    /// Draw, and wait for the next event.
    Continue,
    /// Send the message to the program, and go on.
    Send(UiMessage),
    /// Leave the user interface.
    Quit,
    /// Ask the program to halt, and leave the user interface.
    HaltAndQuit,
    /// Ask the program to halt, and leave the user interface because the user wants to exit.
    HaltAndFail,
    /// Leave the user interface because of an error.
    Fail(UiError),
}

/// A message of the user, with the clips that are active when it is sent.
#[derive(Debug)]
pub struct Reply {
    /// The message.
    pub message: UiMessage,
    /// Which clips are active.
    pub active: HashSet<usize>,
}

impl Clone for Reply {
    fn clone(&self) -> (r: Reply)
        ensures
            r.message == self.message,
            r.active@ == self.active@,
    {
        Reply { message: self.message, active: copied(&self.active) }
    }
}

/// The user interface while it runs.
#[derive(Debug)]
pub struct UiLoop {
    /// What is shown.
    pub state: DrawState,
    /// Whether the program has not stopped yet.
    pub running: bool,
}

impl UiLoop {
    /// The state is one that the user interface can get into.
    pub open spec fn wf(self) -> bool {
        self.state.wf()
    }

    /// The user interface at its start.
    pub fn new() -> (r: UiLoop)
        ensures
            r.wf(),
            r.state.drawn(),
            r.running,
            r.state.last_directive matches UiDirective::DisplayText(t) && t@ == "Loading..."@,
            r.state.table_state is None,
            r.state.video_config is None,
            !r.state.tracing_toggle,
    {
        UiLoop { state: DrawState::new(), running: true }
    }

    /// The program has sent a directive, or is gone. Once it has stopped, this is all that is
    /// shown.
    pub fn on_directive(&mut self, directive: Option<UiDirective>)
        requires
            old(self).wf(),
        ensures
            final(self).wf(),
            final(self).running == (old(self).running && !(directive is None
                || directive == Some(UiDirective::Stop))),
            final(self).state.last_directive == (match directive {
                None => UiDirective::Stop,
                Some(UiDirective::Stop) => UiDirective::Stop,
                Some(UiDirective::Refresh) => old(self).state.last_directive,
                Some(d) => if old(self).running {
                    d
                } else {
                    old(self).state.last_directive
                },
            }),
            final(self).state.table_state == old(self).state.table_state,
            final(self).state.video_config == old(self).state.video_config,
            final(self).state.tracing_toggle == old(self).state.tracing_toggle,
    {
        match directive {
            None => {
                self.running = false;
                self.state.last_directive = UiDirective::Stop;
            },
            Some(UiDirective::Stop) => {
                self.running = false;
                self.state.last_directive = UiDirective::Stop;
            },
            Some(UiDirective::Refresh) => {},
            Some(d) => {
                if self.running {
                    self.state.last_directive = d;
                }
            },
        }
    }

    /// The message of the user, as it goes to the program: with the clips that the user has left
    /// active.
    pub fn reply(&self, message: UiMessage) -> (r: Reply)
        ensures
            r.message == message,
            r.active@ == self.state.active(),
    {
        Reply { message, active: self.state.active_clips() }
    }

    /// A key was pressed. `values` holds what the texts of the text boxes mean as numbers. Once
    /// the program has stopped, any key leaves. Control and `c` asks to exit at all times.
    pub fn on_key(&mut self, key: Key, values: &Vec<Option<FieldValue>>) -> (r: KeyAction)
        requires
            old(self).wf(),
            old(self).state.last_directive is ModifyVideoConfig
                ==> old(self).state.video_config is Some,
            old(self).state.editing() ==> values@.len() == 4,
            key.code == KeyCode::Down && old(self).state.listing() ==> old(self).state.clip_count()
                > 0,
        ensures
            final(self).wf(),
            final(self).running == old(self).running,
            ({
                let before = old(self).state;
                let after = final(self).state;
                if !old(self).running {
                    r is Quit && after == before
                } else if key.code == KeyCode::Char('c') && key.control {
                    r is HaltAndFail && after == before
                } else {
                    match key.code {
                        KeyCode::Up => r is Continue && went_up(before, after),
                        KeyCode::Down => r is Continue && went_down(before, after),
                        KeyCode::Enter => match r {
                            KeyAction::Continue => entered(before, after, values@, Ok(None)),
                            KeyAction::Send(m) => entered(before, after, values@, Ok(Some(m))),
                            KeyAction::Fail(e) => entered(before, after, values@, Err(e)),
                            _ => false,
                        },
                        KeyCode::Esc => after == before && if before.last_directive is Clips
                            || before.last_directive is ModifyVideoConfig {
                            r is HaltAndQuit
                        } else {
                            r is Continue
                        },
                        KeyCode::Char(c) => match r {
                            KeyAction::Continue => typed(before, after, c, None),
                            KeyAction::Send(m) => typed(before, after, c, Some(m)),
                            _ => false,
                        },
                        KeyCode::Backspace => r is Continue && erased(before, after),
                        KeyCode::Other => r is Continue && after == before,
                    }
                }
            }),
    {
        if !self.running {
            return KeyAction::Quit;
        }
        match key.code {
            KeyCode::Up => {
                self.state.on_up();
                KeyAction::Continue
            },
            KeyCode::Down => {
                self.state.on_down();
                KeyAction::Continue
            },
            KeyCode::Enter => match self.state.on_enter(values) {
                Ok(Some(m)) => KeyAction::Send(m),
                Ok(None) => KeyAction::Continue,
                Err(e) => KeyAction::Fail(e),
            },
            KeyCode::Esc => {
                if self.state.on_esc() {
                    KeyAction::HaltAndQuit
                } else {
                    KeyAction::Continue
                }
            },
            KeyCode::Char(c) => {
                if c == 'c' && key.control {
                    return KeyAction::HaltAndFail;
                }
                match self.state.on_char(c) {
                    Some(m) => KeyAction::Send(m),
                    None => KeyAction::Continue,
                }
            },
            KeyCode::Backspace => {
                self.state.on_backspace();
                KeyAction::Continue
            },
            KeyCode::Other => KeyAction::Continue,
        }
    }
}

/// What [`UiLoop::on_directive`] does: once the program has stopped, or is gone, this is what is
/// shown for good. Before that, what the program asks for is shown, but for a request to draw anew,
/// which changes nothing.
pub proof fn a_stop_is_for_good(ui: &mut UiLoop, directive: Option<UiDirective>)
    requires
        call_ensures(UiLoop::on_directive, (ui, directive), ()),
    ensures
        directive is None || directive->Some_0 is Stop ==> final(ui).state.last_directive is Stop
            && !final(ui).running,
        !old(ui).running ==> !final(ui).running,
        !old(ui).running && old(ui).state.last_directive is Stop
            ==> final(ui).state.last_directive is Stop,
        directive is Some && directive->Some_0 is Refresh ==> *final(ui) == *old(ui),
        directive is Some && old(ui).running && !(directive->Some_0 is Refresh)
            ==> final(ui).state.last_directive == directive->Some_0,
{
}

/// What [`UiLoop::on_key`] does: after the program has stopped any key leaves, control and `c` fails
/// at any other time, and each other key does what its function does.
pub proof fn keys_are_handled(
    ui: &mut UiLoop,
    key: Key,
    values: Vec<Option<FieldValue>>,
    r: KeyAction,
)
    requires
        call_ensures(UiLoop::on_key, (ui, key, &values), r),
    ensures
        r is Quit <==> !old(ui).running,
        r is HaltAndFail <==> old(ui).running && key.control && key.code == KeyCode::Char('c'),
        r is HaltAndQuit <==> old(ui).running && key.code == KeyCode::Esc && (old(
            ui,
        ).state.last_directive is Clips || old(ui).state.last_directive is ModifyVideoConfig),
        old(ui).running && key.code == KeyCode::Up ==> went_up(old(ui).state, final(ui).state),
        old(ui).running && key.code == KeyCode::Down ==> went_down(old(ui).state, final(ui).state),
        old(ui).running && key.code == KeyCode::Backspace ==> erased(
            old(ui).state,
            final(ui).state,
        ),
        old(ui).running && key.code == KeyCode::Char(' ') && old(ui).state.last_directive is Clips
            ==> r is Send && r->Send_0 is GoForIt,
        final(ui).running == old(ui).running,
{
}

/// What [`UiLoop::reply`] returns: the message as it is, with just the clips that are active.
pub proof fn a_reply_tells_the_active_clips(
    ui: UiLoop,
    message: UiMessage,
    r: Reply,
    active: HashSet<usize>,
)
    requires
        call_ensures(UiLoop::reply, (&ui, message), r),
        call_ensures(DrawState::active_clips, (&ui.state,), active),
    ensures
        r.message == message,
        r.active@ == active@,
        ui.state.last_directive is Clips ==> active@ == ui.state.last_directive->indices@,
{
}

} // verus!
