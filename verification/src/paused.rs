use vstd::prelude::*;

use crate::messages::Message;

verus! {

/// What the game is doing: in the main menu, playing, or quitting.
#[derive(PartialEq, Eq, Structural, Clone, Copy, Debug)]
pub enum State {
    Menu,
    Gameplay,
    Quit,
}

/// What holds the world still. The time left of a hitstop is counted by the
/// caller, who reports when it has run out.
pub enum Paused {
    /// An NPC is talking (or was about to).
    Dialogue(Option<Message>),
    /// The game stops for a moment after a parry.
    Hitstop,
    /// The pause menu is open.
    Pause,
    /// Nothing holds the world.
    Running,
}

/// What the caller does for the pause state in a frame.
#[derive(PartialEq, Eq, Structural, Clone, Copy, Debug)]
pub enum PauseAction {
    /// Nothing.
    Nothing,
    /// Show the dialogue menu with the message, then hand the message back to
    /// `Paused::after_dialogue`.
    ShowDialogue,
    /// Count the hitstop's time down by the frame's time.
    CountDown,
    /// Show the pause menu; what it gives is the frame's menu result.
    ShowPauseMenu,
}

/// What the frame loop does once the pause menus have run.
#[derive(PartialEq, Eq, Structural, Clone, Copy, Debug)]
pub enum FrameOutcome {
    /// Leave the game for the given state.
    Leave(State),
    /// The world is held: draw and go on to the next frame.
    SkipWorld,
    /// Run combat and behaviors.
    RunWorld,
}

/// Whether a pause state holds the world.
pub open spec fn holds_world(p: Paused) -> bool {
    !(p is Running)
}

/// The pause state and action after a pause step, given whether the pause key
/// was just pressed and whether the hitstop's time has run out.
pub open spec fn pause_step(p: Paused, pause_pressed: bool, hitstop_over: bool) -> (Paused, PauseAction) {
    match p {
        Paused::Dialogue(Some(m)) => (Paused::Dialogue(Some(m)), PauseAction::ShowDialogue),
        Paused::Dialogue(None) => (Paused::Running, PauseAction::Nothing),
        Paused::Hitstop => if hitstop_over {
            (Paused::Running, PauseAction::Nothing)
        } else {
            (Paused::Hitstop, PauseAction::CountDown)
        },
        Paused::Pause => if pause_pressed {
            (Paused::Running, PauseAction::ShowPauseMenu)
        } else {
            (Paused::Pause, PauseAction::ShowPauseMenu)
        },
        Paused::Running => if pause_pressed {
            (Paused::Pause, PauseAction::Nothing)
        } else {
            (Paused::Running, PauseAction::Nothing)
        },
    }
}

/// The pause state and what the frame does, given the state after the pause
/// step and what the pause menu gave this frame (`None` when it gave nothing).
pub open spec fn frame_step(p: Paused, menu: Option<State>) -> (Paused, FrameOutcome) {
    match menu {
        Some(State::Gameplay) => (Paused::Running, FrameOutcome::RunWorld),
        Some(s) => (p, FrameOutcome::Leave(s)),
        None => if holds_world(p) {
            (p, FrameOutcome::SkipWorld)
        } else {
            (p, FrameOutcome::RunWorld)
        },
    }
}

impl Paused {
    /// Checks whether the world is held.
    pub fn is_paused(&self) -> (res: bool)
        ensures
            res == holds_world(*self),
    {
        match self {
            Paused::Running => false,
            _ => true,
        }
    }

    /// One step of the pause state: a dialogue goes on being shown (and ends
    /// when it has none), a hitstop ends once its time has run out, the pause
    /// menu is shown and closes when the pause key is pressed, and the pause
    /// key pauses a running game.
    pub fn pause(self, pause_pressed: bool, hitstop_over: bool) -> (res: (Paused, PauseAction))
        ensures
            res == pause_step(self, pause_pressed, hitstop_over),
    {
        match self {
            Paused::Dialogue(Some(m)) => (Paused::Dialogue(Some(m)), PauseAction::ShowDialogue),
            Paused::Dialogue(None) => (Paused::Running, PauseAction::Nothing),
            Paused::Hitstop => if hitstop_over {
                (Paused::Running, PauseAction::Nothing)
            } else {
                (Paused::Hitstop, PauseAction::CountDown)
            },
            Paused::Pause => if pause_pressed {
                (Paused::Running, PauseAction::ShowPauseMenu)
            } else {
                (Paused::Pause, PauseAction::ShowPauseMenu)
            },
            Paused::Running => if pause_pressed {
                (Paused::Pause, PauseAction::Nothing)
            } else {
                (Paused::Running, PauseAction::Nothing)
            },
        }
    }

    /// After the dialogue menu showed the message: the dialogue ends when the
    /// message has stopped, and goes on otherwise.
    pub fn after_dialogue(message: Message) -> (res: Paused)
        ensures
            message.reading().stopped ==> res is Running,
            !message.reading().stopped ==> res == Paused::Dialogue(Some(message)),
    {
        if message.should_stop() {
            Paused::Running
        } else {
            Paused::Dialogue(Some(message))
        }
    }

    /// What the frame loop does after the pause menus ran: a menu that asks
    /// for the game resumes it, a menu that asks for another state leaves the
    /// game, and otherwise the world runs unless it is held.
    pub fn frame(self, menu: Option<State>) -> (res: (Paused, FrameOutcome))
        ensures
            res == frame_step(self, menu),
    {
        match menu {
            Some(State::Gameplay) => (Paused::Running, FrameOutcome::RunWorld),
            Some(s) => (self, FrameOutcome::Leave(s)),
            None => {
                let held = self.is_paused();
                if held {
                    (self, FrameOutcome::SkipWorld)
                } else {
                    (self, FrameOutcome::RunWorld)
                }
            },
        }
    }
}

/// An NPC's dialogue is never dropped unread: whatever the keys and the
/// hitstop, a pause step keeps a dialogue that holds a message, shows it, and
/// keeps the world held, so with no menu result the frame skips the world.
pub proof fn lemma_dialogue_kept(m: Message, pause_pressed: bool, hitstop_over: bool)
    ensures
        pause_step(Paused::Dialogue(Some(m)), pause_pressed, hitstop_over).0 == Paused::Dialogue(Some(m)),
        pause_step(Paused::Dialogue(Some(m)), pause_pressed, hitstop_over).1 == PauseAction::ShowDialogue,
        holds_world(pause_step(Paused::Dialogue(Some(m)), pause_pressed, hitstop_over).0),
        frame_step(pause_step(Paused::Dialogue(Some(m)), pause_pressed, hitstop_over).0, None).1
            == FrameOutcome::SkipWorld,
{
}

/// A running game is never held, and a hitstop whose time has run out lets the
/// world run in the same frame; leaving happens exactly when the menu asks for
/// a state other than the game.
pub proof fn lemma_frame_laws(p: Paused, menu: Option<State>, pause_pressed: bool)
    ensures
        !pause_pressed ==> pause_step(Paused::Running, pause_pressed, true).0 is Running,
        frame_step(pause_step(Paused::Hitstop, pause_pressed, true).0, None).1 == FrameOutcome::RunWorld,
        (frame_step(p, menu).1 is Leave) <==> (menu matches Some(s) && s != State::Gameplay),
        frame_step(p, menu).1 == FrameOutcome::RunWorld ==> !holds_world(frame_step(p, menu).0),
{
}

} // verus!
