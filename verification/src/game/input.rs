use vstd::prelude::*;
use crate::game::game_tasks::{Button, GameTasks, Key, Wheel};

verus! {

/// An event of the window, reduced to what the game reads of it. The scroll
/// distance `delta` is counted in thousandths of a notch. Every event the
/// game has no use for is `Other`.
#[derive(Copy, Clone, PartialEq, Eq, Structural, Debug)]
pub enum Event {
    Closed,
    MouseWheelScrolled { wheel: Wheel, delta: i32, x: i32, y: i32 },
    MouseButtonPressed { button: Button, x: i32, y: i32 },
    MouseButtonReleased { button: Button, x: i32, y: i32 },
    KeyPressed { code: Key, alt: bool, ctrl: bool, shift: bool, system: bool },
    Other,
}

impl Event {
    /// The task an event stands for. Modifier keys are not looked at, and an
    /// event without a meaning is no operation.
    pub open spec fn task(self) -> GameTasks {
        match self {
            Event::Closed => GameTasks::Close,
            Event::MouseWheelScrolled { wheel, delta, x, y } => GameTasks::MouseWheelScrolled(
                wheel,
                delta,
                x,
                y,
            ),
            Event::MouseButtonPressed { button, x, y } => GameTasks::ClickPressed(button, x, y),
            Event::MouseButtonReleased { button, x, y } => GameTasks::ClickReleased(button, x, y),
            Event::KeyPressed { code, .. } => GameTasks::Typed(code),
            Event::Other => GameTasks::NOP,
        }
    }
}

/// Turns the events of the window into tasks for the game.
pub struct Input {}

impl Input {
    /// The task that `event` stands for. Every event has one, so the result
    /// is never `None`.
    pub fn parse_input(&self, event: Event) -> (task: Option<GameTasks>)
        ensures
            task == Some(event.task()),
    {
        match event {
            Event::Closed => Some(GameTasks::Close),
            Event::MouseWheelScrolled { wheel, delta, x, y } => Some(
                GameTasks::MouseWheelScrolled(wheel, delta, x, y),
            ),
            Event::MouseButtonPressed { button, x, y } => Some(
                GameTasks::ClickPressed(button, x, y),
            ),
            Event::MouseButtonReleased { button, x, y } => Some(
                GameTasks::ClickReleased(button, x, y),
            ),
            Event::KeyPressed { code, alt: _, ctrl: _, shift: _, system: _ } => Some(
                GameTasks::Typed(code),
            ),
            Event::Other => Some(GameTasks::NOP),
        }
    }
}

pub fn new() -> (input: Input)
    ensures
        input == (Input {  }),
{
    Input {  }
}

} // verus!
