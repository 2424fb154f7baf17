//! Input events and the console abstraction the game is rendered through.

pub mod messages;

use vstd::prelude::*;
use crate::game::Game;

verus! {

/// Indicates the direction of an arrow key.
#[derive(Clone, Copy, PartialEq, Eq, Structural, Debug)]
pub enum ArrowType {
    Left,
    Right,
    Up,
    Down,
}

/// Indicates the type of a key.
#[derive(Clone, Copy, PartialEq, Eq, Structural, Debug)]
pub enum KeyType {
    Backspace,
    Enter,
    Home,
    End,
}

/// Indicates the type of an input.
#[derive(Clone, Copy, PartialEq, Eq, Structural, Debug)]
pub enum InputType {
    FirstFrame,
    Char(char),
    Arrow(ArrowType),
    Func(u8),
    Key(KeyType),
    Resize(u32, u32),
}

/// A game console: captures input and paints the game's buffer. Concrete
/// consoles live outside the library, at the process edge.
pub trait Console: Sized {
    /// Returns a new Console.
    fn new() -> Self;

    /// Enters a rendering loop, consuming a Game.
    fn render<G>(&mut self, game: G) where G: Game;

    /// Gets width of the console, in tiles.
    fn get_width(&self) -> usize;

    /// Gets height of the console, in tiles.
    fn get_height(&self) -> usize;
}

} // verus!
