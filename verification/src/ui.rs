//! Output events handed from the game to the rendering layer.

use vstd::prelude::*;

verus! {

/// How a message is displayed.
#[derive(Clone, Copy, PartialEq, Eq, Structural, Debug)]
pub enum MessageType {
    Static,
}

/// Where on the screen a message is displayed.
#[derive(Clone, Copy, PartialEq, Eq, Structural, Debug)]
pub enum MessagePosition {
    Bottom,
}

/// One output event: a message with its display type, position and text.
#[derive(PartialEq, Eq, Debug)]
pub enum Ui {
    Message(MessageType, MessagePosition, String),
}

} // verus!
