//! The game abstraction: reacts to input events and produces a viewport
//! buffer for the renderer each frame.

pub mod endless;

use vstd::prelude::*;
use crate::console::InputType;
use crate::tile::Tile;
use crate::ui::Ui;

verus! {

/// A frame-driven game: it is created with the display's dimensions,
/// reacts to one input event at a time, and produces the tile buffer the
/// renderer paints.
pub trait Game: Sized {
    /// What holds of every game once constructed, and is kept by every
    /// reaction and frame.
    spec fn inv(&self) -> bool;

    fn new(buf_width: usize, buf_height: usize) -> (r: Self)
        requires
            buf_width * buf_height <= usize::MAX,
        ensures
            r.inv(),
    ;

    fn react(&mut self, input: InputType) -> (r: Vec<Ui>)
        requires
            old(self).inv(),
            input matches InputType::Resize(w, h) ==> w as int * h as int <= usize::MAX,
        ensures
            final(self).inv(),
    ;

    fn gen_buffer(&mut self) -> (r: Option<&Vec<Tile>>)
        requires
            old(self).inv(),
        ensures
            final(self).inv(),
    ;
}

} // verus!
