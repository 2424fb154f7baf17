//! Messages shown at the bottom of the screen.

use vstd::prelude::*;

verus! {

/// A message displayed in a box at the bottom of the screen.
pub struct BottomMessage {
    pub text: String,
}

impl BottomMessage {
    pub fn new(text: String) -> (r: Self)
        ensures
            r.text@ == text@,
    {
        Self { text }
    }

    pub fn get_text(&self) -> (r: &str)
        ensures
            r@ == self.text@,
    {
        self.text.as_str()
    }
}

} // verus!
