//! Every 32-bit value in ascending order.

use vstd::prelude::*;
use crate::cursor::Cursor;

verus! {

/// A cursor over `0, 1, 2, ..., 0xFFFF_FFFF`.
pub struct U32Cursor {
    index: u32,
}

impl U32Cursor {
    /// A cursor that stands at `0`.
    pub fn new() -> (cursor: Self)
        ensures
            cursor.wf(),
            cursor.position() == 0,
    {
        Self { index: 0 }
    }
}

impl Cursor for U32Cursor {
    type Item = u32;

    open spec fn items(&self) -> Seq<u32> {
        Seq::new(0x1_0000_0000, |i: int| i as u32)
    }

    closed spec fn position(&self) -> int {
        self.index as int
    }

    open spec fn wf(&self) -> bool {
        true
    }

    proof fn lemma_position_in_range(&self) {
    }

    fn value(&mut self) -> (v: u32) {
        self.index
    }

    fn move_next(&mut self) -> (r: Result<(), ()>) {
        if self.index == 0xFF_FF_FF_FF {
            return Err(());
        }
        self.index += 1;
        Ok(())
    }

    fn move_prev(&mut self) -> (r: Result<(), ()>) {
        if self.index == 0 {
            return Err(());
        }
        self.index -= 1;
        Ok(())
    }
}

} // verus!
