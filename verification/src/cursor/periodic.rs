//! Values visited column by column: every `period`-th value from an offset,
//! then the same from the next offset.

use vstd::prelude::*;
use vstd::arithmetic::div_mod::lemma_fundamental_div_mod_converse;
use crate::cursor::Cursor;

verus! {

/// The `k`-th value of the walk with `nb_period` steps of `period` per offset.
pub open spec fn periodic_value(period: int, nb_period: int, k: int) -> u32 {
    (k / nb_period + (k % nb_period) * period) as u32
}

/// The walk with `nb_period` steps of `period` per offset, over offsets `0..period`.
pub open spec fn periodic_items(period: u32, nb_period: u32) -> Seq<u32> {
    Seq::new(
        (period * nb_period) as nat,
        |k: int| periodic_value(period as int, nb_period as int, k),
    )
}

/// What the fields of a periodic walk have to meet: an index and an offset in
/// range, and values that fit in 32 bits.
pub open spec fn periodic_parameters_valid(
    index: u32,
    period: u32,
    nb_period: u32,
    offset: u32,
) -> bool {
    &&& index < nb_period
    &&& offset < period
    &&& period * nb_period <= 0x1_0000_0000
}

/// Where the pair of an offset and an index lies in the walk, and what is found there.
proof fn lemma_cell(index: u32, period: u32, nb_period: u32, offset: u32)
    requires
        periodic_parameters_valid(index, period, nb_period, offset),
    ensures
        0 <= offset * nb_period + index < period * nb_period,
        index * period + offset <= u32::MAX,
        index * period >= 0,
        periodic_value(period as int, nb_period as int, offset * nb_period + index) == offset
            + index * period,
        offset + 1 < period ==> (offset + 1) * nb_period == offset * nb_period + nb_period,
        offset > 0 ==> (offset - 1) * nb_period == offset * nb_period - nb_period,
        offset + 1 < period ==> offset * nb_period + 2 * nb_period <= period * nb_period,
        offset + 1 == period ==> offset * nb_period + nb_period == period * nb_period,
{
    let p = period as int;
    let n = nb_period as int;
    let o = offset as int;
    let i = index as int;
    assert(o * n + n <= p * n) by (nonlinear_arith)
        requires
            0 <= o < p,
            0 < n,
    ;
    assert(0 <= o * n) by (nonlinear_arith)
        requires
            0 <= o,
            0 < n,
    ;
    assert(0 <= i * p && i * p + p <= p * n) by (nonlinear_arith)
        requires
            0 <= i < n,
            0 < p,
    ;
    assert((o + 1) * n == o * n + n && (o - 1) * n == o * n - n) by (nonlinear_arith);
    assert(o + 1 < p ==> o * n + 2 * n <= p * n) by (nonlinear_arith)
        requires
            0 <= o,
            0 < n,
    ;
    assert(o + 1 == p ==> o * n + n == p * n) by (nonlinear_arith);
    lemma_fundamental_div_mod_converse(o * n + i, n, o, i);
}

/// A cursor over `periodic_items`.
pub struct PeriodicCursor {
    index: u32,
    period: u32,
    nb_period: u32,
    offset: u32,
}

impl PeriodicCursor {
    /// A cursor that stands at step `index` of offset `offset`.
    pub fn new(index: u32, period: u32, nb_period: u32, offset: u32) -> (cursor: Self)
        requires
            periodic_parameters_valid(index, period, nb_period, offset),
        ensures
            cursor.wf(),
            cursor.items() == periodic_items(period, nb_period),
            cursor.position() == offset * nb_period + index,
    {
        Self { index, period, nb_period, offset }
    }
}

impl Cursor for PeriodicCursor {
    type Item = u32;

    closed spec fn items(&self) -> Seq<u32> {
        periodic_items(self.period, self.nb_period)
    }

    closed spec fn position(&self) -> int {
        self.offset * self.nb_period + self.index
    }

    closed spec fn wf(&self) -> bool {
        periodic_parameters_valid(self.index, self.period, self.nb_period, self.offset)
    }

    proof fn lemma_position_in_range(&self) {
        lemma_cell(self.index, self.period, self.nb_period, self.offset);
    }

    fn value(&mut self) -> (v: u32) {
        proof {
            lemma_cell(self.index, self.period, self.nb_period, self.offset);
        }
        self.offset + self.index * self.period
    }

    fn move_next(&mut self) -> (r: Result<(), ()>) {
        proof {
            lemma_cell(self.index, self.period, self.nb_period, self.offset);
        }
        if self.index >= self.nb_period - 1 {
            if self.offset >= self.period - 1 {
                return Err(());
            }
            self.offset += 1;
            self.index = 0;
        } else {
            self.index += 1;
        }
        Ok(())
    }

    fn move_prev(&mut self) -> (r: Result<(), ()>) {
        proof {
            lemma_cell(self.index, self.period, self.nb_period, self.offset);
        }
        if self.index == 0 {
            if self.offset == 0 {
                return Err(());
            }
            self.offset -= 1;
            self.index = self.nb_period - 1;
        } else {
            self.index -= 1;
        }
        Ok(())
    }
}

} // verus!
