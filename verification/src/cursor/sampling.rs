//! Values visited from coarse to fine: the midpoint of the range first, then
//! the midpoints of its halves, then of its quarters, and so on.

use vstd::prelude::*;
use vstd::arithmetic::power2::{pow2, lemma_pow2_pos, lemma_pow2_unfold, lemma_pow2_adds,
    lemma_pow2_strictly_increases, lemma2_to64};
use vstd::bits::lemma_u32_shl_is_mul;
use crate::cursor::Cursor;

verus! {

/// The deepest level a sampling walk can have.
pub const MAX_DEPTH: u32 = 31;

/// The distance between neighbours at level `depth` of a walk of `max_depth` levels.
pub open spec fn sample_period(max_depth: nat, depth: nat) -> nat {
    pow2((max_depth - depth) as nat)
}

/// The `index`-th value of level `depth`: midpoints `period` apart, the first at half a period.
pub open spec fn sample_value(max_depth: nat, depth: nat, index: int) -> u32 {
    (sample_period(max_depth, depth) / 2 + index * sample_period(max_depth, depth)) as u32
}

/// Level `depth` of the walk: `2^depth` values in ascending order.
pub open spec fn sample_level(max_depth: nat, depth: nat) -> Seq<u32> {
    Seq::new(pow2(depth), |i: int| sample_value(max_depth, depth, i))
}

/// The levels `0..depth` of the walk, one after the other.
pub open spec fn sample_levels(max_depth: nat, depth: nat) -> Seq<u32>
    decreases depth,
{
    if depth == 0 {
        Seq::empty()
    } else {
        sample_levels(max_depth, (depth - 1) as nat) + sample_level(max_depth, (depth - 1) as nat)
    }
}

/// The levels `0..depth` hold `2^depth - 1` values.
pub proof fn lemma_sample_levels_len(max_depth: nat, depth: nat)
    ensures
        sample_levels(max_depth, depth).len() == pow2(depth) - 1,
    decreases depth,
{
    lemma2_to64();
    if depth > 0 {
        lemma_sample_levels_len(max_depth, (depth - 1) as nat);
        lemma_pow2_unfold(depth);
    }
}

/// The value `index` of level `depth` stands at `2^depth - 1 + index` in any
/// run of levels that reaches past `depth`.
pub proof fn lemma_sample_levels_index(max_depth: nat, upto: nat, depth: nat, index: int)
    requires
        depth < upto,
        0 <= index < pow2(depth),
    ensures
        pow2(depth) - 1 + index < sample_levels(max_depth, upto).len(),
        sample_levels(max_depth, upto)[pow2(depth) - 1 + index] == sample_value(
            max_depth,
            depth,
            index,
        ),
    decreases upto,
{
    let before = (upto - 1) as nat;
    lemma_sample_levels_len(max_depth, before);
    lemma_sample_levels_len(max_depth, upto);
    lemma_pow2_unfold(upto);
    if depth == before {
    } else {
        lemma_sample_levels_index(max_depth, before, depth, index);
    }
}

/// `2^shift` as a 32-bit number, for a shift below 32.
proof fn lemma_shift_is_pow2(shift: u32)
    requires
        shift < 32,
    ensures
        1u32 << shift == pow2(shift as nat),
        0 < pow2(shift as nat) <= 0x8000_0000,
{
    lemma2_to64();
    lemma_pow2_pos(shift as nat);
    if shift < 31 {
        lemma_pow2_strictly_increases(shift as nat, 31);
    }
    lemma_u32_shl_is_mul(1u32, shift);
}

/// The distance between neighbours at level `depth`.
pub fn period_from_depth(max_depth: u32, depth: u32) -> (period: u32)
    requires
        depth <= max_depth,
        max_depth - depth < 32,
    ensures
        period == sample_period(max_depth as nat, depth as nat),
{
    proof {
        lemma_shift_is_pow2((max_depth - depth) as u32);
    }
    1 << (max_depth - depth)
}

/// The number of values at level `depth`.
pub fn max_from_depth(depth: u32) -> (max: u32)
    requires
        depth < 32,
    ensures
        max == pow2(depth as nat),
{
    proof {
        lemma_shift_is_pow2(depth);
    }
    1 << depth
}

/// A cursor over the levels `0..max_depth` of a sampling walk.
pub struct U32SamplingCursor {
    pub depth: u32,
    pub index: u32,
    pub max_depth: u32,
    offset: u32,
    period: u32,
    max: u32,
}

/// What a level and an index have to meet in a walk of `max_depth` levels.
pub open spec fn sampling_parameters_valid(depth: u32, index: u32, max_depth: u32) -> bool {
    &&& max_depth <= MAX_DEPTH
    &&& depth < max_depth
    &&& index < pow2(depth as nat)
}

/// No value of a valid walk overflows, and levels follow each other without a gap.
proof fn lemma_sample_cell(depth: u32, index: u32, max_depth: u32)
    requires
        sampling_parameters_valid(depth, index, max_depth),
    ensures
        sample_period(max_depth as nat, depth as nat) / 2 + index * sample_period(
            max_depth as nat,
            depth as nat,
        ) < pow2(max_depth as nat) <= 0x8000_0000,
        index * sample_period(max_depth as nat, depth as nat) >= 0,
        pow2((depth + 1) as nat) == 2 * pow2(depth as nat),
        0 < pow2(depth as nat) <= 0x8000_0000,
        depth > 0 ==> pow2(depth as nat) == 2 * pow2((depth - 1) as nat),
        depth + 1 == max_depth ==> pow2(max_depth as nat) == 2 * pow2(depth as nat),
        depth + 1 < max_depth ==> 4 * pow2(depth as nat) <= pow2(max_depth as nat),
        2 * pow2(depth as nat) <= pow2(max_depth as nat),
{
    let period = sample_period(max_depth as nat, depth as nat) as int;
    let max = pow2(depth as nat) as int;
    let i = index as int;
    lemma2_to64();
    lemma_pow2_pos(depth as nat);
    lemma_pow2_pos((max_depth - depth) as nat);
    lemma_pow2_adds(depth as nat, (max_depth - depth) as nat);
    lemma_pow2_unfold((depth + 1) as nat);
    lemma_pow2_unfold((max_depth - depth) as nat);
    if depth > 0 {
        lemma_pow2_unfold(depth as nat);
    }
    if max_depth < 31 {
        lemma_pow2_strictly_increases(max_depth as nat, 31);
    }
    lemma_pow2_strictly_increases(depth as nat, max_depth as nat);
    if depth + 1 < max_depth {
        lemma_pow2_strictly_increases((depth + 1) as nat, max_depth as nat);
        lemma_pow2_unfold(max_depth as nat);
        if depth + 2 < max_depth {
            lemma_pow2_strictly_increases((depth + 1) as nat, (max_depth - 1) as nat);
        }
    }
    assert(0 <= i * period && i * period + period <= max * period) by (nonlinear_arith)
        requires
            0 <= i < max,
            0 < period,
    ;
}

impl U32SamplingCursor {
    /// A cursor that stands at value `index` of level `depth`.
    pub fn new(depth: u32, index: u32, max_depth: u32) -> (cursor: Self)
        requires
            sampling_parameters_valid(depth, index, max_depth),
        ensures
            cursor.wf(),
            cursor.items() == sample_levels(max_depth as nat, max_depth as nat),
            cursor.position() == pow2(depth as nat) - 1 + index,
    {
        let mut ret = Self { depth, index, max_depth, offset: 0, period: 0, max: 0 };
        ret.refresh_meta();
        ret
    }

    /// Recomputes what is derived from the level: the period, the first value and the count.
    fn refresh_meta(&mut self)
        requires
            old(self).depth < old(self).max_depth <= MAX_DEPTH,
        ensures
            final(self).depth == old(self).depth,
            final(self).index == old(self).index,
            final(self).max_depth == old(self).max_depth,
            final(self).derived_fields_valid(),
    {
        self.period = period_from_depth(self.max_depth, self.depth);
        self.offset = self.period / 2;
        self.max = max_from_depth(self.depth);
    }

    /// The cached fields are what the level says.
    pub closed spec fn derived_fields_valid(&self) -> bool {
        &&& self.period == sample_period(self.max_depth as nat, self.depth as nat)
        &&& self.offset == self.period / 2
        &&& self.max == pow2(self.depth as nat)
    }
}

impl Cursor for U32SamplingCursor {
    type Item = u32;

    closed spec fn items(&self) -> Seq<u32> {
        sample_levels(self.max_depth as nat, self.max_depth as nat)
    }

    closed spec fn position(&self) -> int {
        pow2(self.depth as nat) - 1 + self.index
    }

    closed spec fn wf(&self) -> bool {
        &&& sampling_parameters_valid(self.depth, self.index, self.max_depth)
        &&& self.derived_fields_valid()
    }

    proof fn lemma_position_in_range(&self) {
        lemma_sample_cell(self.depth, self.index, self.max_depth);
        lemma_sample_levels_len(self.max_depth as nat, self.max_depth as nat);
        lemma_sample_levels_index(
            self.max_depth as nat,
            self.max_depth as nat,
            self.depth as nat,
            self.index as int,
        );
    }

    fn value(&mut self) -> (v: u32) {
        proof {
            lemma_sample_cell(self.depth, self.index, self.max_depth);
            lemma_sample_levels_index(
                self.max_depth as nat,
                self.max_depth as nat,
                self.depth as nat,
                self.index as int,
            );
        }
        self.offset + self.index * self.period
    }

    fn move_next(&mut self) -> (r: Result<(), ()>) {
        proof {
            lemma_sample_cell(self.depth, self.index, self.max_depth);
            lemma_sample_levels_len(self.max_depth as nat, self.max_depth as nat);
        }
        if self.index >= self.max - 1 {
            if self.depth >= self.max_depth - 1 {
                return Err(());
            }
            self.depth += 1;
            self.refresh_meta();
            self.index = 0;
            proof {
                lemma_pow2_pos(self.depth as nat);
            }
        } else {
            self.index += 1;
        }
        Ok(())
    }

    fn move_prev(&mut self) -> (r: Result<(), ()>) {
        proof {
            lemma_sample_cell(self.depth, self.index, self.max_depth);
            lemma_sample_levels_len(self.max_depth as nat, self.max_depth as nat);
        }
        if self.index == 0 {
            if self.depth == 0 {
                proof {
                    lemma2_to64();
                }
                return Err(());
            }
            self.depth -= 1;
            self.refresh_meta();
            self.index = self.max - 1;
            proof {
                lemma_pow2_pos(self.depth as nat);
            }
        } else {
            self.index -= 1;
        }
        Ok(())
    }
}

} // verus!
