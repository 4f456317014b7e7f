//! Reversible cursors: a position over an ordered sequence of values that can
//! step forward and back, and the adapters that restrict, skip and map them.

use vstd::prelude::*;
use crate::cursor::filter::{FilterCursor, Predicate, acceptance, accepted_before};

pub mod filter;
pub mod periodic;
pub mod sampling;
pub mod sequential;

verus! {

/// A position over an ordered, non-empty sequence of values.
///
/// The model of a cursor is the pair of `items`, the whole sequence, and
/// `position`, the index it stands at. Moves change the position by one and
/// never the sequence; a move that would leave the sequence fails and leaves
/// the cursor where it was.
pub trait Cursor: Sized {
    type Item;

    /// The sequence the cursor ranges over.
    spec fn items(&self) -> Seq<Self::Item>;

    /// The index in `items` at which the cursor stands.
    spec fn position(&self) -> int;

    /// The invariant of the cursor's representation.
    spec fn wf(&self) -> bool;

    /// A valid cursor stands on an item, and its sequence can be counted in 64 bits.
    proof fn lemma_position_in_range(&self)
        requires
            self.wf(),
        ensures
            0 <= self.position() < self.items().len(),
            self.items().len() <= u64::MAX,
    ;

    /// The item under the cursor.
    fn value(&mut self) -> (v: Self::Item)
        requires
            old(self).wf(),
        ensures
            final(self).wf(),
            final(self).items() == old(self).items(),
            final(self).position() == old(self).position(),
            v == old(self).items()[old(self).position()],
    ;

    /// Steps to the following item; fails at the last one.
    fn move_next(&mut self) -> (r: Result<(), ()>)
        requires
            old(self).wf(),
        ensures
            final(self).wf(),
            final(self).items() == old(self).items(),
            r.is_ok() <==> old(self).position() + 1 < old(self).items().len(),
            r.is_ok() ==> final(self).position() == old(self).position() + 1,
            r.is_err() ==> final(self).position() == old(self).position(),
    ;

    /// Steps to the preceding item; fails at the first one.
    fn move_prev(&mut self) -> (r: Result<(), ()>)
        requires
            old(self).wf(),
        ensures
            final(self).wf(),
            final(self).items() == old(self).items(),
            r.is_ok() <==> old(self).position() > 0,
            r.is_ok() ==> final(self).position() == old(self).position() - 1,
            r.is_err() ==> final(self).position() == old(self).position(),
    ;
}

/// A function on `A` that a `MapCursor` applies to each item.
pub trait Mapping<A> {
    type Output;

    /// The image of `x`.
    spec fn image(&self, x: A) -> Self::Output;

    /// Computes the image of `x`.
    fn apply(&self, x: A) -> (y: Self::Output)
        ensures
            y == self.image(x),
    ;
}

/// A cursor over the images of another cursor's items.
pub struct MapCursor<C: Cursor, F> {
    cursor: C,
    f: F,
}

impl<C: Cursor, F: Mapping<C::Item>> Cursor for MapCursor<C, F> {
    type Item = F::Output;

    closed spec fn items(&self) -> Seq<F::Output> {
        self.cursor.items().map_values(|x: C::Item| self.f.image(x))
    }

    closed spec fn position(&self) -> int {
        self.cursor.position()
    }

    closed spec fn wf(&self) -> bool {
        self.cursor.wf()
    }

    proof fn lemma_position_in_range(&self) {
        self.cursor.lemma_position_in_range();
    }

    fn value(&mut self) -> (v: F::Output) {
        proof {
            self.cursor.lemma_position_in_range();
        }
        let value = self.cursor.value();
        self.f.apply(value)
    }

    fn move_next(&mut self) -> (r: Result<(), ()>) {
        self.cursor.move_next()
    }

    fn move_prev(&mut self) -> (r: Result<(), ()>) {
        self.cursor.move_prev()
    }
}

/// A cursor that cannot move back past the item it was created at.
pub struct SkipCursor<C: Cursor> {
    cursor: C,
    consumed_items: u64,
}

impl<C: Cursor> SkipCursor<C> {
    /// Moves `cursor` forward by `n` items and makes the item reached the
    /// first of the new cursor. Fails if fewer than `n` items follow.
    pub fn new(cursor: C, n: usize) -> (r: Result<Self, ()>)
        requires
            cursor.wf(),
        ensures
            r.is_ok() <==> cursor.position() + n < cursor.items().len(),
            r matches Ok(skip) ==> {
                &&& skip.wf()
                &&& skip.items() == cursor.items().skip(cursor.position() + n)
                &&& skip.position() == 0
            },
    {
        let mut inner = cursor;
        let mut i: usize = 0;
        while i < n
            invariant
                i <= n,
                inner.wf(),
                inner.items() == cursor.items(),
                inner.position() == cursor.position() + i,
            decreases n - i,
        {
            if inner.move_next().is_err() {
                return Err(());
            }
            i += 1;
        }
        proof {
            inner.lemma_position_in_range();
        }
        Ok(Self { cursor: inner, consumed_items: 0 })
    }

    /// The index in the inner cursor's sequence of this cursor's first item.
    pub closed spec fn start(&self) -> int {
        self.cursor.position() - self.consumed_items
    }
}

impl<C: Cursor> Cursor for SkipCursor<C> {
    type Item = C::Item;

    closed spec fn items(&self) -> Seq<C::Item> {
        self.cursor.items().skip(self.start())
    }

    closed spec fn position(&self) -> int {
        self.consumed_items as int
    }

    closed spec fn wf(&self) -> bool {
        &&& self.cursor.wf()
        &&& self.consumed_items <= self.cursor.position()
    }

    proof fn lemma_position_in_range(&self) {
        self.cursor.lemma_position_in_range();
    }

    fn value(&mut self) -> (v: C::Item) {
        proof {
            self.cursor.lemma_position_in_range();
        }
        self.cursor.value()
    }

    fn move_next(&mut self) -> (r: Result<(), ()>) {
        proof {
            self.cursor.lemma_position_in_range();
        }
        if self.cursor.move_next().is_err() {
            return Err(());
        }
        self.consumed_items += 1;
        Ok(())
    }

    fn move_prev(&mut self) -> (r: Result<(), ()>) {
        if self.consumed_items == 0 {
            return Err(());
        }
        if self.cursor.move_prev().is_err() {
            return Err(());
        }
        self.consumed_items -= 1;
        Ok(())
    }
}

/// A cursor that can make only a bounded number of moves past the item it
/// was created at.
pub struct TakeCursor<C: Cursor> {
    cursor: C,
    remaining: u64,
}

impl<C: Cursor> TakeCursor<C> {
    /// The index in the inner cursor's sequence just past this cursor's last item.
    pub closed spec fn end(&self) -> int {
        let reach = self.cursor.position() + self.remaining + 1;
        if reach < self.cursor.items().len() {
            reach
        } else {
            self.cursor.items().len() as int
        }
    }
}

impl<C: Cursor> Cursor for TakeCursor<C> {
    type Item = C::Item;

    closed spec fn items(&self) -> Seq<C::Item> {
        self.cursor.items().take(self.end())
    }

    closed spec fn position(&self) -> int {
        self.cursor.position()
    }

    closed spec fn wf(&self) -> bool {
        &&& self.cursor.wf()
        &&& self.cursor.position() + self.remaining <= u64::MAX
    }

    proof fn lemma_position_in_range(&self) {
        self.cursor.lemma_position_in_range();
    }

    fn value(&mut self) -> (v: C::Item) {
        proof {
            self.cursor.lemma_position_in_range();
        }
        self.cursor.value()
    }

    fn move_next(&mut self) -> (r: Result<(), ()>) {
        proof {
            self.cursor.lemma_position_in_range();
        }
        if self.remaining == 0 {
            return Err(());
        }
        if self.cursor.move_next().is_err() {
            return Err(());
        }
        self.remaining -= 1;
        Ok(())
    }

    fn move_prev(&mut self) -> (r: Result<(), ()>) {
        proof {
            self.cursor.lemma_position_in_range();
        }
        if self.cursor.move_prev().is_err() {
            return Err(());
        }
        self.remaining += 1;
        Ok(())
    }
}

/// Walks a cursor forward, one item for each call of `next`.
pub struct CursorIterator<C: Cursor> {
    cursor: C,
    done: bool,
}

impl<C: Cursor> CursorIterator<C> {
    /// An iterator that starts with the item under `cursor`.
    pub fn new(cursor: C) -> (iter: Self)
        requires
            cursor.wf(),
        ensures
            iter.wf(),
            iter.pending() == cursor.items().skip(cursor.position()),
    {
        Self { cursor, done: false }
    }

    /// The invariant of the iterator's representation.
    pub closed spec fn wf(&self) -> bool {
        self.cursor.wf()
    }

    /// The items that the coming calls of `next` return, in order.
    pub closed spec fn pending(&self) -> Seq<C::Item> {
        if self.done {
            Seq::empty()
        } else {
            self.cursor.items().skip(self.cursor.position())
        }
    }

    /// The first pending item, or `None` once every item was returned.
    pub fn next(&mut self) -> (item: Option<C::Item>)
        requires
            old(self).wf(),
        ensures
            final(self).wf(),
            old(self).pending().len() == 0 ==> item.is_none() && final(self).pending().len() == 0,
            old(self).pending().len() > 0 ==> item == Some(old(self).pending()[0])
                && final(self).pending() == old(self).pending().skip(1),
    {
        proof {
            self.cursor.lemma_position_in_range();
        }
        if self.done {
            None
        } else {
            let res = Some(self.cursor.value());
            if self.cursor.move_next().is_err() {
                self.done = true;
            }
            assert(self.pending() =~= old(self).pending().skip(1));
            res
        }
    }
}

/// The adapters, as methods of every cursor.
pub trait CursorExt: Cursor {
    /// An iterator from the current item to the last.
    fn to_iter(self) -> (iter: CursorIterator<Self>)
        requires
            self.wf(),
        ensures
            iter.wf(),
            iter.pending() == self.items().skip(self.position()),
    {
        CursorIterator::new(self)
    }

    /// A cursor over the items that `predicate` accepts. The current item
    /// has to be one of them.
    fn filter<P: Predicate<Self::Item>>(self, predicate: P) -> (filtered: FilterCursor<Self, P>)
        requires
            self.wf(),
            predicate.accepts(self.items()[self.position()]),
        ensures
            filtered.wf(),
            filtered.items() == self.items().filter(acceptance(predicate)),
            filtered.position() == accepted_before(
                self.items(),
                acceptance(predicate),
                self.position(),
            ),
    {
        FilterCursor::at(self, predicate)
    }

    /// A cursor over the images of this cursor's items under `f`.
    fn map<F: Mapping<Self::Item>>(self, f: F) -> (mapped: MapCursor<Self, F>)
        requires
            self.wf(),
        ensures
            mapped.wf(),
            mapped.items() == self.items().map_values(|x: Self::Item| f.image(x)),
            mapped.position() == self.position(),
    {
        MapCursor { cursor: self, f }
    }

    /// This cursor moved forward by `n` items, unable to move back past the
    /// item reached. Fails if fewer than `n` items follow.
    fn skip(self, n: usize) -> (r: Result<SkipCursor<Self>, ()>)
        requires
            self.wf(),
        ensures
            r.is_ok() <==> self.position() + n < self.items().len(),
            r matches Ok(skip) ==> {
                &&& skip.wf()
                &&& skip.items() == self.items().skip(self.position() + n)
                &&& skip.position() == 0
            },
    {
        SkipCursor::new(self, n)
    }

    /// This cursor, able to move at most `n` items past the current one.
    fn take(self, n: usize) -> (taken: TakeCursor<Self>)
        requires
            self.wf(),
            self.position() + n <= u64::MAX,
        ensures
            taken.wf(),
            taken.position() == self.position(),
            taken.items() == self.items().take(
                if self.position() + n + 1 < self.items().len() {
                    self.position() + n + 1
                } else {
                    self.items().len() as int
                },
            ),
    {
        TakeCursor { cursor: self, remaining: n as u64 }
    }
}

impl<T: Cursor> CursorExt for T {

}

} // verus!
