//! A cursor that shows only the items of another cursor that a predicate accepts.

use vstd::prelude::*;
use crate::cursor::Cursor;

verus! {

/// A test on items that a `FilterCursor` keeps or passes over.
pub trait Predicate<T> {
    /// Whether `x` is kept.
    spec fn accepts(&self, x: T) -> bool;

    /// Computes whether `x` is kept.
    fn test(&self, x: &T) -> (kept: bool)
        ensures
            kept == self.accepts(*x),
    ;
}

/// The predicate as a function on items.
pub open spec fn acceptance<T, P: Predicate<T>>(predicate: P) -> spec_fn(T) -> bool {
    |x: T| predicate.accepts(x)
}

/// The number of accepted items among the first `n` of `s`.
pub open spec fn accepted_before<T>(s: Seq<T>, f: spec_fn(T) -> bool, n: int) -> nat {
    s.take(n).filter(f).len()
}

/// One more item in the prefix adds itself to the kept items if it is accepted.
pub proof fn lemma_filter_take_step<T>(s: Seq<T>, f: spec_fn(T) -> bool, n: int)
    requires
        0 <= n < s.len(),
    ensures
        s.take(n + 1).filter(f) == if f(s[n]) {
            s.take(n).filter(f).push(s[n])
        } else {
            s.take(n).filter(f)
        },
{
    assert(s.take(n + 1) =~= s.take(n).push(s[n]));
    s.take(n).lemma_filter_push(s[n], f);
}

/// A stretch of rejected items adds nothing to the kept items.
pub proof fn lemma_filter_rejected_range<T>(s: Seq<T>, f: spec_fn(T) -> bool, a: int, b: int)
    requires
        0 <= a <= b <= s.len(),
        forall|j: int| a <= j < b ==> !f(#[trigger] s[j]),
    ensures
        s.take(b).filter(f) == s.take(a).filter(f),
    decreases b - a,
{
    if a < b {
        lemma_filter_rejected_range(s, f, a, b - 1);
        lemma_filter_take_step(s, f, b - 1);
    }
}

/// The kept items of a prefix open the kept items of every longer prefix.
pub proof fn lemma_filter_take_prefix<T>(s: Seq<T>, f: spec_fn(T) -> bool, n: int, m: int)
    requires
        0 <= n <= m <= s.len(),
    ensures
        s.take(n).filter(f).len() <= s.take(m).filter(f).len(),
        forall|i: int|
            0 <= i < s.take(n).filter(f).len() ==> #[trigger] s.take(m).filter(f)[i] == s.take(
                n,
            ).filter(f)[i],
    decreases m - n,
{
    if n < m {
        lemma_filter_take_prefix(s, f, n, m - 1);
        lemma_filter_take_step(s, f, m - 1);
    }
}

/// An accepted item at index `p` is the kept item whose index is the number of
/// accepted items before `p`.
pub proof fn lemma_filter_index<T>(s: Seq<T>, f: spec_fn(T) -> bool, p: int)
    requires
        0 <= p < s.len(),
        f(s[p]),
    ensures
        accepted_before(s, f, p) < s.filter(f).len(),
        s.filter(f)[accepted_before(s, f, p) as int] == s[p],
        accepted_before(s, f, p + 1) == accepted_before(s, f, p) + 1,
{
    lemma_filter_take_step(s, f, p);
    lemma_filter_take_prefix(s, f, p + 1, s.len() as int);
    assert(s.take(s.len() as int) =~= s);
}

/// A cursor over the items of `cursor` that `predicate` accepts.
pub struct FilterCursor<C: Cursor, P> {
    cursor: C,
    predicate: P,
}

impl<C: Cursor, P: Predicate<C::Item>> FilterCursor<C, P> {
    /// Moves `cursor` forward to the nearest accepted item after the current
    /// one. Where there is none, leaves it in place and returns `false`.
    fn seek_next(cursor: &mut C, predicate: &P) -> (found: bool)
        requires
            old(cursor).wf(),
        ensures
            final(cursor).wf(),
            final(cursor).items() == old(cursor).items(),
            found ==> old(cursor).position() < final(cursor).position() && predicate.accepts(
                old(cursor).items()[final(cursor).position()],
            ),
            !found ==> final(cursor).position() == old(cursor).position(),
            forall|j: int|
                old(cursor).position() < j < (if found {
                    final(cursor).position()
                } else {
                    old(cursor).items().len() as int
                }) ==> !predicate.accepts(#[trigger] old(cursor).items()[j]),
    {
        let mut moves: u64 = 0;
        loop
            invariant
                cursor.wf(),
                old(cursor).wf(),
                cursor.items() == old(cursor).items(),
                cursor.position() == old(cursor).position() + moves,
                forall|j: int|
                    old(cursor).position() < j <= cursor.position() ==> !predicate.accepts(
                        #[trigger] old(cursor).items()[j],
                    ),
            ensures
                cursor.position() + 1 >= old(cursor).items().len(),
            decreases old(cursor).items().len() - cursor.position(),
        {
            proof {
                cursor.lemma_position_in_range();
                old(cursor).lemma_position_in_range();
            }
            if cursor.move_next().is_err() {
                break;
            }
            moves += 1;
            let value = cursor.value();
            if predicate.test(&value) {
                return true;
            }
        }
        while moves > 0
            invariant
                cursor.wf(),
                old(cursor).wf(),
                cursor.items() == old(cursor).items(),
                cursor.position() == old(cursor).position() + moves,
            decreases moves,
        {
            proof {
                old(cursor).lemma_position_in_range();
            }
            let _ = cursor.move_prev();
            moves -= 1;
        }
        false
    }

    /// Moves `cursor` back to the nearest accepted item before the current
    /// one. Where there is none, leaves it in place and returns `false`.
    fn seek_prev(cursor: &mut C, predicate: &P) -> (found: bool)
        requires
            old(cursor).wf(),
        ensures
            final(cursor).wf(),
            final(cursor).items() == old(cursor).items(),
            found ==> 0 <= final(cursor).position() < old(cursor).position() && predicate.accepts(
                old(cursor).items()[final(cursor).position()],
            ),
            !found ==> final(cursor).position() == old(cursor).position(),
            forall|j: int|
                (if found {
                    final(cursor).position()
                } else {
                    -1
                }) < j < old(cursor).position() ==> !predicate.accepts(
                    #[trigger] old(cursor).items()[j],
                ),
    {
        let mut moves: u64 = 0;
        loop
            invariant
                cursor.wf(),
                cursor.items() == old(cursor).items(),
                old(cursor).wf(),
                cursor.position() == old(cursor).position() - moves,
                forall|j: int|
                    cursor.position() <= j < old(cursor).position() ==> !predicate.accepts(
                        #[trigger] old(cursor).items()[j],
                    ),
            ensures
                cursor.position() == 0,
            decreases cursor.position(),
        {
            proof {
                cursor.lemma_position_in_range();
                old(cursor).lemma_position_in_range();
            }
            if cursor.move_prev().is_err() {
                break;
            }
            moves += 1;
            let value = cursor.value();
            if predicate.test(&value) {
                return true;
            }
        }
        while moves > 0
            invariant
                cursor.wf(),
                cursor.items() == old(cursor).items(),
                old(cursor).wf(),
                cursor.position() == old(cursor).position() - moves,
            decreases moves,
        {
            proof {
                old(cursor).lemma_position_in_range();
            }
            let _ = cursor.move_next();
            moves -= 1;
        }
        false
    }

    /// A filtered cursor that stands at the first accepted item at or after
    /// the one under `cursor`. Fails if no accepted item is left.
    pub fn new(cursor: C, predicate: P) -> (r: Result<Self, ()>)
        requires
            cursor.wf(),
        ensures
            r.is_ok() <==> exists|j: int|
                cursor.position() <= j < cursor.items().len() && predicate.accepts(
                    #[trigger] cursor.items()[j],
                ),
            r matches Ok(filtered) ==> {
                &&& filtered.wf()
                &&& filtered.items() == cursor.items().filter(acceptance(predicate))
                &&& filtered.position() == accepted_before(
                    cursor.items(),
                    acceptance(predicate),
                    cursor.position(),
                )
            },
    {
        let mut inner = cursor;
        proof {
            cursor.lemma_position_in_range();
        }
        let value = inner.value();
        if predicate.test(&value) {
            return Ok(Self { cursor: inner, predicate });
        }
        if Self::seek_next(&mut inner, &predicate) {
            proof {
                inner.lemma_position_in_range();
                lemma_filter_rejected_range(
                    cursor.items(),
                    acceptance(predicate),
                    cursor.position(),
                    inner.position(),
                );
            }
            Ok(Self { cursor: inner, predicate })
        } else {
            Err(())
        }
    }

    /// A filtered cursor that stands where `cursor` stands, on an accepted item.
    pub fn at(cursor: C, predicate: P) -> (filtered: Self)
        requires
            cursor.wf(),
            predicate.accepts(cursor.items()[cursor.position()]),
        ensures
            filtered.wf(),
            filtered.items() == cursor.items().filter(acceptance(predicate)),
            filtered.position() == accepted_before(
                cursor.items(),
                acceptance(predicate),
                cursor.position(),
            ),
    {
        Self { cursor, predicate }
    }
}

impl<C: Cursor, P: Predicate<C::Item>> Cursor for FilterCursor<C, P> {
    type Item = C::Item;

    closed spec fn items(&self) -> Seq<C::Item> {
        self.cursor.items().filter(acceptance(self.predicate))
    }

    closed spec fn position(&self) -> int {
        accepted_before(
            self.cursor.items(),
            acceptance(self.predicate),
            self.cursor.position(),
        ) as int
    }

    closed spec fn wf(&self) -> bool {
        &&& self.cursor.wf()
        &&& self.predicate.accepts(self.cursor.items()[self.cursor.position()])
    }

    proof fn lemma_position_in_range(&self) {
        self.cursor.lemma_position_in_range();
        lemma_filter_index(
            self.cursor.items(),
            acceptance(self.predicate),
            self.cursor.position(),
        );
        self.cursor.items().lemma_filter_len(acceptance(self.predicate));
    }

    fn value(&mut self) -> (v: C::Item) {
        proof {
            self.cursor.lemma_position_in_range();
            lemma_filter_index(
                self.cursor.items(),
                acceptance(self.predicate),
                self.cursor.position(),
            );
        }
        self.cursor.value()
    }

    fn move_next(&mut self) -> (r: Result<(), ()>) {
        let ghost s = self.cursor.items();
        let ghost f = acceptance(self.predicate);
        let ghost p = self.cursor.position();
        proof {
            self.cursor.lemma_position_in_range();
            lemma_filter_index(s, f, p);
        }
        if Self::seek_next(&mut self.cursor, &self.predicate) {
            proof {
                self.cursor.lemma_position_in_range();
                lemma_filter_rejected_range(s, f, p + 1, self.cursor.position());
                lemma_filter_index(s, f, self.cursor.position());
            }
            Ok(())
        } else {
            proof {
                lemma_filter_rejected_range(s, f, p + 1, s.len() as int);
                assert(s.take(s.len() as int) =~= s);
            }
            Err(())
        }
    }

    fn move_prev(&mut self) -> (r: Result<(), ()>) {
        let ghost s = self.cursor.items();
        let ghost f = acceptance(self.predicate);
        let ghost p = self.cursor.position();
        proof {
            self.cursor.lemma_position_in_range();
        }
        if Self::seek_prev(&mut self.cursor, &self.predicate) {
            proof {
                lemma_filter_index(s, f, self.cursor.position());
                lemma_filter_rejected_range(s, f, self.cursor.position() + 1, p);
            }
            Ok(())
        } else {
            proof {
                lemma_filter_rejected_range(s, f, 0, p);
                assert(s.take(0).filter(f).len() == 0) by {
                    s.take(0).lemma_filter_len(f);
                }
            }
            Err(())
        }
    }
}

} // verus!
