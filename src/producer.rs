use crate::sum::{lemma_sum_of_nonnegative, lemma_wrapping_step, sum_of, word_modulus, wrapped_sum};
use vstd::prelude::*;

verus! {

/// The numbers from `low` up to but not including `end`, in increasing
/// order; empty when `end <= low`.
pub open spec fn span(low: int, end: int) -> Seq<u64> {
    Seq::new(if low < end { (end - low) as nat } else { 0 }, |i: int| (low + i) as u64)
}

/// A source of `u64` values that yields them one at a time until it ends.
pub trait Producer: Sized {
    /// The values still to come, in the order they will be yielded.
    spec fn remaining(&self) -> Seq<u64>;

    /// Yields the next value, or `None` once every value has been yielded.
    fn next(&mut self) -> (r: Option<u64>)
        ensures
            match r {
                None => old(self).remaining().len() == 0 && final(self).remaining() == old(
                    self,
                ).remaining(),
                Some(x) => old(self).remaining().len() > 0 && x == old(self).remaining()[0]
                    && final(self).remaining() == old(self).remaining().drop_first(),
            },
    ;
}

/// The run `start, start + 1, ..., end - 1`.
pub struct ExclusiveRange {
    pub start: u64,
    pub end: u64,
}

impl ExclusiveRange {
    /// The value that `new(start, end)` returns.
    pub open spec fn spec_new(start: u64, end: u64) -> Self {
        ExclusiveRange { start, end }
    }

    /// The run from `start` up to but not including `end`.
    pub fn new(start: u64, end: u64) -> (r: Self)
        ensures
            r == Self::spec_new(start, end),
            r.remaining() == span(start as int, end as int),
    {
        ExclusiveRange { start, end }
    }
}

impl Producer for ExclusiveRange {
    open spec fn remaining(&self) -> Seq<u64> {
        span(self.start as int, self.end as int)
    }

    fn next(&mut self) -> (r: Option<u64>) {
        if self.start < self.end {
            let x = self.start;
            self.start = self.start + 1;
            assert(self.remaining() =~= old(self).remaining().drop_first());
            Some(x)
        } else {
            None
        }
    }
}

/// The run `start, start + 1, ..., end`, including `end`.
///
/// Once `end` itself has been yielded, `exhausted` is set instead of moving
/// `start` past `end`, so that `end` may be `u64::MAX`.
pub struct InclusiveRange {
    pub start: u64,
    pub end: u64,
    pub exhausted: bool,
}

impl InclusiveRange {
    /// The value that `new(start, end)` returns.
    pub open spec fn spec_new(start: u64, end: u64) -> Self {
        InclusiveRange { start, end, exhausted: false }
    }

    /// The run from `start` up to and including `end`.
    pub fn new(start: u64, end: u64) -> (r: Self)
        ensures
            r == Self::spec_new(start, end),
            r.remaining() == span(start as int, end as int + 1),
    {
        InclusiveRange { start, end, exhausted: false }
    }
}

impl Producer for InclusiveRange {
    open spec fn remaining(&self) -> Seq<u64> {
        if self.exhausted {
            Seq::empty()
        } else {
            span(self.start as int, self.end as int + 1)
        }
    }

    fn next(&mut self) -> (r: Option<u64>) {
        if self.exhausted || self.start > self.end {
            assert(self.remaining() =~= Seq::empty());
            None
        } else if self.start < self.end {
            let x = self.start;
            self.start = self.start + 1;
            assert(self.remaining() =~= old(self).remaining().drop_first());
            Some(x)
        } else {
            self.exhausted = true;
            assert(self.remaining() =~= old(self).remaining().drop_first());
            Some(self.start)
        }
    }
}

/// A run with an inclusive end whose form is chosen once, when it is built:
/// the exclusive form where the end plus one fits in a `u64`, the inclusive
/// form otherwise.
pub enum DynamicInclusiveRange {
    Inclusive(InclusiveRange),
    NonInclusive(ExclusiveRange),
}

impl DynamicInclusiveRange {
    /// The value that `new(from, inclusive_to)` returns.
    pub open spec fn spec_new(from: u64, inclusive_to: u64) -> Self {
        if inclusive_to == u64::MAX {
            DynamicInclusiveRange::Inclusive(InclusiveRange::spec_new(from, inclusive_to))
        } else {
            DynamicInclusiveRange::NonInclusive(
                ExclusiveRange::spec_new(from, (inclusive_to + 1) as u64),
            )
        }
    }

    /// The run from `from` up to and including `inclusive_to`.
    pub fn new(from: u64, inclusive_to: u64) -> (r: Self)
        ensures
            r == Self::spec_new(from, inclusive_to),
            r.remaining() == span(from as int, inclusive_to as int + 1),
    {
        if inclusive_to == u64::MAX {
            DynamicInclusiveRange::Inclusive(InclusiveRange::new(from, inclusive_to))
        } else {
            DynamicInclusiveRange::NonInclusive(ExclusiveRange::new(from, inclusive_to + 1))
        }
    }
}

impl Producer for DynamicInclusiveRange {
    open spec fn remaining(&self) -> Seq<u64> {
        match self {
            DynamicInclusiveRange::Inclusive(r) => r.remaining(),
            DynamicInclusiveRange::NonInclusive(r) => r.remaining(),
        }
    }

    fn next(&mut self) -> (r: Option<u64>) {
        match self {
            DynamicInclusiveRange::Inclusive(r) => r.next(),
            DynamicInclusiveRange::NonInclusive(r) => r.next(),
        }
    }
}

/// Folds every value that `iter` yields with wrap-around addition,
/// starting from zero.
pub fn calc<P: Producer>(iter: P) -> (r: u64)
    ensures
        r == wrapped_sum(iter.remaining()),
{
    let mut rest = iter;
    let ghost all = rest.remaining();
    let mut acc: u64 = 0;
    loop
        invariant
            all == iter.remaining(),
            (acc + sum_of(rest.remaining())) % word_modulus() == sum_of(all) % word_modulus(),
        decreases rest.remaining().len(),
    {
        let ghost before = rest.remaining();
        match rest.next() {
            None => {
                proof {
                    lemma_sum_of_nonnegative(all);
                    assert(sum_of(before) == 0);
                    assert((acc as int) % word_modulus() == acc as int);
                }
                return acc;
            },
            Some(x) => {
                proof {
                    lemma_wrapping_step(acc, before);
                }
                acc = acc.wrapping_add(x);
            },
        }
    }
}

} // verus!
