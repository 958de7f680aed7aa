//! The indices a handle can peek with: a single offset, or a range of
//! offsets, counted from the handle's own element.
use core::ops::{Range, RangeFrom, RangeFull, RangeTo, RangeToInclusive};
use vstd::prelude::*;

verus! {

/// `core::ops::RangeFrom`, the type of `a..`, declared as std defines it: a
/// struct with the one public field `start`.
#[verifier::external_type_specification]
#[verifier::reject_recursive_types(Idx)]
pub struct ExRangeFrom<Idx>(core::ops::RangeFrom<Idx>);

/// `core::ops::RangeTo`, the type of `..b`, declared as std defines it: a
/// struct with the one public field `end`.
#[verifier::external_type_specification]
#[verifier::reject_recursive_types(Idx)]
pub struct ExRangeTo<Idx>(core::ops::RangeTo<Idx>);

/// `core::ops::RangeToInclusive`, the type of `..=b`, declared as std
/// defines it: a struct with the one public field `end`.
#[verifier::external_type_specification]
#[verifier::reject_recursive_types(Idx)]
pub struct ExRangeToInclusive<Idx>(core::ops::RangeToInclusive<Idx>);

/// `core::ops::RangeFull`, the type of `..`, declared as std defines it: a
/// struct without fields.
#[verifier::external_type_specification]
pub struct ExRangeFull(core::ops::RangeFull);

/// An index into the run of elements that starts at a handle's position:
/// offset 0 is the handle's own element.
pub trait ForwardIndex<T>: Sized {
    /// What a peek with this index hands out: `T` for a single offset, `[T]`
    /// for a range.
    type Output: ?Sized;

    /// The offsets that the index covers in a run of `len` elements: the
    /// first one, and the one past the last. `None` where the index reaches
    /// outside the run.
    spec fn span(&self, len: nat) -> Option<(int, int)>;

    /// The elements that a peeked value shows.
    spec fn shown(out: &Self::Output) -> Seq<T>;

    /// A span lies inside the run it was computed for.
    proof fn lemma_span_in_run(&self, len: nat)
        ensures
            self.span(len) matches Some((lo, hi)) ==> 0 <= lo <= hi <= len,
    ;

    /// The part of `run` that the index covers, or `None` where it reaches
    /// outside `run`.
    fn peek<'s>(self, run: &'s [T]) -> (out: Option<&'s Self::Output>)
        ensures
            match (out, self.span(run@.len())) {
                (Some(part), Some((lo, hi))) => Self::shown(part) == run@.subrange(lo, hi),
                (None, None) => true,
                _ => false,
            },
    ;

    /// The part of `run` that the index covers, for writing. What is
    /// written takes the place of the covered elements; the rest of `run`
    /// stays as it is.
    fn peek_mut<'s>(self, run: &'s mut [T]) -> (out: Option<&'s mut Self::Output>)
        ensures
            match (out, self.span(old(run)@.len())) {
                (Some(part), Some((lo, hi))) => {
                    &&& Self::shown(part) == old(run)@.subrange(lo, hi)
                    &&& Self::shown(final(part)).len() == hi - lo
                    &&& final(run)@ == old(run)@.subrange(0, lo) + Self::shown(final(part))
                        + old(run)@.subrange(hi, old(run)@.len() as int)
                },
                (None, None) => final(run)@ == old(run)@,
                _ => false,
            },
    ;
}

/// The span of the offsets `lo..hi` in a run of `len` elements.
pub open spec fn span_of(lo: int, hi: int, len: nat) -> Option<(int, int)> {
    if 0 <= lo <= hi <= len {
        Some((lo, hi))
    } else {
        None
    }
}

/// The elements of `run` at the offsets `lo..hi`, or `None` where these do
/// not all lie in `run`.
fn subslice<'s, T>(run: &'s [T], lo: usize, hi: usize) -> (out: Option<&'s [T]>)
    ensures
        match (out, span_of(lo as int, hi as int, run@.len())) {
            (Some(part), Some(_)) => part@ == run@.subrange(lo as int, hi as int),
            (None, None) => true,
            _ => false,
        },
{
    if lo <= hi && hi <= run.len() {
        Some(&run[lo..hi])
    } else {
        None
    }
}

/// `<[T]>::get_mut` with the range `lo..hi`. It gives `None` unless
/// `lo <= hi <= run.len()`. Otherwise it gives the elements at these
/// offsets for writing: a slice keeps its length whatever is written to
/// it, and `run` ends up with the written elements in the place of the old
/// ones.
#[verifier::external_body]
fn subslice_mut<'s, T>(run: &'s mut [T], lo: usize, hi: usize) -> (out: Option<&'s mut [T]>)
    ensures
        match (out, span_of(lo as int, hi as int, old(run)@.len())) {
            (Some(part), Some(_)) => {
                &&& part@ == old(run)@.subrange(lo as int, hi as int)
                &&& final(part)@.len() == hi - lo
                &&& final(run)@ == old(run)@.subrange(0, lo as int) + final(part)@
                    + old(run)@.subrange(hi as int, old(run)@.len() as int)
            },
            (None, None) => final(run)@ == old(run)@,
            _ => false,
        },
{
    run.get_mut(lo..hi)
}

/// A single offset: `0` is the handle's own element, `1` the next one.
impl<T> ForwardIndex<T> for usize {
    type Output = T;

    open spec fn span(&self, len: nat) -> Option<(int, int)> {
        if *self < len {
            Some((*self as int, *self + 1))
        } else {
            None
        }
    }

    open spec fn shown(out: &T) -> Seq<T> {
        seq![*out]
    }

    proof fn lemma_span_in_run(&self, len: nat) {
    }

    fn peek<'s>(self, run: &'s [T]) -> (out: Option<&'s T>) {
        if self < run.len() {
            let elem = &run[self];
            assert(seq![*elem] =~= run@.subrange(self as int, self + 1));
            Some(elem)
        } else {
            None
        }
    }

    fn peek_mut<'s>(self, run: &'s mut [T]) -> (out: Option<&'s mut T>) {
        if self < run.len() {
            let (_, rest) = run.split_at_mut(self);
            let out = rest.first_mut();
            assert(out is Some);
            out
        } else {
            None
        }
    }
}

/// The offsets `start..end`.
impl<T> ForwardIndex<T> for Range<usize> {
    type Output = [T];

    open spec fn span(&self, len: nat) -> Option<(int, int)> {
        span_of(self.start as int, self.end as int, len)
    }

    open spec fn shown(out: &[T]) -> Seq<T> {
        out@
    }

    proof fn lemma_span_in_run(&self, len: nat) {
    }

    fn peek<'s>(self, run: &'s [T]) -> (out: Option<&'s [T]>) {
        subslice(run, self.start, self.end)
    }

    fn peek_mut<'s>(self, run: &'s mut [T]) -> (out: Option<&'s mut [T]>) {
        subslice_mut(run, self.start, self.end)
    }
}

/// The offsets from `start` to the end of the run.
impl<T> ForwardIndex<T> for RangeFrom<usize> {
    type Output = [T];

    open spec fn span(&self, len: nat) -> Option<(int, int)> {
        span_of(self.start as int, len as int, len)
    }

    open spec fn shown(out: &[T]) -> Seq<T> {
        out@
    }

    proof fn lemma_span_in_run(&self, len: nat) {
    }

    fn peek<'s>(self, run: &'s [T]) -> (out: Option<&'s [T]>) {
        subslice(run, self.start, run.len())
    }

    fn peek_mut<'s>(self, run: &'s mut [T]) -> (out: Option<&'s mut [T]>) {
        let len = run.len();
        subslice_mut(run, self.start, len)
    }
}

/// The offsets before `end`.
impl<T> ForwardIndex<T> for RangeTo<usize> {
    type Output = [T];

    open spec fn span(&self, len: nat) -> Option<(int, int)> {
        span_of(0, self.end as int, len)
    }

    open spec fn shown(out: &[T]) -> Seq<T> {
        out@
    }

    proof fn lemma_span_in_run(&self, len: nat) {
    }

    fn peek<'s>(self, run: &'s [T]) -> (out: Option<&'s [T]>) {
        subslice(run, 0, self.end)
    }

    fn peek_mut<'s>(self, run: &'s mut [T]) -> (out: Option<&'s mut [T]>) {
        subslice_mut(run, 0, self.end)
    }
}

/// The offsets up to and including `end`.
impl<T> ForwardIndex<T> for RangeToInclusive<usize> {
    type Output = [T];

    open spec fn span(&self, len: nat) -> Option<(int, int)> {
        span_of(0, self.end + 1, len)
    }

    open spec fn shown(out: &[T]) -> Seq<T> {
        out@
    }

    proof fn lemma_span_in_run(&self, len: nat) {
    }

    fn peek<'s>(self, run: &'s [T]) -> (out: Option<&'s [T]>) {
        if self.end < run.len() {
            subslice(run, 0, self.end + 1)
        } else {
            None
        }
    }

    fn peek_mut<'s>(self, run: &'s mut [T]) -> (out: Option<&'s mut [T]>) {
        if self.end < run.len() {
            subslice_mut(run, 0, self.end + 1)
        } else {
            None
        }
    }
}

/// Every offset of the run.
impl<T> ForwardIndex<T> for RangeFull {
    type Output = [T];

    open spec fn span(&self, len: nat) -> Option<(int, int)> {
        span_of(0, len as int, len)
    }

    open spec fn shown(out: &[T]) -> Seq<T> {
        out@
    }

    proof fn lemma_span_in_run(&self, len: nat) {
    }

    fn peek<'s>(self, run: &'s [T]) -> (out: Option<&'s [T]>) {
        subslice(run, 0, run.len())
    }

    fn peek_mut<'s>(self, run: &'s mut [T]) -> (out: Option<&'s mut [T]>) {
        let len = run.len();
        subslice_mut(run, 0, len)
    }
}

} // verus!
