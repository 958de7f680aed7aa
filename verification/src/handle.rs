//! The position handle: exclusive authority over one index of a vector for
//! one step of a pass.
//!
//! A handle borrows the vector and the cursor of the pass. Everything that
//! is done to the vector during the step goes through the handle, and each
//! operation keeps the cursor in line with the insertions and removals made
//! so far. No operation reads or writes an index before the handle's own.
//!
//! A handle holds mutable borrows, so a contract about it speaks of two
//! moments: what the borrowed data holds now ([`VecMutationHandle::seq`],
//! [`VecMutationHandle::cursor`]) and what it will hold once the handle is
//! gone (`final(h.borrowed_vec())`, `final(h.borrowed_cursor())`).
use crate::forward_index::ForwardIndex;
use vstd::prelude::*;
use vstd::slice::slice_subrange;

verus! {

/// Represents an index in a vector, allowing mutation of the vector with
/// that index as a "context".
#[derive(Debug)]
pub struct VecMutationHandle<'a, 'b, T> {
    vec: &'a mut Vec<T>,
    /// The index this handle is bound to. Never changes.
    index: usize,
    /// The index of the next step of the pass.
    next_index: &'b mut usize,
}

impl<'a, 'b, T> VecMutationHandle<'a, 'b, T> {
    /// The borrow of the vector that the handle holds.
    pub closed spec fn borrowed_vec(self) -> &'a mut Vec<T> {
        self.vec
    }

    /// The borrow of the cursor that the handle holds.
    pub closed spec fn borrowed_cursor(self) -> &'b mut usize {
        self.next_index
    }

    /// The index the handle is bound to.
    pub closed spec fn position(self) -> usize {
        self.index
    }

    /// The present contents of the whole vector.
    pub open spec fn seq(self) -> Seq<T> {
        self.borrowed_vec()@
    }

    /// The present value of the cursor: the index of the next step.
    pub open spec fn cursor(self) -> usize {
        *self.borrowed_cursor()
    }

    /// The part of the vector a handle may look at: its own element and
    /// everything after it.
    pub open spec fn ahead(self) -> Seq<T> {
        self.seq().skip(self.position() as int)
    }

    /// The invariant of a live handle: it is bound to an element of the
    /// vector, and the cursor lies past it.
    pub open spec fn wf(self) -> bool {
        &&& self.position() < self.seq().len()
        &&& self.position() < self.cursor()
    }

    /// A handle as [`VecMutationHandle::new`] hands it out: the cursor
    /// points at the element right after the handle's own.
    pub open spec fn is_fresh(self) -> bool {
        &&& self.wf()
        &&& self.cursor() == self.position() + 1
    }

    /// Once a handle is gone for good, the vector and the cursor hold what
    /// the handle last saw in them.
    pub broadcast proof fn lemma_released(self)
        ensures
            #[trigger] has_resolved(self) ==> {
                &&& *final(self.borrowed_vec()) == *self.borrowed_vec()
                &&& *final(self.borrowed_cursor()) == self.cursor()
            },
    {
    }

    /// Creates a vector mutation handle, allowing mutation of a vector with
    /// a specific element (index) as a "context".
    ///
    /// Gives `None` if `index` is not less than the vector's length
    /// (iteration should be stopped). Otherwise `index` is immediately
    /// overwritten with `index + 1`, so that a handle on which nothing is
    /// called moves the pass to the next element. Later calls on the handle
    /// may change the cursor further; after a stop it holds `usize::MAX`.
    #[must_use]
    pub fn new(vec: &'a mut Vec<T>, index: &'b mut usize) -> (handle: Option<Self>)
        ensures
            handle is Some <==> *old(index) < old(vec)@.len(),
            match handle {
                Some(h) => {
                    &&& h.is_fresh()
                    &&& *h.borrowed_vec() == *old(vec)
                    &&& h.position() == *old(index)
                    &&& *final(vec) == *final(h.borrowed_vec())
                    &&& *final(index) == *final(h.borrowed_cursor())
                },
                None => *final(vec) == *old(vec) && *final(index) == *old(index),
            },
    {
        let curr_index: usize = *index;
        if curr_index < vec.len() {
            *index = curr_index + 1;
            Some(VecMutationHandle { vec, index: curr_index, next_index: index })
        } else {
            None
        }
    }

    /// Get a reference to the current element.
    #[must_use]
    pub fn get(&self) -> (elem: &T)
        requires
            self.wf(),
        ensures
            *elem == self.seq()[self.position() as int],
    {
        &self.vec[self.index]
    }

    /// Get a mutable reference to the current element. What is written
    /// through it replaces the element in place.
    #[must_use]
    pub fn get_mut(&mut self) -> (elem: &mut T)
        requires
            old(self).wf(),
        ensures
            *elem == old(self).seq()[old(self).position() as int],
            final(self).seq() == old(self).seq().update(old(self).position() as int, *final(elem)),
            final(self).cursor() == old(self).cursor(),
            final(self).position() == old(self).position(),
            final(self).wf(),
            *final(final(self).borrowed_vec()) == *final(old(self).borrowed_vec()),
            *final(final(self).borrowed_cursor()) == *final(old(self).borrowed_cursor()),
    {
        &mut self.vec[self.index]
    }

    /// Remove the current element, and return it as owned. The elements
    /// after it move down by one, and so does the cursor.
    ///
    /// Consumes the handle: its index may no longer lie inside the vector.
    pub fn discard(self) -> (removed: T)
        requires
            self.wf(),
        ensures
            removed == self.seq()[self.position() as int],
            final(self.borrowed_vec())@ == self.seq().remove(self.position() as int),
            *final(self.borrowed_cursor()) == self.cursor() - 1,
    {
        *self.next_index -= 1;
        self.vec.remove(self.index)
    }

    /// Insert a new element AFTER the current one, and process it in the
    /// next iteration: the cursor stays where it is.
    pub fn insert_and_process(&mut self, t: T)
        requires
            old(self).wf(),
        ensures
            final(self).seq() == old(self).seq().insert(old(self).position() + 1, t),
            final(self).cursor() == old(self).cursor(),
            final(self).position() == old(self).position(),
            final(self).wf(),
            *final(final(self).borrowed_vec()) == *final(old(self).borrowed_vec()),
            *final(final(self).borrowed_cursor()) == *final(old(self).borrowed_cursor()),
    {
        // The vector's length is a valid place to insert at: the element
        // then comes after all the others.
        self.vec.insert(self.index + 1, t);
    }

    /// Skip a certain amount of the next elements.
    pub fn skip_forward(&mut self, steps_to_skip: usize)
        requires
            old(self).wf(),
            old(self).cursor() + steps_to_skip <= usize::MAX,
        ensures
            final(self).cursor() == old(self).cursor() + steps_to_skip,
            *final(self).borrowed_vec() == *old(self).borrowed_vec(),
            final(self).position() == old(self).position(),
            final(self).wf(),
            *final(final(self).borrowed_vec()) == *final(old(self).borrowed_vec()),
            *final(final(self).borrowed_cursor()) == *final(old(self).borrowed_cursor()),
    {
        *self.next_index += steps_to_skip;
    }

    /// Do not process any more elements. The call returns like any other;
    /// what it changes is that no later step finds an element: the cursor
    /// is set to `usize::MAX`, which no vector's length exceeds.
    pub fn stop_iteration(self)
        ensures
            *final(self.borrowed_vec()) == *self.borrowed_vec(),
            *final(self.borrowed_cursor()) == usize::MAX,
    {
        *self.next_index = usize::MAX;
    }

    /// Discards the current element, and returns it as owned. Does not
    /// process any more elements.
    pub fn discard_and_stop_iteration(self) -> (removed: T)
        requires
            self.wf(),
        ensures
            removed == self.seq()[self.position() as int],
            final(self.borrowed_vec())@ == self.seq().remove(self.position() as int),
            *final(self.borrowed_cursor()) == usize::MAX,
    {
        *self.next_index = usize::MAX;
        self.vec.remove(self.index)
    }

    /// "Peek" a reference to a part of the vector, with 0 being the index
    /// of the current element: `1` is the next element, and `0..` is a
    /// slice of the remaining elements, including this one. Gives `None`
    /// where `slice` reaches past the end of the vector.
    #[must_use]
    pub fn peek_forward_slice<I: ForwardIndex<T>>(&self, slice: I) -> (peeked: Option<&I::Output>)
        requires
            self.wf(),
        ensures
            match (peeked, slice.span(self.ahead().len())) {
                (Some(part), Some((lo, hi))) => I::shown(part) == self.ahead().subrange(lo, hi),
                (None, None) => true,
                _ => false,
            },
    {
        let run = slice_subrange(self.vec.as_slice(), self.index, self.vec.len());
        assert(run@ =~= self.ahead());
        slice.peek(run)
    }

    /// "Peek" a mutable reference to a part of the vector, with 0 being the
    /// index of the current element. What is written through it takes the
    /// place of the peeked elements; the rest of the vector, the cursor and
    /// the handle's position stay as they are.
    #[must_use]
    pub fn peek_forward_slice_mut<I: ForwardIndex<T>>(&mut self, slice: I) -> (peeked: Option<
        &mut I::Output,
    >)
        requires
            old(self).wf(),
        ensures
            match (peeked, slice.span(old(self).ahead().len())) {
                (Some(part), Some((lo, hi))) => {
                    &&& I::shown(part) == old(self).ahead().subrange(lo, hi)
                    &&& I::shown(final(part)).len() == hi - lo
                    &&& final(self).seq() == old(self).seq().subrange(0, old(self).position() + lo)
                        + I::shown(final(part)) + old(self).seq().subrange(
                        old(self).position() + hi,
                        old(self).seq().len() as int,
                    )
                },
                (None, None) => final(self).seq() == old(self).seq(),
                _ => false,
            },
            final(self).cursor() == old(self).cursor(),
            final(self).position() == old(self).position(),
            final(self).wf(),
            *final(final(self).borrowed_vec()) == *final(old(self).borrowed_vec()),
            *final(final(self).borrowed_cursor()) == *final(old(self).borrowed_cursor()),
    {
        let ghost before = self.vec@;
        let ghost position = self.index as int;
        let (_, run) = self.vec.as_mut_slice().split_at_mut(self.index);
        proof {
            let head = before.subrange(0, position);
            let ahead = run@;
            assert(ahead =~= old(self).ahead());
            assert(head + ahead =~= before);
            slice.lemma_span_in_run(ahead.len());
            if let Some((lo, hi)) = slice.span(ahead.len()) {
                assert forall|written: Seq<T>|
                    head + (#[trigger] (ahead.subrange(0, lo) + written) + ahead.subrange(
                        hi,
                        ahead.len() as int,
                    )) == before.subrange(0, position + lo) + written + before.subrange(
                        position + hi,
                        before.len() as int,
                    ) by {
                    assert(head + (ahead.subrange(0, lo) + written + ahead.subrange(
                        hi,
                        ahead.len() as int,
                    )) =~= before.subrange(0, position + lo) + written + before.subrange(
                        position + hi,
                        before.len() as int,
                    ));
                }
            }
        }
        slice.peek_mut(run)
    }
}

} // verus!
