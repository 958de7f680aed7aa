//! Operations on a handle that are made of the core ones. They see a handle
//! only through its public operations, and are verified against the
//! contracts of those.
use crate::handle::VecMutationHandle;
use vstd::prelude::*;

verus! {

impl<'a, 'b, T> VecMutationHandle<'a, 'b, T> {
    /// No vector is longer than `usize::MAX`.
    pub proof fn lemma_len_fits(self)
        ensures
            self.seq().len() <= usize::MAX,
    {
        assert(self.borrowed_vec().len() == self.seq().len());
    }

    /// Insert a new element AFTER the current one, but do not process it in
    /// the next iteration: the cursor moves on by one, past it.
    ///
    /// The cursor must have room to move. It always has on a handle whose
    /// cursor lies within the vector, since the vector grows by one.
    pub fn insert_and_skip(&mut self, t: T)
        requires
            old(self).wf(),
            old(self).cursor() < usize::MAX || old(self).cursor() <= old(self).seq().len(),
        ensures
            final(self).seq() == old(self).seq().insert(old(self).position() + 1, t),
            final(self).cursor() == old(self).cursor() + 1,
            final(self).position() == old(self).position(),
            final(self).wf(),
            *final(final(self).borrowed_vec()) == *final(old(self).borrowed_vec()),
            *final(final(self).borrowed_cursor()) == *final(old(self).borrowed_cursor()),
    {
        self.insert_and_process(t);
        proof {
            self.lemma_len_fits();
        }
        self.skip_forward(1);
    }

    /// Assign a new value to this element.
    pub fn set(&mut self, t: T)
        requires
            old(self).wf(),
        ensures
            final(self).seq() == old(self).seq().update(old(self).position() as int, t),
            final(self).cursor() == old(self).cursor(),
            final(self).position() == old(self).position(),
            final(self).wf(),
            *final(final(self).borrowed_vec()) == *final(old(self).borrowed_vec()),
            *final(final(self).borrowed_cursor()) == *final(old(self).borrowed_cursor()),
    {
        *self.get_mut() = t;
    }

    /// Replace the current element with another, and get ownership of the
    /// value currently there.
    pub fn replace(&mut self, t: T) -> (previous: T)
        requires
            old(self).wf(),
        ensures
            previous == old(self).seq()[old(self).position() as int],
            final(self).seq() == old(self).seq().update(old(self).position() as int, t),
            final(self).cursor() == old(self).cursor(),
            final(self).position() == old(self).position(),
            final(self).wf(),
            *final(final(self).borrowed_vec()) == *final(old(self).borrowed_vec()),
            *final(final(self).borrowed_cursor()) == *final(old(self).borrowed_cursor()),
    {
        let mut t = t;
        core::mem::swap(self.get_mut(), &mut t);
        t
    }

    /// Insert each element of a vec after the current one, in the order
    /// they have in the vec. The pass goes on with the first of them.
    pub fn insert_and_process_vec(&mut self, vec: Vec<T>)
        requires
            old(self).wf(),
        ensures
            final(self).seq() == old(self).seq().subrange(0, old(self).position() + 1) + vec@
                + old(self).seq().subrange(
                old(self).position() + 1,
                old(self).seq().len() as int,
            ),
            final(self).cursor() == old(self).cursor(),
            final(self).position() == old(self).position(),
            final(self).wf(),
            *final(final(self).borrowed_vec()) == *final(old(self).borrowed_vec()),
            *final(final(self).borrowed_cursor()) == *final(old(self).borrowed_cursor()),
    {
        let ghost start = self.seq();
        let ghost at = self.position() + 1;
        let mut rest = vec;
        proof {
            assert(start =~= start.subrange(0, at) + vec@.subrange(
                rest@.len() as int,
                vec@.len() as int,
            ) + start.subrange(at, start.len() as int));
        }
        // Each element goes right after the current one, so the last of the
        // vec is inserted first.
        loop
            invariant
                self.wf(),
                self.position() == old(self).position(),
                self.cursor() == old(self).cursor(),
                at == self.position() + 1,
                at <= start.len(),
                start == old(self).seq(),
                *final(self.borrowed_vec()) == *final(old(self).borrowed_vec()),
                *final(self.borrowed_cursor()) == *final(old(self).borrowed_cursor()),
                rest@ == vec@.subrange(0, rest@.len() as int),
                rest@.len() <= vec@.len(),
                self.seq() == start.subrange(0, at) + vec@.subrange(
                    rest@.len() as int,
                    vec@.len() as int,
                ) + start.subrange(at, start.len() as int),
            ensures
                rest@.len() == 0,
            decreases rest@.len(),
        {
            let ghost left = rest@.len() as int;
            match rest.pop() {
                Some(t) => {
                    self.insert_and_process(t);
                    proof {
                        assert(t == vec@[left - 1]);
                        assert(self.seq() =~= start.subrange(0, at) + vec@.subrange(
                            left - 1,
                            vec@.len() as int,
                        ) + start.subrange(at, start.len() as int));
                    }
                },
                None => {
                    break ;
                },
            }
        }
        proof {
            assert(vec@.subrange(0, vec@.len() as int) =~= vec@);
        }
    }

    /// Insert each element of a vec after the current one, in the order
    /// they have in the vec. The pass goes on after the last of them.
    ///
    /// The cursor must have room to move past the inserted elements. It
    /// always has on a handle whose cursor lies within the vector.
    pub fn insert_and_skip_vec(&mut self, vec: Vec<T>)
        requires
            old(self).wf(),
            old(self).cursor() + vec@.len() <= usize::MAX || old(self).cursor() <= old(
                self,
            ).seq().len(),
        ensures
            final(self).seq() == old(self).seq().subrange(0, old(self).position() + 1) + vec@
                + old(self).seq().subrange(
                old(self).position() + 1,
                old(self).seq().len() as int,
            ),
            final(self).cursor() == old(self).cursor() + vec@.len(),
            final(self).position() == old(self).position(),
            final(self).wf(),
            *final(final(self).borrowed_vec()) == *final(old(self).borrowed_vec()),
            *final(final(self).borrowed_cursor()) == *final(old(self).borrowed_cursor()),
    {
        let steps_to_skip = vec.len();
        self.insert_and_process_vec(vec);
        proof {
            self.lemma_len_fits();
        }
        self.skip_forward(steps_to_skip);
    }
}

} // verus!
