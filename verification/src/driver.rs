//! The iteration driver: one pass over a vector, with a handle on each
//! element that the pass comes to.
use crate::handle::VecMutationHandle;
use crate::pass::{is_pass, links, remaining, Visit};
use vstd::prelude::*;

verus! {

/// One pass over `vec`, driven by `op`, which ends because `measure` gets
/// smaller with every visit.
///
/// A handle is made at the cursor, which starts at 0, and handed to `op`;
/// this is repeated until no handle can be made. The record of such a run
/// is a pass ([`is_pass`]): each of its visits starts where the one before
/// left the vector and the cursor, and each is one that `op` can make of a
/// fresh handle.
pub fn mutate_vec_by_handles_decreasing<T, F: FnMut(VecMutationHandle<T>)>(
    vec: &mut Vec<T>,
    mut op: F,
    Ghost(measure): Ghost<spec_fn(Seq<T>, usize) -> nat>,
)
    requires
        forall|h: VecMutationHandle<T>| h.is_fresh() ==> call_requires(op, (h,)),
        forall|h: VecMutationHandle<T>|
            h.is_fresh() && #[trigger] call_ensures(op, (h,), ()) ==> measure(
                final(h.borrowed_vec())@,
                *final(h.borrowed_cursor()),
            ) < measure(h.seq(), h.position()),
    ensures
        exists|trace: Seq<Visit<T>>|
            {
                &&& #[trigger] is_pass(trace, old(vec)@, final(vec)@)
                &&& forall|i: int|
                    0 <= i < trace.len() ==> exists|h: VecMutationHandle<T>|
                        {
                            &&& h.is_fresh()
                            &&& #[trigger] call_ensures(op, (h,), ())
                            &&& h.seq() == (#[trigger] trace[i]).before
                            &&& h.position() == trace[i].position
                            &&& final(h.borrowed_vec())@ == trace[i].after
                            &&& *final(h.borrowed_cursor()) == trace[i].cursor
                        }
            },
{
    let ghost given_op = op;
    let ghost mut trace: Seq<Visit<T>> = Seq::empty();
    let mut curr_index: usize = 0;
    loop
        invariant
            op == given_op,
            forall|h: VecMutationHandle<T>| h.is_fresh() ==> call_requires(op, (h,)),
            forall|h: VecMutationHandle<T>|
                h.is_fresh() && #[trigger] call_ensures(op, (h,), ()) ==> measure(
                    final(h.borrowed_vec())@,
                    *final(h.borrowed_cursor()),
                ) < measure(h.seq(), h.position()),
            links(trace, old(vec)@),
            trace.len() == 0 ==> vec@ == old(vec)@ && curr_index == 0,
            trace.len() > 0 ==> vec@ == trace.last().after && curr_index == trace.last().cursor,
            forall|i: int|
                0 <= i < trace.len() ==> exists|h: VecMutationHandle<T>|
                    {
                        &&& h.is_fresh()
                        &&& #[trigger] call_ensures(op, (h,), ())
                        &&& h.seq() == (#[trigger] trace[i]).before
                        &&& h.position() == trace[i].position
                        &&& final(h.borrowed_vec())@ == trace[i].after
                        &&& *final(h.borrowed_cursor()) == trace[i].cursor
                    },
        ensures
            is_pass(trace, old(vec)@, vec@),
        decreases measure(vec@, curr_index),
    {
        let ghost before = vec@;
        let ghost position = curr_index;
        assert(vec.len() == before.len());
        match VecMutationHandle::new(vec, &mut curr_index) {
            Some(handle) => {
                assert(call_requires(op, (handle,)));
                op(handle);
            },
            None => {
                break ;
            },
        }
        proof {
            let visit = Visit { before, position, after: vec@, cursor: curr_index };
            let earlier = trace;
            trace = trace.push(visit);
            assert(forall|i: int| 0 <= i < earlier.len() ==> trace[i] == earlier[i]);
        }
    }
}

/// Mutate a vec using index-style looping, but without thinking about the
/// indices.
///
/// `op` gets a handle on each element that the pass comes to. It has to
/// leave fewer elements at or after the cursor than its handle found at or
/// after its position ([`remaining`]): that is what ends the pass. Every
/// operation of a handle but `insert_and_process` and
/// `insert_and_process_vec` does so by itself. For an `op` that ends the
/// pass in another way there is [`mutate_vec_by_handles_decreasing`].
pub fn mutate_vec_by_handles<T, F: FnMut(VecMutationHandle<T>)>(vec: &mut Vec<T>, op: F)
    requires
        forall|h: VecMutationHandle<T>| h.is_fresh() ==> call_requires(op, (h,)),
        forall|h: VecMutationHandle<T>|
            h.is_fresh() && #[trigger] call_ensures(op, (h,), ()) ==> remaining(
                final(h.borrowed_vec())@,
                *final(h.borrowed_cursor()),
            ) < remaining(h.seq(), h.position()),
    ensures
        exists|trace: Seq<Visit<T>>|
            {
                &&& #[trigger] is_pass(trace, old(vec)@, final(vec)@)
                &&& forall|i: int|
                    0 <= i < trace.len() ==> exists|h: VecMutationHandle<T>|
                        {
                            &&& h.is_fresh()
                            &&& #[trigger] call_ensures(op, (h,), ())
                            &&& h.seq() == (#[trigger] trace[i]).before
                            &&& h.position() == trace[i].position
                            &&& final(h.borrowed_vec())@ == trace[i].after
                            &&& *final(h.borrowed_cursor()) == trace[i].cursor
                        }
            },
{
    mutate_vec_by_handles_decreasing(
        vec,
        op,
        Ghost(|seq: Seq<T>, cursor: usize| remaining(seq, cursor)),
    );
}

/// Vector mutation by handles as a method of the vector itself.
pub trait VecMutateByHandles<T>: Sized {
    /// The elements that a pass goes over.
    spec fn elements(&self) -> Seq<T>;

    /// Mutate a vec using index-style looping, but without thinking about
    /// the indices. See [`mutate_vec_by_handles`].
    fn mutate_vec_by_handles<F: FnMut(VecMutationHandle<T>)>(&mut self, op: F)
        requires
            forall|h: VecMutationHandle<T>| h.is_fresh() ==> call_requires(op, (h,)),
            forall|h: VecMutationHandle<T>|
                h.is_fresh() && #[trigger] call_ensures(op, (h,), ()) ==> remaining(
                    final(h.borrowed_vec())@,
                    *final(h.borrowed_cursor()),
                ) < remaining(h.seq(), h.position()),
        ensures
            exists|trace: Seq<Visit<T>>|
                {
                    &&& #[trigger] is_pass(trace, old(self).elements(), final(self).elements())
                    &&& forall|i: int|
                        0 <= i < trace.len() ==> exists|h: VecMutationHandle<T>|
                            {
                                &&& h.is_fresh()
                                &&& #[trigger] call_ensures(op, (h,), ())
                                &&& h.seq() == (#[trigger] trace[i]).before
                                &&& h.position() == trace[i].position
                                &&& final(h.borrowed_vec())@ == trace[i].after
                                &&& *final(h.borrowed_cursor()) == trace[i].cursor
                            }
                },
    ;
}

impl<T> VecMutateByHandles<T> for Vec<T> {
    open spec fn elements(&self) -> Seq<T> {
        self@
    }

    fn mutate_vec_by_handles<F: FnMut(VecMutationHandle<T>)>(&mut self, op: F) {
        mutate_vec_by_handles(self, op);
        proof {
            let trace = choose|trace: Seq<Visit<T>>| #[trigger] is_pass(trace, old(self)@, self@);
            assert(is_pass(trace, old(self).elements(), self.elements()));
        }
    }
}

} // verus!
