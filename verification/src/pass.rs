//! What a pass over a vector is, told as the record of its visits, and what
//! holds of the passes in which every visit does the same kind of thing.
use vstd::prelude::*;

verus! {

/// One step of a pass: a handle was made at `position` in `before`, and
/// when it was gone the vector held `after` and the cursor was `cursor`.
pub struct Visit<T> {
    pub before: Seq<T>,
    pub position: usize,
    pub after: Seq<T>,
    pub cursor: usize,
}

impl<T> Visit<T> {
    /// The element that the visit's handle was bound to.
    pub open spec fn element(self) -> T {
        self.before[self.position as int]
    }

    /// The visit of a handle on which `set(value)` was called and nothing
    /// that moves an element or the cursor.
    pub open spec fn sets(self, value: T) -> bool {
        &&& self.after == self.before.update(self.position as int, value)
        &&& self.cursor == self.position + 1
    }

    /// The visit of a handle that was consumed by `discard()`.
    pub open spec fn discards(self) -> bool {
        &&& self.after == self.before.remove(self.position as int)
        &&& self.cursor == self.position
    }

    /// The visit of a handle on which `insert_and_skip(value)` was called
    /// once and nothing else that moves an element or the cursor.
    pub open spec fn inserts_and_skips(self, value: T) -> bool {
        &&& self.after == self.before.insert(self.position + 1, value)
        &&& self.cursor == self.position + 2
    }

    /// The visit of a handle on which `insert_and_process(value)` was
    /// called once and nothing else that moves an element or the cursor.
    pub open spec fn inserts_and_processes(self, value: T) -> bool {
        &&& self.after == self.before.insert(self.position + 1, value)
        &&& self.cursor == self.position + 1
    }

    /// The visit of a handle that was consumed by `stop_iteration()`.
    pub open spec fn stops(self) -> bool {
        self.cursor == usize::MAX
    }
}

/// The number of elements of `seq` at or after `cursor`: those that a pass
/// has yet to come to.
pub open spec fn remaining<T>(seq: Seq<T>, cursor: usize) -> nat {
    if cursor < seq.len() {
        (seq.len() - cursor) as nat
    } else {
        0
    }
}

/// The visits of `trace` follow one another from the beginning of a pass
/// over `start`: the first is at index 0 of `start`, each later one is at
/// the cursor that the one before left, in the vector that it left, and
/// each is at an element of a vector, which has a `usize` for its length.
pub open spec fn links<T>(trace: Seq<Visit<T>>, start: Seq<T>) -> bool {
    &&& forall|i: int|
        0 <= i < trace.len() ==> (#[trigger] trace[i]).position < trace[i].before.len()
            <= usize::MAX
    &&& trace.len() > 0 ==> trace[0].before == start && trace[0].position == 0
    &&& forall|i: int, j: int|
        0 <= i && j == i + 1 && j < trace.len() ==> {
            &&& (#[trigger] trace[j]).before == (#[trigger] trace[i]).after
            &&& trace[j].position == trace[i].cursor
        }
}

/// `trace` is the record of a whole pass that took a vector from `start`
/// to `end`: its visits follow one another, and after the last of them the
/// cursor points at no element. The pass over an empty vector has no
/// visits.
pub open spec fn is_pass<T>(trace: Seq<Visit<T>>, start: Seq<T>, end: Seq<T>) -> bool {
    &&& links(trace, start)
    &&& if trace.len() == 0 {
        start.len() == 0 && end == start
    } else {
        trace.last().after == end && trace.last().cursor >= end.len()
    }
}

/// The elements that the handles of a pass were bound to, in the order of
/// the visits.
pub open spec fn visited<T>(trace: Seq<Visit<T>>) -> Seq<T> {
    Seq::new(trace.len(), |i: int| trace[i].element())
}

/// `a` and `b` in turns, an element of `a` first.
pub open spec fn alternate<T>(a: Seq<T>, b: Seq<T>) -> Seq<T>
    recommends
        a.len() == b.len(),
{
    Seq::new(
        2 * a.len(),
        |i: int|
            if i % 2 == 0 {
                a[i / 2]
            } else {
                b[i / 2]
            },
    )
}

/// Where a pass stands after its first `n` visits, each of which only set
/// its element: at index `n`, with the first `n` elements replaced and the
/// others as they were.
proof fn lemma_set_only_prefix<T>(trace: Seq<Visit<T>>, start: Seq<T>, values: Seq<T>, n: int)
    requires
        links(trace, start),
        values.len() == trace.len(),
        forall|i: int| 0 <= i < trace.len() ==> (#[trigger] trace[i]).sets(values[i]),
        0 < n <= trace.len(),
    ensures
        trace[n - 1].position == n - 1,
        trace[n - 1].cursor == n,
        n <= start.len(),
        trace[n - 1].element() == start[n - 1],
        trace[n - 1].after == values.take(n) + start.skip(n),
    decreases n,
{
    let visit = trace[n - 1];
    if n > 1 {
        lemma_set_only_prefix(trace, start, values, n - 1);
        assert(visit.before == values.take(n - 1) + start.skip(n - 1));
    } else {
        assert(visit.before =~= values.take(0) + start.skip(0));
    }
    assert(visit.after =~= values.take(n) + start.skip(n));
}

/// A pass in which every visit only sets its element goes over the indices
/// of the vector one by one, and hands out the elements that the vector
/// began with. The vector keeps its length, and ends up holding at each
/// index what the visit there set: `values[i]` is what the `i`-th visit
/// decided on.
pub proof fn law_set_only_pass<T>(
    trace: Seq<Visit<T>>,
    start: Seq<T>,
    end: Seq<T>,
    values: Seq<T>,
)
    requires
        is_pass(trace, start, end),
        values.len() == trace.len(),
        forall|i: int| 0 <= i < trace.len() ==> (#[trigger] trace[i]).sets(values[i]),
    ensures
        end.len() == start.len(),
        end == values,
        visited(trace) == start,
        forall|i: int| 0 <= i < trace.len() ==> (#[trigger] trace[i]).position == i,
{
    let n = trace.len() as int;
    if n > 0 {
        lemma_set_only_prefix(trace, start, values, n);
        assert(n == start.len());
        assert forall|i: int| 0 <= i < n implies (#[trigger] trace[i]).position == i
            && trace[i].element() == start[i] by {
            lemma_set_only_prefix(trace, start, values, i + 1);
        }
    }
    assert(end =~= values);
    assert(visited(trace) =~= start);
}

/// Where a pass stands after its first `n` visits, each of which
/// discarded its element: still at index 0, with the first `n` elements
/// gone.
proof fn lemma_discard_prefix<T>(trace: Seq<Visit<T>>, start: Seq<T>, n: int)
    requires
        links(trace, start),
        forall|i: int| 0 <= i < trace.len() ==> (#[trigger] trace[i]).discards(),
        0 < n <= trace.len(),
    ensures
        trace[n - 1].position == 0,
        trace[n - 1].cursor == 0,
        n <= start.len(),
        trace[n - 1].before == start.skip(n - 1),
        trace[n - 1].after == start.skip(n),
    decreases n,
{
    let visit = trace[n - 1];
    if n > 1 {
        lemma_discard_prefix(trace, start, n - 1);
    }
    assert(visit.before =~= start.skip(n - 1));
    assert(visit.after =~= start.skip(n));
}

/// A pass in which every visit discards its element leaves the vector
/// empty. It has one visit for each element of the vector it began with,
/// and the visits hand out (and their discards return) these elements in
/// the order they had in it, each once.
pub proof fn law_discard_every_element<T>(trace: Seq<Visit<T>>, start: Seq<T>, end: Seq<T>)
    requires
        is_pass(trace, start, end),
        forall|i: int| 0 <= i < trace.len() ==> (#[trigger] trace[i]).discards(),
    ensures
        end == Seq::<T>::empty(),
        trace.len() == start.len(),
        visited(trace) == start,
{
    let n = trace.len() as int;
    if n > 0 {
        lemma_discard_prefix(trace, start, n);
        assert(end.len() == 0);
        assert(n == start.len());
        assert forall|i: int| 0 <= i < n implies (#[trigger] trace[i]).element() == start[i] by {
            lemma_discard_prefix(trace, start, i + 1);
        }
    }
    assert(end =~= Seq::<T>::empty());
    assert(visited(trace) =~= start);
}

/// Where a pass stands after its first `n` visits, each of which inserted
/// one element after its own and skipped it: at index `2 * n`, with an
/// inserted element after each of the first `n` elements.
proof fn lemma_insert_and_skip_prefix<T>(
    trace: Seq<Visit<T>>,
    start: Seq<T>,
    values: Seq<T>,
    n: int,
)
    requires
        links(trace, start),
        values.len() == trace.len(),
        forall|i: int| 0 <= i < trace.len() ==> (#[trigger] trace[i]).inserts_and_skips(values[i]),
        0 < n <= trace.len(),
    ensures
        trace[n - 1].position == 2 * (n - 1),
        trace[n - 1].cursor == 2 * n,
        n <= start.len(),
        trace[n - 1].element() == start[n - 1],
        trace[n - 1].after.len() == start.len() + n,
        forall|k: int|
            0 <= k < n ==> #[trigger] start[k] == trace[n - 1].after[2 * k] && values[k]
                == trace[n - 1].after[2 * k + 1],
        forall|k: int| n <= k < start.len() ==> #[trigger] start[k] == trace[n - 1].after[k + n],
    decreases n,
{
    let visit = trace[n - 1];
    let before = visit.before;
    let after = visit.after;
    if n > 1 {
        lemma_insert_and_skip_prefix(trace, start, values, n - 1);
        assert(before == trace[n - 2].after);
    }
    assert(before.len() == start.len() + n - 1);
    assert(visit.position == 2 * (n - 1));
    assert forall|k: int| n - 1 <= k < start.len() implies #[trigger] start[k] == before[k + n
        - 1] by {}
    assert(visit.element() == start[n - 1]);
    assert(after == before.insert(2 * n - 1, values[n - 1]));
    assert forall|k: int| 0 <= k < n implies #[trigger] start[k] == after[2 * k] && values[k]
        == after[2 * k + 1] by {
        if k < n - 1 {
            assert(start[k] == before[2 * k] && values[k] == before[2 * k + 1]);
        }
    }
    assert forall|k: int| n <= k < start.len() implies #[trigger] start[k] == after[k + n] by {
        assert(after[k + n] == before[k + n - 1]);
    }
}

/// A pass in which every visit calls `insert_and_skip` once doubles the
/// vector: the elements it began with and the inserted ones take turns,
/// `values[i]` being what the `i`-th visit inserted. The pass has one
/// visit for each element it began with, and these are the elements it
/// hands out: no inserted element is visited.
pub proof fn law_insert_and_skip_every_element<T>(
    trace: Seq<Visit<T>>,
    start: Seq<T>,
    end: Seq<T>,
    values: Seq<T>,
)
    requires
        is_pass(trace, start, end),
        values.len() == trace.len(),
        forall|i: int| 0 <= i < trace.len() ==> (#[trigger] trace[i]).inserts_and_skips(values[i]),
    ensures
        end.len() == 2 * start.len(),
        end == alternate(start, values),
        trace.len() == start.len(),
        visited(trace) == start,
        forall|i: int| 0 <= i < trace.len() ==> (#[trigger] trace[i]).position == 2 * i,
{
    let n = trace.len() as int;
    if n > 0 {
        assert(n == start.len() && end.len() == 2 * n) by {
            lemma_insert_and_skip_prefix(trace, start, values, n);
        }
        assert forall|j: int| 0 <= j < 2 * n implies #[trigger] end[j] == alternate(
            start,
            values,
        )[j] by {
            lemma_insert_and_skip_prefix(trace, start, values, n);
            let k = j / 2;
            assert(start[k] == end[2 * k] && values[k] == end[2 * k + 1]);
        }
        assert forall|i: int| 0 <= i < n implies (#[trigger] trace[i]).position == 2 * i
            && trace[i].element() == start[i] by {
            lemma_insert_and_skip_prefix(trace, start, values, i + 1);
        }
    }
    assert(end =~= alternate(start, values));
    assert(visited(trace) =~= start);
}

/// In a pass whose first visit calls `insert_and_process(value)` once, the
/// inserted element is the one that the second visit hands out: it is
/// visited later in the same pass, at the index after the first.
pub proof fn law_insert_and_process_is_visited<T>(
    trace: Seq<Visit<T>>,
    start: Seq<T>,
    end: Seq<T>,
    value: T,
)
    requires
        is_pass(trace, start, end),
        trace.len() > 0,
        trace[0].inserts_and_processes(value),
    ensures
        trace.len() >= 2,
        trace[1].position == trace[0].position + 1,
        visited(trace)[1] == value,
{
    assert(trace[0].position < trace[0].before.len());
    if trace.len() == 1 {
        assert(trace.last() == trace[0]);
        assert(false);
    }
    assert(trace[1].before == trace[0].after);
}

/// In a pass whose visits all leave the cursor at or after their own index,
/// as every operation of a handle does, the visits come in the order of
/// their indices: no visit is at an index before that of an earlier one.
pub proof fn law_visits_in_order<T>(trace: Seq<Visit<T>>, start: Seq<T>, i: int, j: int)
    requires
        links(trace, start),
        forall|k: int| 0 <= k < trace.len() ==> (#[trigger] trace[k]).cursor >= trace[k].position,
        0 <= i <= j < trace.len(),
    ensures
        trace[i].position <= trace[j].position,
    decreases j - i,
{
    if i < j {
        law_visits_in_order(trace, start, i, j - 1);
        assert(trace[j].position == trace[j - 1].cursor);
    }
}

/// In a pass, the visit that ends with `stop_iteration()` is the last one:
/// where the `k`-th visit stops, exactly `k` elements are visited, however
/// long the vector is.
pub proof fn law_stop_ends_pass<T>(trace: Seq<Visit<T>>, start: Seq<T>, end: Seq<T>, k: int)
    requires
        is_pass(trace, start, end),
        1 <= k <= trace.len(),
        trace[k - 1].stops(),
    ensures
        trace.len() == k,
        visited(trace).len() == k,
        end == trace[k - 1].after,
{
    if k < trace.len() {
        assert(trace[k].position == trace[k - 1].cursor);
        assert(trace[k].position < trace[k].before.len());
    }
}

} // verus!
