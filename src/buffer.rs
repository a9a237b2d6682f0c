use vstd::prelude::*;

use std::collections::VecDeque;

use crate::types::{same_error_event, same_log_event, ErrorEvent, LogEvent};

verus! {

broadcast use vstd::std_specs::vecdeque::axiom_spec_len;

/// The last `n` items of `s`, in their order; all of `s` when it is no longer.
pub open spec fn keep_last<T>(s: Seq<T>, n: nat) -> Seq<T> {
    if s.len() > n {
        s.subrange(s.len() - n, s.len() as int)
    } else {
        s
    }
}

/// What a buffer of capacity `n` holds after `xs` are pushed, in order, onto `s`.
pub open spec fn push_all<T>(s: Seq<T>, xs: Seq<T>, n: nat) -> Seq<T>
    decreases xs.len(),
{
    if xs.len() == 0 {
        s
    } else {
        keep_last(push_all(s, xs.drop_last(), n).push(xs.last()), n)
    }
}

/// A first-in first-out buffer that never holds more than its capacity: a push
/// onto a full buffer evicts the oldest item first.
pub struct BoundedBuffer<T> {
    items: VecDeque<T>,
    capacity: usize,
}

impl<T> View for BoundedBuffer<T> {
    type V = Seq<T>;

    closed spec fn view(&self) -> Seq<T> {
        self.items@
    }
}

impl<T> BoundedBuffer<T> {
    pub closed spec fn spec_capacity(&self) -> nat {
        self.capacity as nat
    }

    /// The buffer holds no more than its capacity.
    pub open spec fn wf(&self) -> bool {
        self@.len() <= self.spec_capacity()
    }

    /// An empty buffer of the given capacity.
    pub fn new(capacity: usize) -> (r: Self)
        ensures
            r.wf(),
            r@ == Seq::<T>::empty(),
            r.spec_capacity() == capacity,
    {
        BoundedBuffer { items: VecDeque::with_capacity(capacity), capacity }
    }

    pub fn capacity(&self) -> (r: usize)
        ensures
            r == self.spec_capacity(),
    {
        self.capacity
    }

    pub fn len(&self) -> (r: usize)
        ensures
            r == self@.len(),
    {
        self.items.len()
    }

    /// Appends `item`, evicting the oldest item first when the buffer is full.
    pub fn push(&mut self, item: T)
        requires
            old(self).wf(),
        ensures
            final(self).wf(),
            final(self).spec_capacity() == old(self).spec_capacity(),
            final(self)@ == keep_last(old(self)@.push(item), old(self).spec_capacity()),
    {
        if self.capacity == 0 {
            proof {
                assert(old(self)@.push(item).subrange(1, 1) =~= Seq::<T>::empty());
            }
            return;
        }
        if self.items.len() == self.capacity {
            let _ = self.items.pop_front();
        }
        self.items.push_back(item);
        proof {
            let s = old(self)@.push(item);
            if s.len() > self.capacity {
                assert(self@ =~= s.subrange(s.len() - self.capacity, s.len() as int));
            }
        }
    }

    /// Drops every item.
    pub fn clear(&mut self)
        ensures
            final(self).wf(),
            final(self)@ == Seq::<T>::empty(),
            final(self).spec_capacity() == old(self).spec_capacity(),
    {
        self.items.clear();
    }

    /// The item at position `i`, oldest first.
    pub fn get(&self, i: usize) -> (r: &T)
        requires
            i < self@.len(),
        ensures
            *r == self@[i as int],
    {
        &self.items[i]
    }
}

/// Whatever the capacity and whatever is pushed, an empty buffer never holds
/// more than its capacity, and holds exactly the last pushed items in the order
/// they were pushed.
pub proof fn lemma_push_all_keeps_last<T>(xs: Seq<T>, n: nat)
    ensures
        push_all(Seq::<T>::empty(), xs, n) == keep_last(xs, n),
        push_all(Seq::<T>::empty(), xs, n).len() <= n,
    decreases xs.len(),
{
    if xs.len() > 0 {
        lemma_push_all_keeps_last(xs.drop_last(), n);
        let p = keep_last(xs.drop_last(), n);
        let q = p.push(xs.last());
        if xs.len() > n {
            if xs.len() - 1 > n {
                assert(keep_last(q, n) =~= keep_last(xs, n));
            } else {
                assert(keep_last(q, n) =~= keep_last(xs, n));
            }
        } else {
            assert(q =~= xs);
        }
    }
}

/// One bounded buffer for informational events and one for warnings and errors.
pub struct InMemoryBufferManager {
    info_buffer: BoundedBuffer<LogEvent>,
    error_buffer: BoundedBuffer<ErrorEvent>,
    max_size: usize,
}

impl InMemoryBufferManager {
    pub open spec fn info(&self) -> Seq<LogEvent> {
        self.spec_info_buffer()@
    }

    pub open spec fn errors(&self) -> Seq<ErrorEvent> {
        self.spec_error_buffer()@
    }

    pub closed spec fn spec_info_buffer(&self) -> BoundedBuffer<LogEvent> {
        self.info_buffer
    }

    pub closed spec fn spec_error_buffer(&self) -> BoundedBuffer<ErrorEvent> {
        self.error_buffer
    }

    pub closed spec fn spec_max_size(&self) -> nat {
        self.max_size as nat
    }

    pub closed spec fn wf(&self) -> bool {
        &&& self.info_buffer.wf()
        &&& self.error_buffer.wf()
        &&& self.info_buffer.spec_capacity() == self.max_size
        &&& self.error_buffer.spec_capacity() == self.max_size
    }

    /// Two empty buffers, each holding at most `max_size` events.
    pub fn new(max_size: usize) -> (r: Self)
        ensures
            r.wf(),
            r.spec_max_size() == max_size,
            r.info() == Seq::<LogEvent>::empty(),
            r.errors() == Seq::<ErrorEvent>::empty(),
    {
        InMemoryBufferManager {
            info_buffer: BoundedBuffer::new(max_size),
            error_buffer: BoundedBuffer::new(max_size),
            max_size,
        }
    }

    /// Records a copy of an informational event.
    pub fn buffer_info(&mut self, event: &LogEvent)
        requires
            old(self).wf(),
        ensures
            final(self).wf(),
            final(self).spec_max_size() == old(self).spec_max_size(),
            final(self).errors() == old(self).errors(),
            final(self).info().len() == keep_last(
                old(self).info().push(*event),
                old(self).spec_max_size(),
            ).len(),
            forall|i: int|
                0 <= i < final(self).info().len() ==> same_log_event(
                    #[trigger] final(self).info()[i],
                    keep_last(old(self).info().push(*event), old(self).spec_max_size())[i],
                ),
    {
        let copy = event.clone();
        self.info_buffer.push(copy);
        proof {
            let cap = old(self).spec_max_size();
            let a = old(self).info().push(copy);
            let b = old(self).info().push(*event);
            assert forall|i: int| 0 <= i < keep_last(a, cap).len() implies same_log_event(
                keep_last(a, cap)[i],
                keep_last(b, cap)[i],
            ) by {
                if a.len() > cap {
                    assert(keep_last(a, cap)[i] == a[a.len() - cap + i]);
                    assert(keep_last(b, cap)[i] == b[b.len() - cap + i]);
                }
            }
        }
    }

    /// Records a copy of a warning: warnings share the buffer of errors.
    pub fn buffer_warning(&mut self, event: &ErrorEvent)
        requires
            old(self).wf(),
        ensures
            final(self).wf(),
            final(self).spec_max_size() == old(self).spec_max_size(),
            final(self).info() == old(self).info(),
            final(self).errors().len() == keep_last(
                old(self).errors().push(*event),
                old(self).spec_max_size(),
            ).len(),
            forall|i: int|
                0 <= i < final(self).errors().len() ==> same_error_event(
                    #[trigger] final(self).errors()[i],
                    keep_last(old(self).errors().push(*event), old(self).spec_max_size())[i],
                ),
    {
        self.buffer_error(event)
    }

    /// Records a copy of a warning or error event.
    pub fn buffer_error(&mut self, event: &ErrorEvent)
        requires
            old(self).wf(),
        ensures
            final(self).wf(),
            final(self).spec_max_size() == old(self).spec_max_size(),
            final(self).info() == old(self).info(),
            final(self).errors().len() == keep_last(
                old(self).errors().push(*event),
                old(self).spec_max_size(),
            ).len(),
            forall|i: int|
                0 <= i < final(self).errors().len() ==> same_error_event(
                    #[trigger] final(self).errors()[i],
                    keep_last(old(self).errors().push(*event), old(self).spec_max_size())[i],
                ),
    {
        let copy = event.clone();
        self.error_buffer.push(copy);
        proof {
            let cap = old(self).spec_max_size();
            let a = old(self).errors().push(copy);
            let b = old(self).errors().push(*event);
            assert forall|i: int| 0 <= i < keep_last(a, cap).len() implies same_error_event(
                keep_last(a, cap)[i],
                keep_last(b, cap)[i],
            ) by {
                if a.len() > cap {
                    assert(keep_last(a, cap)[i] == a[a.len() - cap + i]);
                    assert(keep_last(b, cap)[i] == b[b.len() - cap + i]);
                }
            }
        }
    }

    /// Copies of both buffers, oldest first: informational events, then
    /// warnings and errors.
    pub fn snapshot(&self) -> (r: (Vec<LogEvent>, Vec<ErrorEvent>))
        requires
            self.wf(),
        ensures
            r.0.len() == self.info().len(),
            r.1.len() == self.errors().len(),
            forall|i: int| 0 <= i < r.0.len() ==> same_log_event(#[trigger] r.0[i], self.info()[i]),
            forall|i: int|
                0 <= i < r.1.len() ==> same_error_event(#[trigger] r.1[i], self.errors()[i]),
    {
        let mut info: Vec<LogEvent> = Vec::new();
        let mut i: usize = 0;
        let n = self.info_buffer.len();
        while i < n
            invariant
                n == self.info().len(),
                i <= n,
                info.len() == i,
                forall|j: int| 0 <= j < i ==> same_log_event(#[trigger] info[j], self.info()[j]),
            decreases n - i,
        {
            info.push(self.info_buffer.get(i).clone());
            i = i + 1;
        }
        let mut errors: Vec<ErrorEvent> = Vec::new();
        let mut k: usize = 0;
        let m = self.error_buffer.len();
        while k < m
            invariant
                m == self.errors().len(),
                k <= m,
                errors.len() == k,
                forall|j: int| 0 <= j < k ==> same_error_event(#[trigger] errors[j], self.errors()[j]),
            decreases m - k,
        {
            errors.push(self.error_buffer.get(k).clone());
            k = k + 1;
        }
        (info, errors)
    }

    /// Empties both buffers.
    pub fn flush(&mut self)
        requires
            old(self).wf(),
        ensures
            final(self).wf(),
            final(self).spec_max_size() == old(self).spec_max_size(),
            final(self).info() == Seq::<LogEvent>::empty(),
            final(self).errors() == Seq::<ErrorEvent>::empty(),
    {
        self.info_buffer.clear();
        self.error_buffer.clear();
    }
}

} // verus!
