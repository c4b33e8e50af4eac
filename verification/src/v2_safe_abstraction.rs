//! A fixed-capacity FIFO ring buffer with a safe interface. Slots outside
//! the live range hold nothing; the live range may wrap around the end.
use vstd::prelude::*;

verus! {

/// Fixed-capacity ring buffer. `push_back` on a full buffer hands the value
/// back instead of overwriting.
pub struct RingBuffer<T> {
    buf: Vec<Option<T>>,
    /// Physical index of the front element.
    head: usize,
    /// Number of elements in the queue.
    len: usize,
}

/// Physical slot of logical position `i` for a queue starting at `head`.
pub open spec fn slot(head: int, i: int, cap: int) -> int {
    if head + i < cap {
        head + i
    } else {
        head + i - cap
    }
}

/// Whether physical slot `j` lies in the live range `[head, head+len)`, taken
/// around the end.
pub open spec fn live(head: int, len: int, cap: int, j: int) -> bool {
    if head + len <= cap {
        head <= j < head + len
    } else {
        j >= head || j < head + len - cap
    }
}

impl<T> RingBuffer<T> {
    /// Well-formedness: lengths agree, indices are in range, and exactly the
    /// live slots are occupied.
    pub closed spec fn wf(&self) -> bool {
        let cap = self.buf@.len() as int;
        &&& self.len <= cap
        &&& (cap > 0 ==> self.head < cap)
        &&& (cap == 0 ==> self.head == 0)
        &&& forall|j: int|
            0 <= j < cap ==> (#[trigger] self.buf@[j] is Some <==> live(
                self.head as int,
                self.len as int,
                cap,
                j,
            ))
    }

    pub closed spec fn capacity_spec(&self) -> nat {
        self.buf@.len()
    }

    /// The queued elements, front first.
    pub closed spec fn elems(&self) -> Seq<T> {
        Seq::new(
            self.len as nat,
            |i: int| self.buf@[slot(self.head as int, i, self.buf@.len() as int)]->0,
        )
    }
}

impl<T> View for RingBuffer<T> {
    type V = Seq<T>;

    closed spec fn view(&self) -> Seq<T> {
        self.elems()
    }
}

impl<T> RingBuffer<T> {
    /// An empty buffer with `capacity` slots; capacity 0 is allowed (such a
    /// buffer is always both full and empty).
    pub fn with_capacity(capacity: usize) -> (rb: Self)
        ensures
            rb.wf(),
            rb@ == Seq::<T>::empty(),
            rb.capacity_spec() == capacity,
    {
        let mut buf: Vec<Option<T>> = Vec::new();
        let mut i: usize = 0;
        while i < capacity
            invariant
                i <= capacity,
                buf@.len() == i,
                forall|j: int| 0 <= j < i ==> #[trigger] buf@[j] is None,
            decreases capacity - i,
        {
            buf.push(None);
            i += 1;
        }
        let rb = RingBuffer { buf, head: 0, len: 0 };
        assert(rb.elems() =~= Seq::<T>::empty());
        rb
    }

    pub fn capacity(&self) -> (c: usize)
        ensures
            c == self.capacity_spec(),
    {
        self.buf.len()
    }

    pub fn len(&self) -> (n: usize)
        ensures
            n == self@.len(),
    {
        self.len
    }

    pub fn is_empty(&self) -> (b: bool)
        ensures
            b == (self@.len() == 0),
    {
        self.len == 0
    }

    pub fn is_full(&self) -> (b: bool)
        ensures
            b == (self@.len() == self.capacity_spec()),
    {
        self.len == self.buf.len()
    }

    /// The physical slot of logical position `logical`, wrapped around the
    /// end of the buffer; always below the capacity.
    fn physical_index(&self, logical: usize) -> (idx: usize)
        requires
            self.wf(),
            logical < self.capacity_spec(),
        ensures
            idx == slot(self.head as int, logical as int, self.capacity_spec() as int),
            idx < self.capacity_spec(),
    {
        let cap = self.buf.len();
        if logical < cap - self.head {
            self.head + logical
        } else {
            logical - (cap - self.head)
        }
    }

    /// Appends `value` at the back, or hands it back when the buffer is full.
    pub fn push_back(&mut self, value: T) -> (r: Result<(), T>)
        requires
            old(self).wf(),
        ensures
            final(self).wf(),
            final(self).capacity_spec() == old(self).capacity_spec(),
            old(self)@.len() < old(self).capacity_spec() ==> r is Ok && final(self)@ == old(self)@.push(value),
            old(self)@.len() == old(self).capacity_spec() ==> r == Err::<(), T>(value) && final(self)@ == old(self)@,
    {
        let cap = self.buf.len();
        if self.len == cap {
            return Err(value);
        }
        let idx = self.physical_index(self.len);
        let ghost old_buf = self.buf@;
        let ghost old_elems = self.elems();
        self.buf.set(idx, Some(value));
        self.len = self.len + 1;
        proof {
            assert(!live(self.head as int, old(self).len as int, cap as int, idx as int));
            assert forall|j: int| 0 <= j < cap implies (#[trigger] self.buf@[j] is Some <==> live(
                self.head as int,
                self.len as int,
                cap as int,
                j,
            )) by {
                if j != idx {
                    assert(self.buf@[j] == old_buf[j]);
                }
            }
            assert forall|i: int| 0 <= i < old_elems.len() implies #[trigger] self.elems()[i]
                == old_elems[i] by {
                let s = slot(self.head as int, i, cap as int);
                assert(live(self.head as int, old(self).len as int, cap as int, s));
                assert(s != idx);
            }
            assert(self.elems() =~= old_elems.push(value));
        }
        Ok(())
    }

    /// Removes and returns the front element; `None` when empty.
    pub fn pop_front(&mut self) -> (r: Option<T>)
        requires
            old(self).wf(),
        ensures
            final(self).wf(),
            final(self).capacity_spec() == old(self).capacity_spec(),
            old(self)@.len() == 0 ==> r is None && final(self)@ == old(self)@,
            old(self)@.len() > 0 ==> r == Some(old(self)@[0]) && final(self)@ == old(self)@.drop_first(),
    {
        if self.len == 0 {
            return None;
        }
        let cap = self.buf.len();
        let idx = self.physical_index(0);
        let ghost old_buf = self.buf@;
        let ghost old_elems = self.elems();
        let mut taken: Option<T> = None;
        std::mem::swap(&mut taken, &mut self.buf[idx]);
        self.head = if self.head + 1 == cap {
            0
        } else {
            self.head + 1
        };
        self.len = self.len - 1;
        proof {
            assert(old_buf[idx as int] is Some);
            assert forall|j: int| 0 <= j < cap implies (#[trigger] self.buf@[j] is Some <==> live(
                self.head as int,
                self.len as int,
                cap as int,
                j,
            )) by {
                if j != idx {
                    assert(self.buf@[j] == old_buf[j]);
                }
            }
            assert forall|i: int| 0 <= i < self.len implies #[trigger] self.elems()[i]
                == old_elems[i + 1] by {
                let s = slot(self.head as int, i, cap as int);
                assert(s == slot(idx as int, i + 1, cap as int));
                assert(s != idx);
            }
            assert(self.elems() =~= old_elems.drop_first());
        }
        taken
    }

    /// The front element, borrowed; `None` when empty.
    pub fn front(&self) -> (r: Option<&T>)
        requires
            self.wf(),
        ensures
            self@.len() == 0 ==> r is None,
            self@.len() > 0 ==> r == Some(&self@[0]),
    {
        if self.len == 0 {
            return None;
        }
        let idx = self.physical_index(0);
        match &self.buf[idx] {
            Some(x) => Some(x),
            None => None,
        }
    }

    /// Drops every queued element; the buffer is empty afterwards.
    pub fn clear(&mut self)
        requires
            old(self).wf(),
        ensures
            final(self).wf(),
            final(self)@ == Seq::<T>::empty(),
            final(self).capacity_spec() == old(self).capacity_spec(),
    {
        while self.len > 0
            invariant
                self.wf(),
                self.capacity_spec() == old(self).capacity_spec(),
            decreases self@.len(),
        {
            let _ = self.pop_front();
        }
        assert(self.elems() =~= Seq::<T>::empty());
    }
}

/// First in, first out: popping a buffer that received `x` when it held
/// `q` gives the front of `q` (or `x` when `q` was empty), and the remaining
/// queue keeps `x` at its back.
pub proof fn law_fifo<T>(q: Seq<T>, x: T)
    ensures
        q.len() == 0 ==> q.push(x)[0] == x && q.push(x).drop_first() == q,
        q.len() > 0 ==> q.push(x)[0] == q[0] && q.push(x).drop_first() == q.drop_first().push(x),
{
    assert(q.len() == 0 ==> q.push(x).drop_first() =~= q);
    assert(q.len() > 0 ==> q.push(x).drop_first() =~= q.drop_first().push(x));
}

} // verus!
