//! A fixed-capacity ring that overwrites its oldest element when full and
//! never allocates after construction.
use vstd::prelude::*;
use crate::v2_safe_abstraction::{slot, live};

verus! {

/// Ring of `capacity` slots. When full, a push replaces the oldest element;
/// the replaced element is dropped only after the ring is consistent again.
pub struct Ring<T> {
    buf: Vec<Option<T>>,
    /// Physical index of the oldest element.
    start: usize,
    /// Number of elements held.
    len: usize,
}

impl<T> Ring<T> {
    pub closed spec fn wf(&self) -> bool {
        let cap = self.buf@.len() as int;
        &&& cap > 0
        &&& self.len <= cap
        &&& self.start < cap
        &&& forall|j: int|
            0 <= j < cap ==> (#[trigger] self.buf@[j] is Some <==> live(
                self.start as int,
                self.len as int,
                cap,
                j,
            ))
    }

    pub closed spec fn capacity_spec(&self) -> nat {
        self.buf@.len()
    }

    pub closed spec fn elems(&self) -> Seq<T> {
        Seq::new(
            self.len as nat,
            |i: int| self.buf@[slot(self.start as int, i, self.buf@.len() as int)]->0,
        )
    }
}

impl<T> View for Ring<T> {
    type V = Seq<T>;

    closed spec fn view(&self) -> Seq<T> {
        self.elems()
    }
}

/// What a push does to the contents of a ring of capacity `cap`: append, and
/// drop the oldest element when that exceeds the capacity.
pub open spec fn pushed<T>(s: Seq<T>, x: T, cap: nat) -> Seq<T> {
    if s.len() < cap {
        s.push(x)
    } else {
        s.drop_first().push(x)
    }
}

impl<T> Ring<T> {
    /// Allocates `cap` empty slots once; `cap` must be positive.
    pub fn with_capacity(cap: usize) -> (r: Self)
        requires
            cap > 0,
        ensures
            r.wf(),
            r@ == Seq::<T>::empty(),
            r.capacity_spec() == cap,
    {
        let mut buf: Vec<Option<T>> = Vec::new();
        let mut i: usize = 0;
        while i < cap
            invariant
                i <= cap,
                buf@.len() == i,
                forall|j: int| 0 <= j < i ==> #[trigger] buf@[j] is None,
            decreases cap - i,
        {
            buf.push(None);
            i += 1;
        }
        let r = Ring { buf, start: 0, len: 0 };
        assert(r.elems() =~= Seq::<T>::empty());
        r
    }

    pub fn capacity(&self) -> (c: usize)
        ensures
            c == self.capacity_spec(),
    {
        self.buf.len()
    }

    pub fn len(&self) -> (n: usize)
        ensures
            n == self@.len(),
    {
        self.len
    }

    pub fn is_empty(&self) -> (b: bool)
        ensures
            b == (self@.len() == 0),
    {
        self.len == 0
    }

    /// Appends `value`; when the ring is full the oldest element is replaced.
    pub fn push(&mut self, value: T)
        requires
            old(self).wf(),
        ensures
            final(self).wf(),
            final(self).capacity_spec() == old(self).capacity_spec(),
            final(self)@ == pushed(old(self)@, value, old(self).capacity_spec()),
    {
        let cap = self.buf.len();
        let ghost old_buf = self.buf@;
        let ghost old_elems = self.elems();
        if self.len < cap {
            let idx = if self.len < cap - self.start {
                self.start + self.len
            } else {
                self.len - (cap - self.start)
            };
            self.buf.set(idx, Some(value));
            self.len = self.len + 1;
            proof {
                assert(!live(self.start as int, old(self).len as int, cap as int, idx as int));
                assert forall|j: int| 0 <= j < cap implies (#[trigger] self.buf@[j] is Some
                    <==> live(self.start as int, self.len as int, cap as int, j)) by {
                    if j != idx {
                        assert(self.buf@[j] == old_buf[j]);
                    }
                }
                assert forall|i: int| 0 <= i < old_elems.len() implies #[trigger] self.elems()[i]
                    == old_elems[i] by {
                    let s = slot(self.start as int, i, cap as int);
                    assert(live(self.start as int, old(self).len as int, cap as int, s));
                    assert(s != idx);
                }
                assert(self.elems() =~= old_elems.push(value));
            }
        } else {
            // Full: the oldest slot is the one to write. Move the old value
            // out, store the new one, restore every invariant, and only then
            // let the old value go.
            let idx = self.start;
            let mut replaced: Option<T> = Some(value);
            std::mem::swap(&mut replaced, &mut self.buf[idx]);
            self.start = if self.start + 1 == cap {
                0
            } else {
                self.start + 1
            };
            proof {
                assert forall|j: int| 0 <= j < cap implies (#[trigger] self.buf@[j] is Some
                    <==> live(self.start as int, self.len as int, cap as int, j)) by {
                    if j != idx {
                        assert(self.buf@[j] == old_buf[j]);
                    }
                }
                assert forall|i: int| 0 <= i < self.len implies #[trigger] self.elems()[i]
                    == old_elems.drop_first().push(value)[i] by {
                    let s = slot(self.start as int, i, cap as int);
                    if i < self.len - 1 {
                        assert(s == slot(idx as int, i + 1, cap as int));
                        assert(s != idx);
                    } else {
                        assert(s == idx);
                    }
                }
                assert(self.elems() =~= old_elems.drop_first().push(value));
            }

        }
    }

    /// The `i`-th oldest element (0 is the oldest); `None` past the end.
    pub fn get(&self, i: usize) -> (r: Option<&T>)
        requires
            self.wf(),
        ensures
            i >= self@.len() ==> r is None,
            i < self@.len() ==> r == Some(&self@[i as int]),
    {
        if i >= self.len {
            return None;
        }
        let cap = self.buf.len();
        let idx = if i < cap - self.start {
            self.start + i
        } else {
            i - (cap - self.start)
        };
        match &self.buf[idx] {
            Some(x) => Some(x),
            None => None,
        }
    }
}

/// A ring never holds more than its capacity, and after pushing the last
/// `cap` pushed values are what it holds, oldest first.
pub proof fn law_push_keeps_newest<T>(s: Seq<T>, x: T, cap: nat)
    requires
        s.len() <= cap,
        cap > 0,
    ensures
        pushed(s, x, cap).len() <= cap,
        pushed(s, x, cap).last() == x,
        pushed(s, x, cap).len() == if s.len() < cap { s.len() + 1 } else { cap },
{
}

} // verus!
