//! Event history as linked lists: an owning undo stack and a persistent,
//! shareable list whose versions share their tails.
use vstd::prelude::*;
use std::rc::Rc;

verus! {

// ───────────────── owning stack ─────────────────

/// The undo stack of events: `head` owns the first node, each node the next.
pub struct History<T> {
    head: Option<Box<Node<T>>>,
    len: usize,
}

struct Node<T> {
    elem: T,
    next: Option<Box<Node<T>>>,
}

/// The elements of a chain, newest first.
spec fn chain<T>(n: Option<Box<Node<T>>>) -> Seq<T>
    decreases n,
{
    match n {
        Some(b) => seq![b.elem] + chain(b.next),
        None => seq![],
    }
}

impl<T> View for History<T> {
    type V = Seq<T>;

    closed spec fn view(&self) -> Seq<T> {
        chain(self.head)
    }
}

impl<T> History<T> {
    /// The stored length agrees with the chain.
    pub closed spec fn wf(&self) -> bool {
        self.len == chain(self.head).len()
    }

    pub fn new() -> (h: Self)
        ensures
            h.wf(),
            h@ == Seq::<T>::empty(),
    {
        History { head: None, len: 0 }
    }

    pub fn len(&self) -> (n: usize)
        requires
            self.wf(),
        ensures
            n == self@.len(),
    {
        self.len
    }

    pub fn is_empty(&self) -> (b: bool)
        requires
            self.wf(),
        ensures
            b == (self@.len() == 0),
    {
        self.len == 0
    }

    /// A new event goes on top; the old chain becomes its tail.
    pub fn push(&mut self, elem: T)
        requires
            old(self).wf(),
            old(self)@.len() < usize::MAX,
        ensures
            final(self).wf(),
            final(self)@ == seq![elem] + old(self)@,
    {
        let mut old_head: Option<Box<Node<T>>> = None;
        std::mem::swap(&mut old_head, &mut self.head);
        self.head = Some(Box::new(Node { elem, next: old_head }));
        self.len = self.len + 1;
    }

    /// Takes the newest event off the stack; `None` when it is empty.
    pub fn pop(&mut self) -> (r: Option<T>)
        requires
            old(self).wf(),
        ensures
            final(self).wf(),
            old(self)@.len() == 0 ==> r is None && final(self)@ == old(self)@,
            old(self)@.len() > 0 ==> r == Some(old(self)@[0]) && final(self)@ == old(self)@.drop_first(),
    {
        let mut h: Option<Box<Node<T>>> = None;
        std::mem::swap(&mut h, &mut self.head);
        match h {
            Some(node) => {
                let Node { elem, next } = *node;
                self.head = next;
                self.len = self.len - 1;
                assert(old(self)@.drop_first() =~= chain(self.head));
                Some(elem)
            },
            None => {
                None
            },
        }
    }

    /// The newest event, borrowed.
    pub fn peek(&self) -> (r: Option<&T>)
        ensures
            self@.len() == 0 ==> r is None,
            self@.len() > 0 ==> r == Some(&self@[0]),
    {
        match &self.head {
            Some(node) => Some(&node.elem),
            None => None,
        }
    }

    /// The newest event, mutably borrowed.
    pub fn peek_mut(&mut self) -> (r: Option<&mut T>)
        requires
            old(self).wf(),
        ensures
            old(self)@.len() == 0 ==> r is None && final(self)@ == old(self)@,
            old(self)@.len() > 0 ==> r is Some && *r->0 == old(self)@[0],
            old(self)@.len() > 0 ==> final(self)@ == old(self)@.update(0, *final(r->0)),
            final(self).wf(),
    {
        match &mut self.head {
            Some(node) => {
                let r = &mut node.elem;
                Some(r)
            },
            None => None,
        }
    }

    /// The event at position `i` (0 is the newest), mutably borrowed; `None`
    /// past the end. Whatever is written through it is the history's event
    /// at that position afterwards, and the other events are unchanged.
    pub fn get_mut(&mut self, i: usize) -> (r: Option<&mut T>)
        requires
            old(self).wf(),
        ensures
            final(self).wf(),
            i >= old(self)@.len() ==> r is None && final(self)@ == old(self)@,
            i < old(self)@.len() ==> r is Some && *r->0 == old(self)@[i as int],
            i < old(self)@.len() ==> final(self)@ == old(self)@.update(i as int, *final(r->0)),
    {
        nth_mut(&mut self.head, i)
    }

    /// Edits every event in place, newest first: each becomes what `f`
    /// makes of it. The nodes stay where they are; nothing is copied.
    pub fn update_each<F: Fn(&T) -> T>(&mut self, f: F)
        requires
            old(self).wf(),
            forall|i: int| 0 <= i < old(self)@.len() ==> f.requires((&old(self)@[i],)),
        ensures
            final(self).wf(),
            final(self)@.len() == old(self)@.len(),
            forall|i: int| 0 <= i < old(self)@.len() ==> f.ensures((&old(self)@[i],), #[trigger] final(self)@[i]),
    {
        let ghost before = self@;
        assert(before == chain(self.head));
        assert forall|i: int| 0 <= i < chain(self.head).len() implies f.requires((&chain(self.head)[i],)) by {
            assert(chain(self.head)[i] == before[i]);
        }
        update_chain(&mut self.head, &f);
    }

    /// A borrowing iterator over the events, newest first; nothing is
    /// consumed.
    pub fn iter(&self) -> (it: Iter<'_, T>)
        ensures
            it.wf(),
            it.remaining() == self@,
    {
        let items = self.refs();
        let it = Iter { items, pos: 0 };
        assert(it.remaining() =~= self@);
        it
    }

    /// A consuming iterator: it takes the history and yields the events,
    /// newest first.
    pub fn into_iter(self) -> (it: IntoIter<T>)
        requires
            self.wf(),
        ensures
            it.wf(),
            it.remaining() == self@,
    {
        IntoIter(self)
    }

    /// References to every event, newest first; nothing is consumed.
    pub fn refs(&self) -> (v: Vec<&T>)
        ensures
            v@.map_values(|x: &T| *x) == self@,
    {
        let mut v: Vec<&T> = Vec::new();
        let mut cur: &Option<Box<Node<T>>> = &self.head;
        loop
            invariant
                v@.map_values(|x: &T| *x) + chain(*cur) == self@,
            ensures
                v@.map_values(|x: &T| *x) == self@,
            decreases chain(*cur).len(),
        {
            match cur {
                Some(node) => {
                    let ghost before = v@.map_values(|x: &T| *x);
                    v.push(&node.elem);
                    assert(v@.map_values(|x: &T| *x) =~= before.push(node.elem));
                    assert(before + chain(*cur) =~= before.push(node.elem) + chain(node.next));
                    cur = &node.next;
                },
                None => {
                    assert(v@.map_values(|x: &T| *x) + Seq::<T>::empty() =~= v@.map_values(|x: &T| *x));
                    break;
                },
            }
        }
        v
    }

    /// Every event, newest first, moved out; the history is consumed.
    pub fn into_vec(self) -> (v: Vec<T>)
        requires
            self.wf(),
        ensures
            v@ == self@,
    {
        let mut h = self;
        let mut v: Vec<T> = Vec::new();
        let ghost all = h@;
        while h.len > 0
            invariant
                h.wf(),
                v@ + h@ == all,
            decreases h.len,
        {
            let ghost before = h@;
            match h.pop() {
                Some(x) => {
                    v.push(x);
                    assert(v@ + h@ =~= v@.drop_last() + before);
                },
                None => {},
            }
        }
        assert(v@ + h@ =~= v@);
        v
    }
}

/// The element at position `i` of the chain, mutably borrowed.
fn nth_mut<T>(n: &mut Option<Box<Node<T>>>, i: usize) -> (r: Option<&mut T>)
    ensures
        i >= chain(*old(n)).len() ==> r is None && chain(*final(n)) == chain(*old(n)),
        i < chain(*old(n)).len() ==> r is Some && *r->0 == chain(*old(n))[i as int],
        i < chain(*old(n)).len() ==> chain(*final(n)) == chain(*old(n)).update(i as int, *final(r->0)),
    decreases i,
{
    match n {
        Some(node) => {
            if i == 0 {
                Some(&mut node.elem)
            } else {
                nth_mut(&mut node.next, i - 1)
            }
        },
        None => None,
    }
}

/// Replaces each element of the chain by what `f` makes of it.
fn update_chain<T, F: Fn(&T) -> T>(n: &mut Option<Box<Node<T>>>, f: &F)
    requires
        forall|i: int| 0 <= i < chain(*old(n)).len() ==> f.requires((&chain(*old(n))[i],)),
    ensures
        chain(*final(n)).len() == chain(*old(n)).len(),
        forall|i: int| 0 <= i < chain(*old(n)).len() ==> f.ensures((&chain(*old(n))[i],), #[trigger] chain(*final(n))[i]),
    decreases chain(*old(n)).len(),
{
    match n {
        Some(node) => {
            let ghost rest = chain(node.next);
            assert(chain(*old(n)) =~= seq![node.elem] + rest);
            assert(f.requires((&chain(*old(n))[0],)));
            let v = f(&node.elem);
            node.elem = v;
            assert forall|i: int| 0 <= i < rest.len() implies f.requires((&rest[i],)) by {
                assert(rest[i] == chain(*old(n))[i + 1]);
            }
            update_chain(&mut node.next, f);
            proof {
                let after = chain(node.next);
                assert(chain(*n) =~= seq![v] + after);
            }
        },
        None => {},
    }
}

/// Borrows the events of a history, newest first.
pub struct Iter<'a, T> {
    items: Vec<&'a T>,
    pos: usize,
}

impl<'a, T> Iter<'a, T> {
    /// The position lies within the events.
    pub closed spec fn wf(&self) -> bool {
        self.pos <= self.items@.len()
    }

    /// The events still to come.
    pub closed spec fn remaining(&self) -> Seq<T> {
        self.items@.map_values(|x: &T| *x).subrange(self.pos as int, self.items@.len() as int)
    }

    /// The next event, or `None` once all have been seen.
    pub fn next(&mut self) -> (r: Option<&'a T>)
        requires
            old(self).wf(),
        ensures
            final(self).wf(),
            old(self).remaining().len() == 0 ==> r is None && final(self).remaining() == old(self).remaining(),
            old(self).remaining().len() > 0 ==> (r matches Some(x) && *x == old(self).remaining()[0]
                && final(self).remaining() == old(self).remaining().drop_first()),
    {
        if self.pos < self.items.len() {
            let x = self.items[self.pos];
            self.pos = self.pos + 1;
            assert(self.remaining() =~= old(self).remaining().drop_first());
            Some(x)
        } else {
            None
        }
    }

    /// The events still to come, collected.
    pub fn to_vec(&mut self) -> (v: Vec<&'a T>)
        requires
            old(self).wf(),
        ensures
            v@.map_values(|x: &T| *x) == old(self).remaining(),
            final(self).remaining().len() == 0,
            final(self).wf(),
    {
        let mut v: Vec<&'a T> = Vec::new();
        while self.pos < self.items.len()
            invariant
                self.pos <= self.items@.len(),
                self.items == old(self).items,
                v@.map_values(|x: &T| *x) + self.remaining() == old(self).remaining(),
            decreases self.items@.len() - self.pos,
        {
            let ghost before = self.remaining();
            let x = self.items[self.pos];
            v.push(x);
            self.pos = self.pos + 1;
            assert(self.remaining() =~= before.drop_first());
            assert(v@.map_values(|x: &T| *x) + self.remaining() =~= old(self).remaining());
        }
        assert(self.remaining() =~= Seq::<T>::empty());
        assert(v@.map_values(|x: &T| *x) =~= old(self).remaining());
        v
    }
}

/// Takes a history and yields its events, newest first.
pub struct IntoIter<T>(History<T>);

impl<T> IntoIter<T> {
    pub closed spec fn wf(&self) -> bool {
        self.0.wf()
    }

    /// The events still to come.
    pub closed spec fn remaining(&self) -> Seq<T> {
        self.0@
    }

    /// The next event, moved out; `None` once all have been taken.
    pub fn next(&mut self) -> (r: Option<T>)
        requires
            old(self).wf(),
        ensures
            final(self).wf(),
            old(self).remaining().len() == 0 ==> r is None && final(self).remaining() == old(self).remaining(),
            old(self).remaining().len() > 0 ==> r == Some(old(self).remaining()[0])
                && final(self).remaining() == old(self).remaining().drop_first(),
    {
        self.0.pop()
    }
}

impl<T> Default for History<T> {
    fn default() -> (h: Self)
        ensures
            h.wf(),
            h@ == Seq::<T>::empty(),
    {
        History { head: None, len: 0 }
    }
}

impl<T> Drop for History<T> {
    /// Unlinks the chain node by node, so that a long history is freed in a
    /// loop rather than by a chain of nested drops.
    fn drop(&mut self)
        opens_invariants none
        no_unwind
    {
        let mut cur: Option<Box<Node<T>>> = None;
        std::mem::swap(&mut cur, &mut self.head);
        loop
            decreases chain(cur).len(),
        {
            match cur {
                Some(mut node) => {
                    let mut next: Option<Box<Node<T>>> = None;
                    std::mem::swap(&mut next, &mut node.next);
                    cur = next;
                },
                None => {
                    break;
                },
            }
        }
    }
}

/// Pushing then popping gives back what was pushed and restores the history.
pub proof fn law_push_then_pop<T>(before: Seq<T>, x: T)
    ensures
        (seq![x] + before)[0] == x,
        (seq![x] + before).drop_first() == before,
{
    assert((seq![x] + before).drop_first() =~= before);
}

// ───────────────── persistent list ─────────────────

/// A history that can fork: prepending makes a new version and leaves the
/// old one as it was; versions share their common tail.
pub struct Shared<T> {
    head: Option<Rc<RcNode<T>>>,
}

pub struct RcNode<T> {
    elem: T,
    next: Option<Rc<RcNode<T>>>,
}

/// `Rc::clone`: another pointer to the same value (the count goes up by one;
/// the value is not copied).
#[verifier::external_body]
fn rc_clone<T>(rc: &Rc<T>) -> (r: Rc<T>)
    ensures
        r == *rc,
{
    Rc::clone(rc)
}

/// `Rc::strong_count`: how many `Rc` pointers share the value. The pointer
/// passed in is one of them, so the count is at least one; how many more
/// there are depends on pointers held elsewhere in the program and is not
/// stated.
#[verifier::external_body]
fn rc_strong_count<T>(rc: &Rc<T>) -> (n: usize)
    ensures
        n >= 1,
{
    Rc::strong_count(rc)
}

/// The elements of a shared chain, newest first.
pub closed spec fn rc_chain<T>(n: Option<Rc<RcNode<T>>>) -> Seq<T>
    decreases n,
{
    match n {
        Some(r) => seq![r.elem] + rc_chain(r.next),
        None => seq![],
    }
}

impl<T> View for Shared<T> {
    type V = Seq<T>;

    closed spec fn view(&self) -> Seq<T> {
        rc_chain(self.head)
    }
}

impl<T> Shared<T> {
    pub fn new() -> (s: Self)
        ensures
            s@ == Seq::<T>::empty(),
    {
        Shared { head: None }
    }

    /// A new version with `elem` in front of this one; this one is unchanged.
    pub fn prepend(&self, elem: T) -> (s: Shared<T>)
        ensures
            s@ == seq![elem] + self@,
    {
        let next = match &self.head {
            Some(rc) => Some(rc_clone(rc)),
            None => None,
        };
        Shared { head: Some(Rc::new(RcNode { elem, next })) }
    }

    /// The version without its newest element; this one is unchanged.
    pub fn tail(&self) -> (s: Shared<T>)
        ensures
            self@.len() == 0 ==> s@ == Seq::<T>::empty(),
            self@.len() > 0 ==> s@ == self@.drop_first(),
    {
        match &self.head {
            Some(n) => {
                let next = match &n.next {
                    Some(rc) => Some(rc_clone(rc)),
                    None => None,
                };
                let s = Shared { head: next };
                assert(self@.drop_first() =~= s@);
                s
            },
            None => Shared { head: None },
        }
    }

    /// The newest element, borrowed.
    pub fn head(&self) -> (r: Option<&T>)
        ensures
            self@.len() == 0 ==> r is None,
            self@.len() > 0 ==> r == Some(&self@[0]),
    {
        match &self.head {
            Some(n) => Some(&n.elem),
            None => None,
        }
    }

    /// How many versions share the newest node; 0 for an empty version. A
    /// non-empty version holds its newest node itself, so the count is then
    /// at least one; how many other versions share the node is not known here.
    pub fn strong_count(&self) -> (n: usize)
        ensures
            self@.len() == 0 ==> n == 0,
            self@.len() > 0 ==> n >= 1,
    {
        match &self.head {
            Some(rc) => rc_strong_count(rc),
            None => 0,
        }
    }
}

impl<T> Default for Shared<T> {
    fn default() -> (s: Self)
        ensures
            s@ == Seq::<T>::empty(),
    {
        Shared { head: None }
    }
}

/// Forking: two versions prepended to the same base both have the base as
/// their tail, and the base itself is what it was.
pub proof fn law_fork_shares_tail<T>(base: Seq<T>, a: T, b: T)
    ensures
        (seq![a] + base).drop_first() == base,
        (seq![b] + base).drop_first() == base,
{
    assert((seq![a] + base).drop_first() =~= base);
    assert((seq![b] + base).drop_first() =~= base);
}

} // verus!
