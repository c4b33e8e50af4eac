//! The to-do list itself: no foreign-function detail.
use vstd::prelude::*;
use crate::text::{owned, push_dec, join};

verus! {

#[derive(Debug)]
struct Todo {
    id: u32,
    title: String,
    done: bool,
}

/// A to-do list. Ids are handed out in order, one after another.
#[derive(Debug)]
pub struct TodoStore {
    todos: Vec<Todo>,
    next_id: u32,
}

/// Why an operation on the list failed.
#[derive(Debug, PartialEq, Eq, Structural)]
pub enum TodoError {
    /// No entry has the id.
    NotFound,
}

/// What a caller sees of one entry: its id, title and whether it is done.
pub type TodoView = (u32, Seq<char>, bool);

/// The entries with `done` equal to `false`.
pub open spec fn pending(s: Seq<TodoView>) -> Seq<TodoView>
    decreases s.len(),
{
    if s.len() == 0 {
        seq![]
    } else if !s.last().2 {
        pending(s.drop_last()).push(s.last())
    } else {
        pending(s.drop_last())
    }
}

/// The summary line: totals, then the titles of the pending entries.
pub open spec fn summary_spec(s: Seq<TodoView>) -> Seq<char> {
    crate::text::dec(s.len()) + " todos, "@ + crate::text::dec(pending(s).len()) + " pending: ["@
        + join(pending(s).map_values(|t: TodoView| t.1), ", "@) + "]"@
}

impl TodoStore {
    /// The entries, in the order they were added.
    pub closed spec fn items(&self) -> Seq<TodoView> {
        self.todos@.map_values(|t: Todo| (t.id, t.title@, t.done))
    }

    /// The id the next entry will get.
    pub closed spec fn next(&self) -> u32 {
        self.next_id
    }

    /// Ids are consecutive and end just below the next id.
    pub open spec fn wf(&self) -> bool {
        &&& self.items().len() <= self.next()
        &&& forall|k: int|
            0 <= k < self.items().len() ==> (#[trigger] self.items()[k]).0 == self.next()
                - self.items().len() + k
    }

    /// An empty list whose first id is 1.
    pub fn new() -> (s: Self)
        ensures
            s.wf(),
            s.items() == Seq::<TodoView>::empty(),
            s.next() == 1,
    {
        let s = TodoStore { todos: Vec::new(), next_id: 1 };
        assert(s.items() =~= Seq::<TodoView>::empty());
        s
    }

    /// The id the next entry will get.
    pub fn next_id(&self) -> (n: u32)
        ensures
            n == self.next(),
    {
        self.next_id
    }

    /// Adds an open entry and returns its id.
    pub fn add(&mut self, title: &str) -> (id: u32)
        requires
            old(self).wf(),
            old(self).next() < u32::MAX,
        ensures
            final(self).wf(),
            id == old(self).next(),
            final(self).next() == old(self).next() + 1,
            final(self).items() == old(self).items().push((id, title@, false)),
    {
        let id = self.next_id;
        self.next_id = self.next_id + 1;
        self.todos.push(Todo { id, title: owned(title), done: false });
        assert(self.items() =~= old(self).items().push((id, title@, false)));
        id
    }

    /// Marks the entry with the id done; `NotFound` where no entry has it.
    pub fn complete(&mut self, id: u32) -> (r: Result<(), TodoError>)
        requires
            old(self).wf(),
        ensures
            final(self).wf(),
            final(self).next() == old(self).next(),
            match r {
                Ok(()) => exists|k: int|
                    0 <= k < old(self).items().len() && (#[trigger] old(self).items()[k]).0 == id
                        && final(self).items() == old(self).items().update(
                        k,
                        (id, old(self).items()[k].1, true),
                    ),
                Err(e) => e == TodoError::NotFound && final(self).items() == old(self).items()
                    && forall|k: int| 0 <= k < old(self).items().len() ==> (#[trigger] old(self).items()[k]).0 != id,
            },
    {
        let mut i: usize = 0;
        while i < self.todos.len()
            invariant
                i <= self.todos.len(),
                self.items() == old(self).items(),
                self.next() == old(self).next(),
                self.wf(),
                forall|k: int| 0 <= k < i ==> (#[trigger] self.items()[k]).0 != id,
            decreases self.todos.len() - i,
        {
            proof {
                assert(self.items()[i as int].0 == self.todos@[i as int].id);
            }
            if self.todos[i].id == id {
                let title = self.todos[i].title.clone();
                self.todos.set(i, Todo { id, title, done: true });
                assert(self.items() =~= old(self).items().update(
                    i as int,
                    (id, old(self).items()[i as int].1, true),
                ));
                assert forall|k: int| 0 <= k < self.items().len() implies (#[trigger] self.items()[k]).0
                    == old(self).items()[k].0 by {}
                return Ok(());
            }
            i += 1;
        }
        Err(TodoError::NotFound)
    }

    /// The number of open entries.
    pub fn pending_count(&self) -> (n: u32)
        requires
            self.wf(),
        ensures
            n == pending(self.items()).len(),
    {
        let mut n: u32 = 0;
        let mut i: usize = 0;
        while i < self.todos.len()
            invariant
                i <= self.todos.len(),
                self.wf(),
                n == pending(self.items().take(i as int)).len(),
                n <= i,
            decreases self.todos.len() - i,
        {
            proof {
                assert(self.items().take(i + 1).drop_last() =~= self.items().take(i as int));
                assert(self.items().len() <= self.next());
            }
            if !self.todos[i].done {
                n = n + 1;
            }
            i += 1;
        }
        assert(self.items().take(self.todos.len() as int) =~= self.items());
        n
    }

    /// A readable summary: the number of entries, the number still open,
    /// and the titles of the open ones.
    pub fn summary(&self) -> (r: String)
        requires
            self.wf(),
        ensures
            r@ == summary_spec(self.items()),
    {
        let mut titles = String::new();
        let mut count: usize = 0;
        let mut i: usize = 0;
        while i < self.todos.len()
            invariant
                i <= self.todos.len(),
                count == pending(self.items().take(i as int)).len(),
                count <= i,
                titles@ == join(
                    pending(self.items().take(i as int)).map_values(|t: TodoView| t.1),
                    ", "@,
                ),
            decreases self.todos.len() - i,
        {
            let ghost before = titles@;
            let ghost pre = pending(self.items().take(i as int));
            proof {
                assert(self.items().take(i + 1).drop_last() =~= self.items().take(i as int));
                assert(self.items().take(i + 1).last() == self.items()[i as int]);
            }
            if !self.todos[i].done {
                if count > 0 {
                    titles.push_str(", ");
                }
                titles.push_str(self.todos[i].title.as_str());
                count = count + 1;
                proof {
                    let post = pending(self.items().take(i + 1));
                    assert(post == pre.push(self.items()[i as int]));
                    let pm = post.map_values(|t: TodoView| t.1);
                    assert(pm.drop_last() =~= pre.map_values(|t: TodoView| t.1));
                    if pre.len() == 0 {
                        assert(before =~= Seq::<char>::empty());
                        assert(titles@ =~= pm[0]);
                    } else {
                        assert(titles@ =~= before + ", "@ + pm.last());
                    }
                }
            }
            i += 1;
        }
        assert(self.items().take(self.todos.len() as int) =~= self.items());
        let n = self.pending_count();
        let mut r = String::new();
        push_dec(&mut r, self.todos.len() as u64);
        r.push_str(" todos, ");
        push_dec(&mut r, n as u64);
        r.push_str(" pending: [");
        r.push_str(titles.as_str());
        r.push_str("]");
        assert(r@ =~= summary_spec(self.items()));
        r
    }
}

impl Default for TodoStore {
    /// An empty list whose first id is 0.
    fn default() -> (s: Self)
        ensures
            s.wf(),
            s.items() == Seq::<TodoView>::empty(),
            s.next() == 0,
    {
        let s = TodoStore { todos: Vec::new(), next_id: 0 };
        assert(s.items() =~= Seq::<TodoView>::empty());
        s
    }
}

/// Completing an open entry lowers the number of open entries by one;
/// adding an entry raises it by one.
pub proof fn law_pending_count(s: Seq<TodoView>, k: int, e: TodoView)
    requires
        0 <= k < s.len(),
        !s[k].2,
        !e.2,
    ensures
        pending(s.update(k, (s[k].0, s[k].1, true))).len() + 1 == pending(s).len(),
        pending(s.push(e)).len() == pending(s).len() + 1,
    decreases s.len(),
{
    assert(s.push(e).drop_last() =~= s);
    if k < s.len() - 1 {
        law_pending_count(s.drop_last(), k, e);
        assert(s.update(k, (s[k].0, s[k].1, true)).drop_last() =~= s.drop_last().update(
            k,
            (s[k].0, s[k].1, true),
        ));
    } else {
        assert(s.update(k, (s[k].0, s[k].1, true)).drop_last() =~= s.drop_last());
    }
}

/// The test for an entry that is still open (not done).
pub open spec fn still_open() -> spec_fn(TodoView) -> bool {
    |t: TodoView| !t.2
}

proof fn lemma_pending_is_open_entries(s: Seq<TodoView>)
    ensures
        pending(s) == s.filter(still_open()),
    decreases s.len(),
{
    reveal(Seq::filter);
    if s.len() > 0 {
        lemma_pending_is_open_entries(s.drop_last());
    }
}

/// The summary counts what it says: the total is the number of entries;
/// the pending number is the number of entries not done; and the titles
/// listed are exactly the titles of the entries not done, in order.
pub proof fn law_summary_counts_open_entries(s: Seq<TodoView>)
    ensures
        summary_spec(s) == crate::text::dec(s.len()) + " todos, "@ + crate::text::dec(
            s.filter(still_open()).len(),
        ) + " pending: ["@ + join(s.filter(still_open()).map_values(|t: TodoView| t.1), ", "@)
            + "]"@,
        pending(s).len() == s.filter(still_open()).len(),
{
    lemma_pending_is_open_entries(s);
}

} // verus!
