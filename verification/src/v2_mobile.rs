//! A to-do store shaped for mobile bindings: records with an optional note,
//! a priority enum, structured errors, and ids handed out from 1.
use vstd::prelude::*;
use crate::text::{trim, trim_owned, is_blank, lit, dec, push_dec};

verus! {

/// The priority of an entry.
#[derive(Debug, Clone, Copy, PartialEq, Eq, Structural)]
pub enum Priority {
    Low,
    Medium,
    High,
}

/// One entry.
#[derive(Debug, Clone, PartialEq, Eq)]
pub struct Todo {
    pub id: u64,
    pub title: String,
    /// An optional note.
    pub note: Option<String>,
    pub priority: Priority,
    pub done: bool,
}

impl Todo {
    /// A copy with the same fields.
    pub fn duplicate(&self) -> (r: Todo)
        ensures
            r == *self,
    {
        Todo {
            id: self.id,
            title: self.title.clone(),
            note: match &self.note {
                Some(n) => Some(n.clone()),
                None => None,
            },
            priority: self.priority,
            done: self.done,
        }
    }
}

/// Why an operation on the store failed.
#[derive(Debug, PartialEq, Eq, Structural)]
pub enum TodoError {
    /// The title is empty once trimmed.
    EmptyTitle,
    /// No entry has the id.
    NotFound { id: u64 },
}

impl TodoError {
    pub open spec fn message_spec(self) -> Seq<char> {
        match self {
            TodoError::EmptyTitle => "标题不能为空"@,
            TodoError::NotFound { id } => "未找到 id="@ + dec(id as nat) + " 的待办"@,
        }
    }

    /// The error message, as the `Display` form shows it.
    pub fn message(&self) -> (r: String)
        ensures
            r@ == self.message_spec(),
    {
        match self {
            TodoError::EmptyTitle => lit("标题不能为空"),
            TodoError::NotFound { id } => {
                let mut r = lit("未找到 id=");
                push_dec(&mut r, *id);
                r.push_str(" 的待办");
                r
            },
        }
    }
}

/// A store of entries; ids run from 1 in the order entries were added.
pub struct TodoStore {
    next_id: u64,
    items: Vec<Todo>,
}

impl View for TodoStore {
    type V = Seq<Todo>;

    closed spec fn view(&self) -> Seq<Todo> {
        self.items@
    }
}

/// `i` is the first entry of `s` with the id `id`.
pub open spec fn first_with_id(s: Seq<Todo>, id: u64, i: int) -> bool {
    &&& 0 <= i < s.len()
    &&& s[i].id == id
    &&& forall|j: int| 0 <= j < i ==> (#[trigger] s[j]).id != id
}

/// The number of entries not done.
pub open spec fn pending(s: Seq<Todo>) -> nat
    decreases s.len(),
{
    if s.len() == 0 {
        0
    } else {
        pending(s.drop_last()) + if s.last().done {
            0nat
        } else {
            1nat
        }
    }
}

proof fn lemma_pending_le(s: Seq<Todo>)
    ensures
        pending(s) <= s.len(),
    decreases s.len(),
{
    if s.len() > 0 {
        lemma_pending_le(s.drop_last());
    }
}

impl Default for TodoStore {
    fn default() -> (s: Self)
        ensures
            s.wf(),
            s@ == Seq::<Todo>::empty(),
    {
        TodoStore::new()
    }
}

impl TodoStore {
    /// Entry `k` has the id `k + 1`, and the last id handed out is the
    /// number of entries.
    pub closed spec fn wf(&self) -> bool {
        &&& self.next_id == self.items@.len()
        &&& forall|k: int| 0 <= k < self.items@.len() ==> (#[trigger] self.items@[k]).id == k + 1
    }

    /// An empty store.
    pub fn new() -> (s: Self)
        ensures
            s.wf(),
            s@ == Seq::<Todo>::empty(),
    {
        TodoStore { next_id: 0, items: Vec::new() }
    }

    /// Adds an open entry with the trimmed title and the next id, and
    /// returns it; a title that is empty once trimmed is refused.
    pub fn add(&mut self, title: String, note: Option<String>, priority: Priority) -> (r: Result<
        Todo,
        TodoError,
    >)
        requires
            old(self).wf(),
            old(self)@.len() < u64::MAX,
        ensures
            final(self).wf(),
            trim(title@).len() == 0 ==> r == Err::<Todo, TodoError>(TodoError::EmptyTitle)
                && final(self)@ == old(self)@,
            trim(title@).len() > 0 ==> (r matches Ok(t) && t.id == old(self)@.len() + 1
                && t.title@ == trim(title@) && t.note == note && t.priority == priority && !t.done
                && final(self)@ == old(self)@.push(t)),
    {
        if is_blank(title.as_str()) {
            return Err(TodoError::EmptyTitle);
        }
        self.next_id = self.next_id + 1;
        let todo = Todo {
            id: self.next_id,
            title: trim_owned(title.as_str()),
            note,
            priority,
            done: false,
        };
        self.items.push(todo.duplicate());
        Ok(todo)
    }

    /// Copies of every entry, in order.
    pub fn list(&self) -> (r: Vec<Todo>)
        ensures
            r@ == self@,
    {
        let mut out: Vec<Todo> = Vec::new();
        let mut i: usize = 0;
        while i < self.items.len()
            invariant
                i <= self.items.len(),
                out@ == self.items@.take(i as int),
            decreases self.items.len() - i,
        {
            out.push(self.items[i].duplicate());
            i += 1;
            assert(out@ =~= self.items@.take(i as int));
        }
        assert(self.items@.take(self.items.len() as int) =~= self.items@);
        out
    }

    /// A copy of the first entry with the id, if any.
    pub fn find(&self, id: u64) -> (r: Option<Todo>)
        ensures
            match r {
                Some(t) => exists|i: int| first_with_id(self@, id, i) && t == self@[i],
                None => forall|i: int| 0 <= i < self@.len() ==> (#[trigger] self@[i]).id != id,
            },
    {
        let mut i: usize = 0;
        while i < self.items.len()
            invariant
                i <= self.items.len(),
                forall|j: int| 0 <= j < i ==> (#[trigger] self.items@[j]).id != id,
            decreases self.items.len() - i,
        {
            if self.items[i].id == id {
                assert(first_with_id(self@, id, i as int));
                return Some(self.items[i].duplicate());
            }
            i += 1;
        }
        None
    }

    /// Marks the first entry with the id done and returns it;
    /// `NotFound { id }`, with the store unchanged, where no entry has it.
    pub fn complete(&mut self, id: u64) -> (r: Result<Todo, TodoError>)
        requires
            old(self).wf(),
        ensures
            final(self).wf(),
            match r {
                Ok(t) => exists|i: int| #![auto] first_with_id(old(self)@, id, i) && t == Todo {
                    done: true,
                    ..old(self)@[i]
                } && final(self)@ == old(self)@.update(i, t),
                Err(e) => e == TodoError::NotFound { id } && final(self)@ == old(self)@
                    && forall|i: int| 0 <= i < old(self)@.len() ==> (#[trigger] old(self)@[i]).id != id,
            },
    {
        let mut i: usize = 0;
        while i < self.items.len()
            invariant
                i <= self.items.len(),
                self@ == old(self)@,
                self.wf(),
                forall|j: int| 0 <= j < i ==> (#[trigger] self.items@[j]).id != id,
            decreases self.items.len() - i,
        {
            if self.items[i].id == id {
                let mut t = self.items[i].duplicate();
                t.done = true;
                assert(first_with_id(old(self)@, id, i as int));
                self.items.set(i, t.duplicate());
                assert forall|k: int| 0 <= k < self.items@.len() implies (#[trigger] self.items@[k]).id
                    == k + 1 by {
                    assert(self.items@[k].id == old(self)@[k].id);
                }
                return Ok(t);
            }
            i += 1;
        }
        Err(TodoError::NotFound { id })
    }

    /// The number of entries not done.
    pub fn pending_count(&self) -> (n: u64)
        requires
            self.wf(),
        ensures
            n == pending(self@),
    {
        let mut n: u64 = 0;
        let mut i: usize = 0;
        while i < self.items.len()
            invariant
                i <= self.items.len(),
                self.wf(),
                n == pending(self.items@.take(i as int)),
            decreases self.items.len() - i,
        {
            proof {
                assert(self.items@.take(i + 1).drop_last() =~= self.items@.take(i as int));
                lemma_pending_le(self.items@.take(i as int));
            }
            if !self.items[i].done {
                n = n + 1;
            }
            i += 1;
        }
        assert(self.items@.take(self.items.len() as int) =~= self.items@);
        n
    }
}

} // verus!
