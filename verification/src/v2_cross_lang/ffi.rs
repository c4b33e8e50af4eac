//! The surface that foreign bindings are generated from: an opaque store,
//! plain numbers, and a value enum for the error.
use vstd::prelude::*;
use super::domain;
use super::domain::{pending, summary_spec, TodoView};

verus! {

/// The error as foreign code sees it.
#[derive(Debug, PartialEq, Eq, Structural)]
pub enum TodoFfiError {
    NotFound,
}

/// The store, opaque to foreign code.
pub struct TodoStore(pub domain::TodoStore);

impl TodoStore {
    /// A new, empty store, boxed for the foreign side to own.
    pub fn new() -> (b: Box<TodoStore>)
        ensures
            b.0.wf(),
            b.0.items() == Seq::<TodoView>::empty(),
            b.0.next() == 1,
    {
        Box::new(TodoStore(domain::TodoStore::new()))
    }

    /// Adds an open entry and returns its id.
    pub fn add(&mut self, title: &str) -> (id: u32)
        requires
            old(self).0.wf(),
            old(self).0.next() < u32::MAX,
        ensures
            final(self).0.wf(),
            id == old(self).0.next(),
            final(self).0.next() == old(self).0.next() + 1,
            final(self).0.items() == old(self).0.items().push((id, title@, false)),
    {
        self.0.add(title)
    }

    /// Marks the entry done; the domain's `NotFound` becomes the foreign one.
    pub fn complete(&mut self, id: u32) -> (r: Result<(), TodoFfiError>)
        requires
            old(self).0.wf(),
        ensures
            final(self).0.wf(),
            r is Ok <==> exists|k: int|
                0 <= k < old(self).0.items().len() && (#[trigger] old(self).0.items()[k]).0 == id,
            r matches Err(e) ==> e == TodoFfiError::NotFound && final(self).0.items() == old(self).0.items(),
            r is Ok ==> exists|k: int|
                0 <= k < old(self).0.items().len() && (#[trigger] old(self).0.items()[k]).0 == id
                    && final(self).0.items() == old(self).0.items().update(
                    k,
                    (id, old(self).0.items()[k].1, true),
                ),
    {
        match self.0.complete(id) {
            Ok(()) => Ok(()),
            Err(domain::TodoError::NotFound) => Err(TodoFfiError::NotFound),
        }
    }

    /// The number of open entries.
    pub fn pending_count(&self) -> (n: u32)
        requires
            self.0.wf(),
        ensures
            n == pending(self.0.items()).len(),
    {
        self.0.pending_count()
    }

    /// The summary text that `write_summary` hands to the foreign writer.
    pub fn summary(&self) -> (r: String)
        requires
            self.0.wf(),
        ensures
            r@ == summary_spec(self.0.items()),
    {
        self.0.summary()
    }
}

} // verus!
