//! The service lifecycle as a typestate: each state is a type, and only the
//! legal transitions exist as methods.
use vstd::prelude::*;
use core::marker::PhantomData;

verus! {

pub struct Stopped;

pub struct Running;

pub struct Paused;

/// A service whose state is the type parameter `S`.
pub struct Service<S> {
    name: String,
    _state: PhantomData<S>,
}

impl<S> Service<S> {
    pub closed spec fn name_spec(&self) -> Seq<char> {
        self.name@
    }

    pub fn name(&self) -> (r: &str)
        ensures
            r@ == self.name_spec(),
    {
        self.name.as_str()
    }

    fn transition<T>(self) -> (r: Service<T>)
        ensures
            r.name_spec() == self.name_spec(),
    {
        Service { name: self.name, _state: PhantomData }
    }
}

impl Service<Stopped> {
    pub fn new(name: &str) -> (s: Self)
        ensures
            s.name_spec() == name@,
    {
        Service { name: name.to_owned(), _state: PhantomData }
    }

    /// Stopped → Running.
    pub fn start(self) -> (r: Service<Running>)
        ensures
            r.name_spec() == self.name_spec(),
    {
        self.transition()
    }
}

impl Service<Running> {
    /// Running → Paused.
    pub fn pause(self) -> (r: Service<Paused>)
        ensures
            r.name_spec() == self.name_spec(),
    {
        self.transition()
    }

    /// Running → Stopped.
    pub fn stop(self) -> (r: Service<Stopped>)
        ensures
            r.name_spec() == self.name_spec(),
    {
        self.transition()
    }
}

impl Service<Paused> {
    /// Paused → Running.
    pub fn resume(self) -> (r: Service<Running>)
        ensures
            r.name_spec() == self.name_spec(),
    {
        self.transition()
    }

    /// Paused → Stopped.
    pub fn stop(self) -> (r: Service<Stopped>)
        ensures
            r.name_spec() == self.name_spec(),
    {
        self.transition()
    }
}

} // verus!
