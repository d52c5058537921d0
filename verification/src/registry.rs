//! The registry of requests in flight.
//!
//! Each request that is being served has one entry, under its correlation
//! id. The entry is made when the request starts and leaves when the request
//! is over. In between, anyone may ask for the request to be cancelled; the
//! task that serves the request looks the flag up between two deliveries.
//! The registry is a plain value: sharing it between tasks, behind a lock,
//! is the caller's business.

use vstd::prelude::*;
use crate::textmap::TextMap;

verus! {

/// The requests in flight, each with its cancellation flag.
#[derive(Debug)]
pub struct CancellationRegistry {
    flags: TextMap<bool>,
}

impl View for CancellationRegistry {
    type V = Map<Seq<char>, bool>;

    /// The cancellation flag of each request in flight, by correlation id.
    closed spec fn view(&self) -> Map<Seq<char>, bool> {
        self.flags@
    }
}

impl CancellationRegistry {
    /// No correlation id is entered twice.
    pub closed spec fn wf(&self) -> bool {
        self.flags.wf()
    }

    /// A registry without any request.
    pub fn new() -> (registry: Self)
        ensures
            registry.wf(),
            registry@ == Map::<Seq<char>, bool>::empty(),
    {
        CancellationRegistry { flags: TextMap::new() }
    }

    /// The number of requests in flight.
    pub fn len(&self) -> (n: usize)
        requires
            self.wf(),
        ensures
            n == self@.dom().len(),
            self@.dom().finite(),
    {
        self.flags.len()
    }

    /// Whether the request `id` is in flight.
    pub fn contains(&self, id: &str) -> (present: bool)
        requires
            self.wf(),
        ensures
            present == self@.dom().contains(id@),
    {
        self.flags.contains_key(id)
    }

    /// Whether the request `id` is in flight and was asked to stop.
    pub fn is_cancelled(&self, id: &str) -> (cancelled: bool)
        requires
            self.wf(),
        ensures
            cancelled == (self@.dom().contains(id@) && self@[id@]),
    {
        match self.flags.get(id) {
            Some(flag) => *flag,
            None => false,
        }
    }

    /// Enters the request `id`, not cancelled, when it starts. An id that is
    /// in flight already is refused, and nothing changes.
    pub fn insert(&mut self, id: String) -> (entered: bool)
        requires
            old(self).wf(),
        ensures
            final(self).wf(),
            entered == !old(self)@.dom().contains(id@),
            final(self)@ == (if entered {
                old(self)@.insert(id@, false)
            } else {
                old(self)@
            }),
    {
        if self.flags.contains_key(id.as_str()) {
            return false;
        }
        self.flags.insert(id, false);
        true
    }

    /// Takes the entry of the request `id` out, when the request is over.
    /// Tells whether there was one.
    pub fn remove(&mut self, id: &str) -> (removed: bool)
        requires
            old(self).wf(),
        ensures
            final(self).wf(),
            removed == old(self)@.dom().contains(id@),
            final(self)@ == old(self)@.remove(id@),
    {
        self.flags.remove(id).is_some()
    }

    /// Asks the request `id` to stop. Tells whether the request is in
    /// flight; one that is not is left alone.
    pub fn cancel(&mut self, id: &str) -> (signalled: bool)
        requires
            old(self).wf(),
        ensures
            final(self).wf(),
            signalled == old(self)@.dom().contains(id@),
            final(self)@ == (if signalled {
                old(self)@.insert(id@, true)
            } else {
                old(self)@
            }),
    {
        if !self.flags.contains_key(id) {
            return false;
        }
        self.flags.insert(id.to_owned(), true);
        true
    }
}

} // verus!
