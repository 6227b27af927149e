//! A plain shared registry: the ordered container every component keeps
//! its records in. Concurrency-safety comes from whatever lock the caller
//! wraps it in; the registry itself is the data and its operations.

use vstd::prelude::*;

verus! {

/// An ordered collection of records.
pub struct SharedRegistry<T> {
    items: Vec<T>,
}

impl<T> View for SharedRegistry<T> {
    type V = Seq<T>;

    closed spec fn view(&self) -> Seq<T> {
        self.items@
    }
}

impl<T> SharedRegistry<T> {
    /// An empty registry.
    pub fn new() -> (r: SharedRegistry<T>)
        ensures
            r@.len() == 0,
    {
        SharedRegistry { items: Vec::new() }
    }

    pub fn len(&self) -> (r: usize)
        ensures
            r == self@.len(),
    {
        self.items.len()
    }

    pub fn is_empty(&self) -> (r: bool)
        ensures
            r == (self@.len() == 0),
    {
        self.items.len() == 0
    }

    /// Appends a record.
    pub fn add(&mut self, item: T)
        ensures
            final(self)@ == old(self)@.push(item),
    {
        self.items.push(item);
    }

    /// The record at `index`, if there is one.
    pub fn get(&self, index: usize) -> (r: Option<&T>)
        ensures
            index < self@.len() ==> r == Some(&self@[index as int]),
            index >= self@.len() ==> r is None,
    {
        if index < self.items.len() {
            Some(&self.items[index])
        } else {
            None
        }
    }

    /// Replaces the record at `index`; answers whether there was one.
    pub fn set(&mut self, index: usize, item: T) -> (r: bool)
        ensures
            index < old(self)@.len() ==> r && final(self)@ == old(self)@.update(
                index as int,
                item,
            ),
            index >= old(self)@.len() ==> !r && final(self)@ == old(self)@,
    {
        if index < self.items.len() {
            self.items[index] = item;
            true
        } else {
            false
        }
    }

    /// Removes every record.
    pub fn clear(&mut self)
        ensures
            final(self)@.len() == 0,
    {
        self.items.clear();
    }
}

} // verus!
