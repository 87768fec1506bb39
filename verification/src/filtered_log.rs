//! A pairing of a [`Filter`] with an arbitrary downstream log sink.
//!
//! Records that match the filter are meant to be forwarded to the wrapped
//! sink and the rest ignored; the forwarding itself (the sink's trait
//! impl) lives with the embedding program, which can decide per record via
//! [`crate::filter::Filter::matches`]. This type carries the pair and
//! hands the two parts out again.

use vstd::prelude::*;

use crate::filter::{Filter, FilterView};

verus! {

/// A [`Filter`] combined with a wrapped log sink of any type.
pub struct FilteredLog<T> {
    filter: Filter,
    log: T,
}

impl<T> FilteredLog<T> {
    /// The ghost image of the held filter.
    pub closed spec fn spec_filter(&self) -> FilterView {
        self.filter@
    }

    /// The held sink, as a ghost value.
    pub closed spec fn spec_inner(&self) -> T {
        self.log
    }

    /// Create a new filtered log from a filter and a sink.
    pub fn new(filter: Filter, log: T) -> (r: Self)
        ensures
            r.spec_filter() == filter@,
            r.spec_inner() == log,
    {
        Self { filter, log }
    }

    /// Gets a reference to the filter.
    pub fn filter(&self) -> (r: &Filter)
        ensures
            r@ == self.spec_filter(),
    {
        &self.filter
    }

    /// Gets a reference to the wrapped sink.
    pub fn inner(&self) -> (r: &T)
        ensures
            *r == self.spec_inner(),
    {
        &self.log
    }

    /// Consumes the filtered log to take back ownership of the filter and
    /// the wrapped sink.
    pub fn into_parts(self) -> (r: (Filter, T))
        ensures
            r.0@ == self.spec_filter(),
            r.1 == self.spec_inner(),
    {
        (self.filter, self.log)
    }
}

} // verus!
