//! Values attached to their source location.
use vstd::prelude::*;

verus! {

/// A source and the metadata (position) of a value within it.
#[derive(Clone, Copy, Debug)]
pub struct Location<F, M> {
    source: F,
    metadata: M,
}

impl<F, M> Location<F, M> {
    pub closed spec fn spec_source(&self) -> F {
        self.source
    }

    pub closed spec fn spec_metadata(&self) -> M {
        self.metadata
    }

    /// Creates a location.
    pub fn new(source: F, metadata: M) -> (r: Self)
        ensures
            r.spec_source() == source,
            r.spec_metadata() == metadata,
    {
        Self { source, metadata }
    }

    /// The source.
    pub fn source(&self) -> (r: &F)
        ensures
            *r == self.spec_source(),
    {
        &self.source
    }

    /// The metadata associated to this location.
    pub fn metadata(&self) -> (r: &M)
        ensures
            *r == self.spec_metadata(),
    {
        &self.metadata
    }
}

/// Value located in a source.
#[derive(Clone, Copy, Debug)]
pub struct Loc<T, F, M> {
    value: T,
    loc: Location<F, M>,
}

impl<T, F, M> Loc<T, F, M> {
    pub closed spec fn spec_value(&self) -> T {
        self.value
    }

    pub closed spec fn spec_location(&self) -> Location<F, M> {
        self.loc
    }

    /// Creates a located value.
    pub fn new(value: T, loc: Location<F, M>) -> (r: Self)
        ensures
            r.spec_value() == value,
            r.spec_location() == loc,
    {
        Self { value, loc }
    }

    /// The value.
    pub fn value(&self) -> (r: &T)
        ensures
            *r == self.spec_value(),
    {
        &self.value
    }

    /// The location.
    pub fn location(&self) -> (r: &Location<F, M>)
        ensures
            *r == self.spec_location(),
    {
        &self.loc
    }

    /// The metadata of the location.
    pub fn metadata(&self) -> (r: &M)
        ensures
            *r == self.spec_location().spec_metadata(),
    {
        &self.loc.metadata
    }

    /// Splits into the value and its location.
    pub fn into_parts(self) -> (r: (T, Location<F, M>))
        ensures
            r.0 == self.spec_value(),
            r.1 == self.spec_location(),
    {
        (self.value, self.loc)
    }

    /// Drops the location.
    pub fn unwrap(self) -> (r: T)
        ensures
            r == self.spec_value(),
    {
        self.value
    }
}

/// Property entry: a value with the metadata of its key.
#[derive(Clone, Debug, PartialEq, Eq, Hash)]
pub struct Entry<T, M> {
    /// Property key metadata.
    pub key_metadata: M,
    /// Property value.
    pub value: T,
}

impl<T, M> Entry<T, M> {
    /// Creates an entry.
    pub fn new(key_metadata: M, value: T) -> (r: Self)
        ensures
            r.key_metadata == key_metadata,
            r.value == value,
    {
        Entry { key_metadata, value }
    }

    /// Borrows both parts of the entry.
    pub fn borrow(&self) -> (r: Entry<&T, &M>)
        ensures
            *r.key_metadata == self.key_metadata,
            *r.value == self.value,
    {
        Entry { key_metadata: &self.key_metadata, value: &self.value }
    }

    /// Maps the value, keeping the key metadata.
    pub fn map<U, F: FnOnce(T) -> U>(self, f: F) -> (r: Entry<U, M>)
        requires
            f.requires((self.value,)),
        ensures
            r.key_metadata == self.key_metadata,
            f.ensures((self.value,), r.value),
    {
        Entry { key_metadata: self.key_metadata, value: f(self.value) }
    }
}

} // verus!
