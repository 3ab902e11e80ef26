//! Values that may be explicitly `null`.
use vstd::prelude::*;

verus! {

/// Value that can be null.
///
/// `Option` indicates values that may or may not be defined, while a value
/// can also be explicitly defined as `null`, hence this type.
#[derive(Clone, Copy, PartialEq, Eq, Debug, Hash, PartialOrd, Ord)]
pub enum Nullable<T> {
    /// Null value.
    Null,
    /// Some other value.
    Value(T),
}

impl<T> Nullable<T> {
    /// Checks if the value is `null`.
    pub fn is_null(&self) -> (r: bool)
        ensures
            r == (*self is Null),
    {
        match self {
            Nullable::Null => true,
            Nullable::Value(_) => false,
        }
    }

    /// Checks if the value is not `null`.
    pub fn is_some(&self) -> (r: bool)
        ensures
            r == (*self is Value),
    {
        match self {
            Nullable::Null => false,
            Nullable::Value(_) => true,
        }
    }

    /// Unwraps a non-null value.
    pub fn unwrap(self) -> (r: T)
        requires
            self is Value,
        ensures
            self == Nullable::Value(r),
    {
        match self {
            Nullable::Value(t) => t,
            Nullable::Null => {
                proof {
                    assert(false);
                }
                unreached()
            },
        }
    }

    /// Returns a nullable reference to the inner value.
    pub fn as_ref(&self) -> (r: Nullable<&T>)
        ensures
            (*self is Null) <==> (r is Null),
            *self matches Nullable::Value(t) ==> r == Nullable::Value(&t),
    {
        match self {
            Nullable::Null => Nullable::Null,
            Nullable::Value(t) => Nullable::Value(t),
        }
    }

    /// Transforms into an `Option` value.
    pub fn option(self) -> (r: Option<T>)
        ensures
            r == self.spec_option(),
    {
        match self {
            Nullable::Null => None,
            Nullable::Value(t) => Some(t),
        }
    }

    /// The `Option` a nullable value stands for: `null` becomes `None`.
    pub open spec fn spec_option(self) -> Option<T> {
        match self {
            Nullable::Null => None,
            Nullable::Value(t) => Some(t),
        }
    }

    /// Maps the inner value using the given function.
    pub fn map<F, U>(self, f: F) -> (r: Nullable<U>)
        where
            F: FnOnce(T) -> U,
        requires
            self matches Nullable::Value(t) ==> f.requires((t,)),
        ensures
            (self is Null) <==> (r is Null),
            forall|t: T, u: U|
                self == Nullable::Value(t) && r == Nullable::Value(u) ==> f.ensures((t,), u),
    {
        match self {
            Nullable::Null => Nullable::Null,
            Nullable::Value(t) => Nullable::Value(f(t)),
        }
    }
}

impl<'a, T: Clone> Nullable<&'a T> {
    /// Clones the referenced inner value.
    pub fn cloned(&self) -> (r: Nullable<T>)
        ensures
            (*self is Null) <==> (r is Null),
            forall|t: &T, u: T|
                *self == Nullable::Value(t) && r == Nullable::Value(u) ==> vstd::pervasive::cloned(*t, u),
    {
        match self {
            Nullable::Null => Nullable::Null,
            Nullable::Value(t) => Nullable::Value((*t).clone()),
        }
    }
}

} // verus!
