//! A value that is either borrowed or owned.
use vstd::prelude::*;

verus! {

/// Data that may be either borrowed or owned, read the same way in both cases.
#[derive(Debug)]
pub enum Boo<'a, T: Sized> {
    Borrowed(&'a T),
    Owned(T),
}

impl<'a, T: Sized> Boo<'a, T> {
    /// The value, borrowed or owned.
    pub open spec fn spec_value(&self) -> T {
        match self {
            Boo::Borrowed(obj) => **obj,
            Boo::Owned(obj) => *obj,
        }
    }

    /// A reference to the value, whether it is borrowed or owned.
    pub fn get_ref(&'a self) -> (r: &'a T)
        ensures
            *r == self.spec_value(),
    {
        match self {
            Boo::Borrowed(obj) => *obj,
            Boo::Owned(obj) => obj,
        }
    }
}

impl<'a, T: Sized> From<T> for Boo<'a, T> {
    fn from(value: T) -> (r: Self) {
        Boo::Owned(value)
    }
}

impl<'a, T: Sized> From<&'a T> for Boo<'a, T> {
    fn from(value: &'a T) -> (r: Self) {
        Boo::Borrowed(value)
    }
}

impl<'a, T: Sized> vstd::std_specs::convert::FromSpecImpl<&'a T> for Boo<'a, T> {
    open spec fn obeys_from_spec() -> bool {
        true
    }

    open spec fn from_spec(v: &'a T) -> Self {
        Boo::Borrowed(v)
    }
}

impl<'a, T: Sized> std::ops::Deref for Boo<'a, T> {
    type Target = T;

    fn deref(&self) -> (r: &T)
        ensures
            *r == self.spec_value(),
    {
        match self {
            Boo::Borrowed(obj) => *obj,
            Boo::Owned(obj) => obj,
        }
    }
}

impl<'a, T: Sized> vstd::std_specs::convert::FromSpecImpl<T> for Boo<'a, T> {
    open spec fn obeys_from_spec() -> bool {
        true
    }

    open spec fn from_spec(v: T) -> Self {
        Boo::Owned(v)
    }
}

} // verus!
