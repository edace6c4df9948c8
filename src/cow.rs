use vstd::prelude::*;

verus! {

/// A value that is either borrowed or owned.
pub enum SimpleCow<'a, C> {
    Borrowed(&'a C),
    Owned(C),
}

impl<'a, C> SimpleCow<'a, C> {
    pub fn as_ref(&self) -> (r: &C)
        ensures
            *r == (match self {
                SimpleCow::Borrowed(v) => **v,
                SimpleCow::Owned(v) => *v,
            }),
    {
        match self {
            SimpleCow::Borrowed(v) => v,
            SimpleCow::Owned(v) => v,
        }
    }

    /// The value, cloned where it is borrowed.
    pub fn to_owned(self) -> (r: C) where C: Clone
        ensures
            match self {
                SimpleCow::Borrowed(v) => cloned(*v, r),
                SimpleCow::Owned(v) => r == v,
            },
    {
        match self {
            SimpleCow::Borrowed(v) => v.clone(),
            SimpleCow::Owned(v) => v,
        }
    }
}

impl<C> From<C> for SimpleCow<'static, C> {
    fn from(other: C) -> (r: Self) {
        SimpleCow::Owned(other)
    }
}

impl<C> vstd::std_specs::convert::FromSpecImpl<C> for SimpleCow<'static, C> {
    open spec fn obeys_from_spec() -> bool {
        true
    }

    open spec fn from_spec(v: C) -> Self {
        SimpleCow::Owned(v)
    }
}

impl<'a, C> From<&'a C> for SimpleCow<'a, C> {
    fn from(other: &'a C) -> (r: Self) {
        SimpleCow::Borrowed(other)
    }
}

impl<'a, C> vstd::std_specs::convert::FromSpecImpl<&'a C> for SimpleCow<'a, C> {
    open spec fn obeys_from_spec() -> bool {
        true
    }

    open spec fn from_spec(v: &'a C) -> Self {
        SimpleCow::Borrowed(v)
    }
}

} // verus!
