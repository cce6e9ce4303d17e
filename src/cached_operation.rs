use vstd::prelude::*;

verus! {

/// What a cache did to an entry: wrote a value, read a value, or erased it.
#[derive(Debug, Clone, PartialEq, Eq)]
pub enum CachedOperation<T> {
    Write(T),
    Read(T),
    Erase,
}

impl<T> CachedOperation<T> {
    /// True for `Erase`.
    pub open spec fn is_erase(&self) -> bool {
        match self {
            CachedOperation::Erase => true,
            _ => false,
        }
    }

    /// True for `Read`.
    pub open spec fn is_read(&self) -> bool {
        match self {
            CachedOperation::Read(_) => true,
            _ => false,
        }
    }

    /// The value a write or read carries.
    pub open spec fn value(&self) -> T
        recommends
            !self.is_erase(),
    {
        match self {
            CachedOperation::Write(v) => *v,
            CachedOperation::Read(v) => *v,
            CachedOperation::Erase => arbitrary(),
        }
    }

    pub fn get(&self) -> (r: Option<&T>)
        ensures
            r.is_some() == !self.is_erase(),
            r.is_some() ==> *r.unwrap() == self.value(),
    {
        match self {
            CachedOperation::Write(v) => Some(v),
            CachedOperation::Read(v) => Some(v),
            CachedOperation::Erase => None,
        }
    }

    pub fn take(self) -> (r: Option<T>)
        ensures
            r.is_some() == !self.is_erase(),
            r.is_some() ==> r.unwrap() == self.value(),
    {
        match self {
            CachedOperation::Write(v) => Some(v),
            CachedOperation::Read(v) => Some(v),
            CachedOperation::Erase => None,
        }
    }
}

/// Result of applying `right` after `left`, both optional.
pub open spec fn combined<T>(
    left: Option<CachedOperation<T>>,
    right: Option<CachedOperation<T>>,
) -> Option<CachedOperation<T>> {
    match (left, right) {
        (None, None) => None,
        (None, Some(v)) => Some(v),
        (Some(v), None) => Some(v),
        (Some(l), Some(r)) => Some(
            match r {
                CachedOperation::Write(v) => CachedOperation::Write(v),
                CachedOperation::Erase => CachedOperation::Erase,
                CachedOperation::Read(v) => CachedOperation::Read(v),
            },
        ),
    }
}

/// Merges two successive operations on one entry: the later one wins. A read can follow
/// only a read: after a write or an erase the cache answers from itself.
pub fn combine<T>(left: Option<CachedOperation<T>>, right: Option<CachedOperation<T>>) -> (r: Option<
    CachedOperation<T>,
>)
    requires
        left.is_some() && right.is_some() && right.unwrap().is_read() ==> left.unwrap().is_read(),
    ensures
        r == combined(left, right),
{
    match (left, right) {
        (None, None) => None,
        (None, Some(v)) => Some(v),
        (Some(v), None) => Some(v),
        (Some(_), Some(right)) => Some(right),
    }
}

} // verus!
