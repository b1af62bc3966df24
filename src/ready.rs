use vstd::prelude::*;

verus! {

/// A cache slot: either a value, or a fetch that has been started and has not
/// produced one yet.
pub enum Ready<V> {
    Ready(V),
    NotReady,
}

impl<V> Ready<V> {
    /// The value of a slot, as an `Option`.
    pub open spec fn value(&self) -> Option<V> {
        match self {
            Ready::Ready(v) => Some(*v),
            Ready::NotReady => None,
        }
    }

    pub fn is_ready(&self) -> (r: bool)
        ensures
            r == self.value().is_some(),
    {
        match self {
            Ready::Ready(_) => true,
            Ready::NotReady => false,
        }
    }

    pub fn as_option(&self) -> (r: Option<&V>)
        ensures
            r.is_some() == self.value().is_some(),
            r.is_some() ==> *r.unwrap() == self.value().unwrap(),
    {
        match self {
            Ready::Ready(val) => Some(val),
            Ready::NotReady => None,
        }
    }

    pub fn as_option_mut(&mut self) -> (r: Option<&mut V>)
        ensures
            r.is_some() == old(self).value().is_some(),
            r.is_some() ==> *r.unwrap() == old(self).value().unwrap(),
            r is None ==> *final(self) == *old(self),
    {
        match self {
            Ready::Ready(val) => Some(val),
            Ready::NotReady => None,
        }
    }

    pub fn into_option(self) -> (r: Option<V>)
        ensures
            r == self.value(),
    {
        match self {
            Ready::Ready(val) => Some(val),
            Ready::NotReady => None,
        }
    }
}

} // verus!
