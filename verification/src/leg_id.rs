//! Names of call legs.
use vstd::prelude::*;

use vstd::std_specs::convert::FromSpecImpl;

verus! {

/// The name of a call leg.
#[derive(Debug, PartialEq, Eq, Hash)]
pub struct LegId(pub String);

impl Clone for LegId {
    fn clone(&self) -> (r: Self)
        ensures
            r == *self,
    {
        LegId(self.0.clone())
    }
}

impl LegId {
    pub fn new(id: &str) -> (r: Self)
        ensures
            r.0@ == id@,
    {
        LegId(id.to_owned())
    }

    pub fn to_string(&self) -> (r: String)
        ensures
            r == self.0,
    {
        self.0.clone()
    }

    pub fn as_str(&self) -> (r: &str)
        ensures
            r@ == self.0@,
    {
        self.0.as_str()
    }
}

impl From<String> for LegId {
    fn from(s: String) -> (r: Self) {
        LegId(s)
    }
}

impl FromSpecImpl<String> for LegId {
    open spec fn obeys_from_spec() -> bool {
        true
    }

    open spec fn from_spec(s: String) -> Self {
        LegId(s)
    }
}

impl From<&str> for LegId {
    fn from(s: &str) -> (r: Self)
        ensures
            r.0@ == s@,
    {
        LegId(s.to_owned())
    }
}

impl FromSpecImpl<&str> for LegId {
    open spec fn obeys_from_spec() -> bool {
        false
    }

    open spec fn from_spec(s: &str) -> Self {
        arbitrary()
    }
}

impl From<LegId> for String {
    fn from(leg_id: LegId) -> (r: String) {
        leg_id.0
    }
}

impl FromSpecImpl<LegId> for String {
    open spec fn obeys_from_spec() -> bool {
        true
    }

    open spec fn from_spec(leg_id: LegId) -> String {
        leg_id.0
    }
}

} // verus!
