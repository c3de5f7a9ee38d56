//! A model's refusal to answer, as its own type.

use vstd::prelude::*;

verus! {

/// The text of a refusal.
#[derive(Clone, Debug)]
pub struct Refusal(pub String);

impl Refusal {
    /// The refusal's text.
    pub fn message(&self) -> (r: &String)
        ensures
            r@ == self.0@,
    {
        &self.0
    }

    /// The refusal's text, giving up the value.
    pub fn into_message(self) -> (r: String)
        ensures
            r@ == self.0@,
    {
        self.0
    }
}

impl From<String> for Refusal {
    fn from(value: String) -> (r: Refusal) {
        Refusal(value)
    }
}

impl vstd::std_specs::convert::FromSpecImpl<String> for Refusal {
    open spec fn obeys_from_spec() -> bool {
        true
    }

    open spec fn from_spec(value: String) -> Refusal {
        Refusal(value)
    }
}

impl From<Refusal> for String {
    fn from(value: Refusal) -> (r: String) {
        value.0
    }
}

impl vstd::std_specs::convert::FromSpecImpl<Refusal> for String {
    open spec fn obeys_from_spec() -> bool {
        true
    }

    open spec fn from_spec(value: Refusal) -> String {
        value.0
    }
}

} // verus!
