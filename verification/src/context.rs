//! Contexts: named sets of connection parameters, one of which is in use.
use crate::engine::sql::structure::ServerParams;
use vstd::prelude::*;

verus! {

/// A named set of connection parameters.
pub struct Context {
    pub name: ContextName,
    pub server_params: ServerParams,
}

/// The name of a context.
#[derive(Debug, PartialEq, Eq)]
pub struct ContextName(pub String);

impl View for ContextName {
    type V = Seq<char>;

    open spec fn view(&self) -> Seq<char> {
        self.0@
    }
}

impl ContextName {
    pub fn copy(&self) -> (r: ContextName)
        ensures
            r@ == self@,
    {
        ContextName(self.0.clone())
    }

    /// The name as text.
    pub fn as_str(&self) -> (r: &str)
        ensures
            r@ == self@,
    {
        self.0.as_str()
    }
}

impl From<String> for ContextName {
    fn from(value: String) -> (r: ContextName) {
        ContextName(value)
    }
}

impl vstd::std_specs::convert::FromSpecImpl<String> for ContextName {
    open spec fn obeys_from_spec() -> bool {
        true
    }

    open spec fn from_spec(v: String) -> ContextName {
        ContextName(v)
    }
}

impl From<ContextName> for String {
    fn from(value: ContextName) -> (r: String) {
        value.0
    }
}

impl vstd::std_specs::convert::FromSpecImpl<ContextName> for String {
    open spec fn obeys_from_spec() -> bool {
        true
    }

    open spec fn from_spec(v: ContextName) -> String {
        v.0
    }
}

} // verus!
