//! A single named query parameter with a mutable string value.

use vstd::prelude::*;
use vstd::string::StringExecFns;

verus! {

/// Mathematical model of an [`ApiParam`]: its name and current value.
pub struct ParamModel {
    pub name: Seq<char>,
    pub value: Seq<char>,
}

/// The invariant of a parameter: its name is never empty. An empty value is
/// legal and means "not set — omit from the query string".
pub open spec fn param_inv(p: ParamModel) -> bool {
    p.name.len() > 0
}

/// The `name=value` encoding of one parameter, as used in a query string.
pub open spec fn encode_pair(name: Seq<char>, value: Seq<char>) -> Seq<char> {
    name + seq!['='] + value
}

/// One named URL query parameter. The name is fixed at construction; the
/// value is mutable and defaults to empty.
#[derive(Debug)]
pub struct ApiParam {
    name: String,
    value: String,
}

impl View for ApiParam {
    type V = ParamModel;

    closed spec fn view(&self) -> ParamModel {
        ParamModel { name: self.name@, value: self.value@ }
    }
}

impl DeepView for ApiParam {
    type V = ParamModel;

    open spec fn deep_view(&self) -> ParamModel {
        self.view()
    }
}

impl ApiParam {
    /// Returns a new parameter with the given name and an empty value.
    pub fn new(name: &String) -> (r: ApiParam)
        ensures
            r@ == (ParamModel { name: name@, value: Seq::<char>::empty() }),
    {
        let r = ApiParam { name: name.clone(), value: String::new() };
        proof {
            assert(r@ =~= (ParamModel { name: name@, value: Seq::<char>::empty() }));
        }
        r
    }

    /// Replaces the value unconditionally; an empty string clears it.
    pub fn update_value(&mut self, new_value: &str)
        ensures
            final(self)@ == (ParamModel { name: old(self)@.name, value: new_value@ }),
    {
        self.value = new_value.to_owned();
        proof {
            assert(final(self)@ =~= (ParamModel { name: old(self)@.name, value: new_value@ }));
        }
    }

    /// Returns the `name=value` pair for use within a request URL. An empty
    /// value still yields a (degenerate) pair; whether to omit it is the
    /// module layer's policy.
    pub fn to_string(&self) -> (r: String)
        ensures
            r@ == encode_pair(self@.name, self@.value),
    {
        proof {
            reveal_strlit("=");
        }
        let mut r = self.name.clone();
        r.append("=");
        r.append(self.value.as_str());
        proof {
            assert(r@ =~= encode_pair(self@.name, self@.value));
        }
        r
    }

    /// True exactly when this parameter's name equals `name`.
    pub fn has_name(&self, name: &String) -> (r: bool)
        ensures
            r == (self@.name == name@),
    {
        self.name == *name
    }

    /// Read access to the current value.
    pub fn value(&self) -> (r: &String)
        ensures
            r@ == self@.value,
    {
        &self.value
    }

    /// True exactly when the value is empty, i.e. the parameter is unset.
    pub fn is_unset(&self) -> (r: bool)
        ensures
            r == (self@.value.len() == 0),
    {
        self.value.as_str().is_empty()
    }
}

} // verus!
