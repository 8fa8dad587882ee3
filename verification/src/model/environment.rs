//! Environments and their variables.

use vstd::prelude::*;

use crate::map::TextMap;
use crate::view::{copy_opt, opt_view, Copied};

verus! {

broadcast use vstd::string::group_string_axioms;

/// A variable of an environment; the value of a secret is kept elsewhere.
#[derive(Debug)]
pub struct EnvVar {
    pub value: Option<String>,
    pub secret: bool,
}

/// What [`EnvVar`] holds.
pub struct EnvVarV {
    pub value: Option<Seq<char>>,
    pub secret: bool,
}

impl View for EnvVar {
    type V = EnvVarV;

    open spec fn view(&self) -> EnvVarV {
        EnvVarV {
            value: opt_view(self.value),
            secret: self.secret,
        }
    }
}

impl Copied for EnvVar {
    fn copied(&self) -> (r: Self) {
        EnvVar {
            value: copy_opt(&self.value),
            secret: self.secret,
        }
    }
}

impl EnvVar {
    /// A variable with a value.
    pub fn plain(value: String) -> (r: EnvVar)
        ensures
            r@ == (EnvVarV { value: Some(value@), secret: false }),
    {
        EnvVar { value: Some(value), secret: false }
    }

    /// A secret, without its value.
    pub fn secret() -> (r: EnvVar)
        ensures
            r@ == (EnvVarV { value: None, secret: true }),
    {
        EnvVar { value: None, secret: true }
    }
}

/// A named set of variables.
#[derive(Debug)]
pub struct Environment {
    pub name: String,
    pub variables: TextMap<EnvVar>,
}

/// What [`Environment`] holds.
pub struct EnvironmentV {
    pub name: Seq<char>,
    pub variables: Seq<(Seq<char>, EnvVarV)>,
}

impl View for Environment {
    type V = EnvironmentV;

    open spec fn view(&self) -> EnvironmentV {
        EnvironmentV {
            name: self.name@,
            variables: self.variables@,
        }
    }
}

impl Copied for Environment {
    fn copied(&self) -> (r: Self) {
        Environment {
            name: self.name.clone(),
            variables: self.variables.copied(),
        }
    }
}

impl Environment {
    /// An environment without variables.
    pub fn new(name: &str) -> (r: Environment)
        ensures
            r@ == (EnvironmentV { name: name@, variables: seq![] }),
    {
        Environment { name: name.to_owned(), variables: TextMap::new() }
    }
}

} // verus!
