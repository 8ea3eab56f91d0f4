//! The runtime environments the service distinguishes when loading its
//! configuration.

use vstd::prelude::*;

verus! {

/// The possible runtime environments for the application.
#[derive(Clone, Copy, Debug, PartialEq, Eq, Structural)]
pub enum Environment {
    Local,
    Production,
}

impl Environment {
    /// The name the environment goes by in configuration files.
    pub fn as_str(&self) -> (r: &'static str)
        ensures
            r@ == match self {
                Environment::Local => "local"@,
                Environment::Production => "production"@,
            },
    {
        match self {
            Environment::Local => "local",
            Environment::Production => "production",
        }
    }
}

} // verus!
