//! The store configuration: the connection text the process is started
//! with. Reading it from the environment is the surrounding program's job.

use vstd::prelude::*;

verus! {

/// The connection text for the relational store.
pub struct DatabaseConfig {
    pub url: String,
}

impl DatabaseConfig {
    /// A configuration holding the given connection text.
    pub fn new(url: String) -> (r: Self)
        ensures
            r.url@ == url@,
    {
        Self { url }
    }

    /// The connection text.
    pub fn get_url(&self) -> (r: &str)
        ensures
            r@ == self.url@,
    {
        self.url.as_str()
    }
}

} // verus!
