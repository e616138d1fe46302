//! Configuration values plugins read from the raw config text. Parsing the
//! text is the config-loading collaborator's job; the records themselves are
//! plain values.

use vstd::prelude::*;

verus! {

/// How a plugin reaches the relational database.
#[derive(Debug, Clone)]
pub struct DbConf {
    pub host: String,
    pub name: String,
    pub user: String,
    pub password: String,
}

} // verus!
