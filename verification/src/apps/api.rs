//! The wire shape of the app list that the host's own API serves.

use vstd::prelude::*;

verus! {

/// One routable app as the list endpoint reports it: its routing key and its
/// asset entry names, absent when the plugin declared them empty.
#[derive(Debug, Clone)]
pub struct App {
    pub key: String,
    pub js_entry: Option<String>,
    pub css_entry: Option<String>,
}

/// The request for the app list; it carries nothing.
#[derive(Debug, Clone)]
pub struct AppsReq {
}

/// The app list response.
#[derive(Debug, Clone)]
pub struct Apps {
    pub apps: Vec<App>,
}

} // verus!
