//! Plain records exchanged with the application shell.

use vstd::prelude::*;

verus! {

/// Credentials as the shell keeps them in the OS keychain.
#[derive(Debug, Clone, PartialEq, Eq)]
pub struct StoredCredentials {
    pub jid: String,
    pub password: String,
    pub server: Option<String>,
}

/// Link-preview metadata of a URL.
#[derive(Debug, Clone, PartialEq, Eq)]
pub struct UrlMetadata {
    pub url: String,
    pub title: Option<String>,
    pub description: Option<String>,
    pub image: Option<String>,
    pub site_name: Option<String>,
}

} // verus!
