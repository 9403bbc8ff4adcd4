//! Where the node is reached, and with which credentials.

use vstd::prelude::*;
use vstd::string::*;

verus! {

/// The node's base URL and the credentials of its RPC interface.
pub struct NodeConfig {
    pub url: String,
    pub user: String,
    pub password: String,
}

impl NodeConfig {
    pub fn new(url: String, user: String, password: String) -> (r: NodeConfig)
        ensures
            r.url@ == url@,
            r.user@ == user@,
            r.password@ == password@,
    {
        NodeConfig { url, user, password }
    }

    /// The URL of the node's endpoint for the wallet `name`.
    pub fn wallet_url(&self, name: &str) -> (r: String)
        ensures
            r@ == self.url@ + "/wallet/"@ + name@,
    {
        let mut r = self.url.clone();
        r.append("/wallet/");
        r.append(name);
        r
    }
}

} // verus!
