//! The configuration of each component, and the addresses made from it.

use vstd::prelude::*;
use crate::text::{decimal, u64_to_decimal};

verus! {

/// The manager's configuration.
#[derive(Debug)]
pub struct ManagerConfig {
    /// The IPv4 address the manager listens on.
    pub manager_addr_ipv4: String,
    /// The port the manager listens on.
    pub manager_port: u16,
}

/// A download server's configuration.
#[derive(Debug)]
pub struct ServerConfig {
    /// The manager's IPv4 address.
    pub manager_addr_ipv4: String,
    /// The manager's port.
    pub manager_port: u16,
    /// The directory for temporary files.
    pub tmp_dir: String,
    /// How many threads download at once.
    pub threads_num: usize,
    /// The directory for downloaded files.
    pub target_dir: String,
}

/// A client's configuration.
#[derive(Debug)]
pub struct ClientConfig {
    /// The manager's IPv4 address.
    pub manager_addr_ipv4: String,
    /// The manager's port.
    pub manager_port: u16,
    /// The directory for file segments.
    pub tmp_dir: String,
    /// The directory for downloaded files.
    pub target_dir: String,
}

/// `host:port`.
pub open spec fn host_port(host: Seq<char>, port: u16) -> Seq<char> {
    host + ":"@ + decimal(port as nat)
}

/// `host:port`, the port in decimal.
pub fn join_host_port(host: &str, port: u16) -> (s: String)
    ensures
        s@ == host_port(host@, port),
{
    let mut s = host.to_owned();
    s.append(":");
    let p = u64_to_decimal(port as u64);
    s.append(p.as_str());
    s
}

impl ManagerConfig {
    /// The socket address the manager listens on: `address:port`.
    pub fn listen_address(&self) -> (s: String)
        ensures
            s@ == host_port(self.manager_addr_ipv4@, self.manager_port),
    {
        join_host_port(self.manager_addr_ipv4.as_str(), self.manager_port)
    }
}

impl ServerConfig {
    /// The URL of the manager's service: `http://address:port`.
    pub fn manager_endpoint(&self) -> (s: String)
        ensures
            s@ == "http://"@ + host_port(self.manager_addr_ipv4@, self.manager_port),
    {
        let mut s = "http://".to_owned();
        let hp = join_host_port(self.manager_addr_ipv4.as_str(), self.manager_port);
        s.append(hp.as_str());
        s
    }
}

} // verus!
