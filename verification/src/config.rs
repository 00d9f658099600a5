//! The configuration of the daemon: where it listens and how many workers it
//! keeps.

use vstd::prelude::*;
use vstd::string::*;

use crate::decimal::{append_decimal, decimal};

verus! {

/// The whole configuration.
pub struct Config {
    pub server: ServerConfig,
    pub threadpool: ThreadPoolConfig,
}

/// The address the listener binds.
pub struct ServerConfig {
    ip: String,
    port: u16,
}

/// The size of the worker pool.
pub struct ThreadPoolConfig {
    pub workers: usize,
}

/// Why a configuration cannot be started from.
#[derive(Clone, Copy, PartialEq, Eq, Structural, Debug)]
pub enum ConfigError {
    /// The pool would have no worker.
    NoWorkers,
}

impl ServerConfig {
    /// The configured address text.
    pub closed spec fn spec_ip(&self) -> Seq<char> {
        self.ip@
    }

    /// The configured port number.
    pub closed spec fn spec_port(&self) -> u16 {
        self.port
    }

    /// What the listener is bound to: the address, a colon, the port in
    /// decimal.
    pub open spec fn address(&self) -> Seq<char> {
        self.spec_ip() + seq![':'] + decimal(self.spec_port() as nat)
    }

    /// The address made of `ip` and `port`.
    pub fn new(ip: String, port: u16) -> (server: ServerConfig)
        ensures
            server.spec_ip() == ip@,
            server.spec_port() == port,
    {
        ServerConfig { ip, port }
    }

    /// The configured address text.
    pub fn ip(&self) -> (ip: &str)
        ensures
            ip@ == self.spec_ip(),
    {
        self.ip.as_str()
    }

    /// The configured port number.
    pub fn port(&self) -> (port: u16)
        ensures
            port == self.spec_port(),
    {
        self.port
    }

    /// The text handed to the listener.
    pub fn to_string(&self) -> (text: String)
        ensures
            text@ == self.address(),
    {
        let mut text = self.ip.clone();
        proof {
            reveal_strlit(":");
            assert(":"@ =~= seq![':']);
        }
        text.append(":");
        append_decimal(&mut text, self.port as u64);
        text
    }
}

impl Config {
    /// The configuration in words, as it is logged once it has been read.
    pub open spec fn summary(&self) -> Seq<char> {
        "\nServer: ip="@ + self.server.spec_ip() + ", port="@ + decimal(
            self.server.spec_port() as nat,
        ) + "\nThreadPool: workers="@ + decimal(self.threadpool.workers as nat)
    }

    /// The configuration in words.
    pub fn to_string(&self) -> (text: String)
        ensures
            text@ == self.summary(),
    {
        let mut text = "\nServer: ip=".to_owned();
        text.append(self.server.ip());
        text.append(", port=");
        append_decimal(&mut text, self.server.port() as u64);
        text.append("\nThreadPool: workers=");
        append_decimal(&mut text, self.threadpool.workers as u64);
        text
    }

    /// A configuration can be started from when its pool has at least one
    /// worker.
    pub fn validate(&self) -> (checked: Result<(), ConfigError>)
        ensures
            checked is Ok <==> self.threadpool.workers > 0,
            checked is Err ==> checked == Err::<(), ConfigError>(ConfigError::NoWorkers),
    {
        if self.threadpool.workers > 0 {
            Ok(())
        } else {
            Err(ConfigError::NoWorkers)
        }
    }
}

} // verus!
