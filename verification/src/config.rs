//! The settings that the server reads. They are loaded elsewhere and come
//! here as plain values, read and never changed.

use vstd::prelude::*;

use crate::cidr::Cidr;
use crate::net::SocketAddress;

verus! {

/// How the database is reached.
#[derive(Debug)]
pub struct PostgreSQLConfig {
    pub host: String,
    pub port: u16,
    pub user: String,
    pub password: String,
    pub name: String,
    pub sslmode: String,
    pub sslrootcert: Option<String>,
    pub sslcert: Option<String>,
    pub sslkey: Option<String>,
    pub conn_max_age: Option<u64>,
    pub conn_health_checks: bool,
    pub default_schema: String,
}

/// Where the server listens, and which peers it believes.
#[derive(Debug)]
pub struct ListenConfig {
    pub http: Vec<SocketAddress>,
    pub https: Vec<SocketAddress>,
    pub ldap: Vec<SocketAddress>,
    pub ldaps: Vec<SocketAddress>,
    pub radius: Vec<SocketAddress>,
    pub metrics: Vec<SocketAddress>,
    pub debug: SocketAddress,
    /// The ranges of the reverse proxies whose forwarding headers are
    /// believed.
    pub trusted_proxy_cidrs: Vec<Cidr>,
}

/// Whether every range in a list is well formed.
pub open spec fn all_wf(cidrs: Seq<Cidr>) -> bool {
    forall|i: int| 0 <= i < cidrs.len() ==> (#[trigger] cidrs[i]).wf()
}

impl ListenConfig {
    /// Every range of trusted proxies is well formed.
    pub open spec fn wf(&self) -> bool {
        all_wf(self.trusted_proxy_cidrs@)
    }

    /// The number of listeners that the server starts: one for each
    /// plaintext, TLS and metrics address.
    pub fn listener_count(&self) -> (r: Option<usize>)
        ensures
            match r {
                Some(n) => n == self.http@.len() + self.https@.len() + self.metrics@.len(),
                None => self.http@.len() + self.https@.len() + self.metrics@.len() > usize::MAX,
            },
    {
        match self.http.len().checked_add(self.https.len()) {
            Some(n) => n.checked_add(self.metrics.len()),
            None => None,
        }
    }
}

#[derive(Debug)]
pub struct LogConfig {
    pub http_headers: Vec<String>,
    pub rust_log: Option<String>,
}

#[derive(Debug)]
pub struct OutpostsConfig {
    pub disable_embedded_outpost: bool,
}

#[derive(Debug)]
pub struct LDAPConfig {
    pub task_timeout_hours: u32,
    pub page_size: u32,
    pub tls: LDAPTLSConfig,
}

#[derive(Debug)]
pub struct LDAPTLSConfig {
    pub ciphers: Option<String>,
}

#[derive(Debug)]
pub struct ComplianceConfig {
    pub fips: ComplianceFipsConfig,
}

#[derive(Debug)]
pub struct ComplianceFipsConfig {
    pub enabled: bool,
}

/// How the backend is run: the size of its pool of workers.
#[derive(Debug)]
pub struct WebConfig {
    pub workers: usize,
    pub threads: usize,
    pub path: String,
}

impl WebConfig {
    /// The number of idle connections to the backend that are kept: one
    /// for each thread of each worker, or as many as can be counted.
    pub fn pool_size(&self) -> (r: usize)
        ensures
            r == if self.workers * self.threads <= usize::MAX {
                self.workers * self.threads
            } else {
                usize::MAX as int
            },
    {
        match self.workers.checked_mul(self.threads) {
            Some(n) => n,
            None => usize::MAX,
        }
    }
}

#[derive(Debug)]
pub struct WorkerConfig {
    pub processes: u32,
    pub threads: u32,
}

#[derive(Debug)]
pub struct StorageConfig {
    pub backend: String,
    pub file: StorageFileConfig,
    pub media: Option<StorageOverrideConfig>,
    pub reports: Option<StorageOverrideConfig>,
}

#[derive(Debug)]
pub struct StorageFileConfig {
    pub path: String,
}

#[derive(Debug, Default)]
pub struct StorageOverrideConfig {
    pub backend: Option<String>,
    pub file: Option<StorageFileOverrideConfig>,
}

#[derive(Debug, Default)]
pub struct StorageFileOverrideConfig {
    pub path: Option<String>,
}

} // verus!
