//! The settings of a scan.

use vstd::prelude::*;

verus! {

/// The settings of a scan: how many workers probe at once, how long a
/// connection attempt may take, and the identity whose authentication
/// methods are asked for. A scan always has at least one worker.
#[derive(Debug, PartialEq, Eq)]
pub struct Config {
    workers: usize,
    connect_timeout_ms: u64,
    identity: String,
}

/// The mathematical content of a [`Config`].
pub struct ConfigView {
    pub workers: nat,
    pub connect_timeout_ms: nat,
    pub identity: Seq<char>,
}

impl View for Config {
    type V = ConfigView;

    closed spec fn view(&self) -> ConfigView {
        ConfigView {
            workers: self.workers as nat,
            connect_timeout_ms: self.connect_timeout_ms as nat,
            identity: self.identity@,
        }
    }
}

impl Config {
    #[verifier::type_invariant]
    spec fn has_a_worker(self) -> bool {
        self.workers >= 1
    }

    /// The settings with the given values; none where `workers` is zero.
    pub fn new(workers: usize, connect_timeout_ms: u64, identity: String) -> (r: Option<Config>)
        ensures
            r is None <==> workers == 0,
            r matches Some(c) ==> c@ == (ConfigView {
                workers: workers as nat,
                connect_timeout_ms: connect_timeout_ms as nat,
                identity: identity@,
            }),
    {
        if workers == 0 {
            None
        } else {
            Some(Config { workers, connect_timeout_ms, identity })
        }
    }

    /// The number of workers, at least one.
    pub fn workers(&self) -> (n: usize)
        ensures
            n == self@.workers,
            n >= 1,
    {
        proof {
            use_type_invariant(self);
        }
        self.workers
    }

    /// The time a connection attempt may take, in milliseconds.
    pub fn connect_timeout_ms(&self) -> (ms: u64)
        ensures
            ms == self@.connect_timeout_ms,
    {
        self.connect_timeout_ms
    }

    /// The identity whose authentication methods a probe asks for.
    pub fn identity(&self) -> (id: &String)
        ensures
            id@ == self@.identity,
    {
        &self.identity
    }
}

impl Default for Config {
    /// Thirty-two workers, one second to connect, and the identity `root`.
    fn default() -> (r: Config)
        ensures
            r@ == (ConfigView { workers: 32, connect_timeout_ms: 1000, identity: "root"@ }),
    {
        Config { workers: 32, connect_timeout_ms: 1000, identity: "root".to_owned() }
    }
}

} // verus!
