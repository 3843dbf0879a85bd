//! The probe of one target, as a worker runs it.
//!
//! A probe has two steps: connecting to the target, then negotiating with
//! the peer (the handshake, the banner and the authentication methods). The
//! worker does the network part of each step and reports what came of it;
//! the types here decide what follows. A step that fails ends the probe at
//! once with the failure as the response: there is no retry. Only a probe
//! that connected and then negotiated gives a response with metadata.

use crate::model::{host_text, respond, Response, SshInfo, Target, TargetView};
use vstd::prelude::*;

verus! {

/// A probe that has yet to connect to its target.
#[derive(Debug)]
pub struct Connecting {
    target: Target,
}

/// A probe that has connected to its target and has yet to negotiate.
#[derive(Debug)]
pub struct Negotiating {
    target: Target,
}

impl Connecting {
    /// The target of the probe.
    pub closed spec fn target(self) -> TargetView {
        self.target@
    }

    /// Starts the probe of `target`, which the probe owns from here on.
    pub fn new(target: Target) -> (probe: Connecting)
        ensures
            probe.target() == target@,
    {
        Connecting { target }
    }

    /// The text to connect to: the address, a colon and the port.
    pub fn host(&self) -> (r: String)
        ensures
            r@ == host_text(self.target()),
    {
        self.target.host()
    }

    /// The connection was opened: the probe goes on to negotiate.
    pub fn connected(self) -> (next: Negotiating)
        ensures
            next.target() == self.target(),
    {
        Negotiating { target: self.target }
    }

    /// The connection could not be opened, `reason` says why: the probe
    /// ends with that as its response.
    pub fn failed(self, reason: String) -> (r: Response)
        ensures
            r@ == respond(self.target(), Err(reason@)),
            r@.target == self.target(),
            r@.error == Some(reason@),
            r@.ssh_info is None,
    {
        Response::from_outcome(self.target, Err(reason))
    }
}

impl Negotiating {
    /// The target of the probe.
    pub closed spec fn target(self) -> TargetView {
        self.target@
    }

    /// The peer answered with `info`: the probe ends with the metadata as
    /// its response.
    pub fn answered(self, info: SshInfo) -> (r: Response)
        ensures
            r@ == respond(self.target(), Ok(info@)),
            r@.target == self.target(),
            r@.error is None,
            r@.ssh_info == Some(info@),
    {
        Response::from_outcome(self.target, Ok(info))
    }

    /// The handshake or a query failed, `reason` says why: the probe ends
    /// with that as its response.
    pub fn failed(self, reason: String) -> (r: Response)
        ensures
            r@ == respond(self.target(), Err(reason@)),
            r@.target == self.target(),
            r@.error == Some(reason@),
            r@.ssh_info is None,
    {
        Response::from_outcome(self.target, Err(reason))
    }
}

} // verus!
