//! The shared vocabulary of the pipeline: targets, probe metadata and
//! responses.

use crate::text::{decimal, push_decimal};
use vstd::prelude::*;

verus! {

/// A network endpoint to probe: a host address and a port.
///
/// Two targets are equal when both fields are equal; no normalisation of the
/// address takes place.
#[derive(Debug, Eq, Hash)]
pub struct Target {
    pub ip: String,
    pub port: u16,
}

/// The mathematical content of a [`Target`].
pub struct TargetView {
    pub ip: Seq<char>,
    pub port: u16,
}

impl PartialEq for Target {
    fn eq(&self, other: &Target) -> (r: bool) {
        self.ip == other.ip && self.port == other.port
    }
}

impl vstd::std_specs::cmp::PartialEqSpecImpl for Target {
    open spec fn obeys_eq_spec() -> bool {
        true
    }

    open spec fn eq_spec(&self, other: &Target) -> bool {
        self@ == other@
    }
}

impl Clone for Target {
    fn clone(&self) -> (r: Target)
        ensures
            r == *self,
    {
        Target { ip: self.ip.clone(), port: self.port }
    }
}

impl View for Target {
    type V = TargetView;

    open spec fn view(&self) -> TargetView {
        TargetView { ip: self.ip@, port: self.port }
    }
}

/// The text that names a target to the network layer: the address, a colon
/// and the port in decimal.
pub open spec fn host_text(target: TargetView) -> Seq<char> {
    target.ip + seq![':'] + decimal(target.port as nat)
}

impl Target {
    /// The address and port of the target as one text, `address:port`.
    pub fn host(&self) -> (r: String)
        ensures
            r@ == host_text(self@),
    {
        let mut r = self.ip.clone();
        r.push(':');
        push_decimal(&mut r, self.port);
        r
    }
}

/// Protocol metadata returned by a successful probe.
#[derive(Debug, Eq, Hash)]
pub struct SshInfo {
    /// The banner the peer presented, if any.
    pub banner: Option<String>,
    /// The authentication mechanisms the peer offers, as the peer lists them.
    pub auth_methods: String,
}

/// The mathematical content of an [`SshInfo`].
pub struct SshInfoView {
    pub banner: Option<Seq<char>>,
    pub auth_methods: Seq<char>,
}

/// The content of an optional string.
pub open spec fn text_of(s: Option<String>) -> Option<Seq<char>> {
    match s {
        Some(t) => Some(t@),
        None => None,
    }
}

impl PartialEq for SshInfo {
    fn eq(&self, other: &SshInfo) -> (r: bool) {
        let same_banner = match (&self.banner, &other.banner) {
            (Some(a), Some(b)) => *a == *b,
            (None, None) => true,
            _ => false,
        };
        same_banner && self.auth_methods == other.auth_methods
    }
}

impl vstd::std_specs::cmp::PartialEqSpecImpl for SshInfo {
    open spec fn obeys_eq_spec() -> bool {
        true
    }

    open spec fn eq_spec(&self, other: &SshInfo) -> bool {
        self@ == other@
    }
}

impl Clone for SshInfo {
    fn clone(&self) -> (r: SshInfo)
        ensures
            r == *self,
    {
        let banner = match &self.banner {
            Some(text) => Some(text.clone()),
            None => None,
        };
        SshInfo { banner, auth_methods: self.auth_methods.clone() }
    }
}

impl View for SshInfo {
    type V = SshInfoView;

    open spec fn view(&self) -> SshInfoView {
        SshInfoView { banner: text_of(self.banner), auth_methods: self.auth_methods@ }
    }
}

/// The content of optional probe metadata.
pub open spec fn info_of(s: Option<SshInfo>) -> Option<SshInfoView> {
    match s {
        Some(t) => Some(t@),
        None => None,
    }
}

/// The mathematical content of a [`Response`].
pub struct ResponseView {
    pub target: TargetView,
    pub error: Option<Seq<char>>,
    pub ssh_info: Option<SshInfoView>,
}

impl ResponseView {
    /// A response carries an error description or probe metadata, never
    /// both and never neither.
    pub open spec fn wf(self) -> bool {
        self.error.is_some() != self.ssh_info.is_some()
    }
}

/// What a probe came to, before it is tied to its target.
pub type Outcome = Result<SshInfo, String>;

/// The response that a probe outcome gives for a target.
pub open spec fn respond(target: TargetView, outcome: Result<SshInfoView, Seq<char>>) -> ResponseView {
    match outcome {
        Ok(info) => ResponseView { target, error: None, ssh_info: Some(info) },
        Err(message) => ResponseView { target, error: Some(message), ssh_info: None },
    }
}

/// The content of a probe outcome.
pub open spec fn outcome_of(outcome: Outcome) -> Result<SshInfoView, Seq<char>> {
    match outcome {
        Ok(info) => Ok(info@),
        Err(message) => Err(message@),
    }
}

/// One output record: the target that was probed and what came of it.
#[derive(Debug, Eq, Hash)]
pub struct Response {
    target: Target,
    error: Option<String>,
    ssh_info: Option<SshInfo>,
}

impl PartialEq for Response {
    fn eq(&self, other: &Response) -> (r: bool) {
        let same_error = match (&self.error, &other.error) {
            (Some(a), Some(b)) => *a == *b,
            (None, None) => true,
            _ => false,
        };
        let same_info = match (&self.ssh_info, &other.ssh_info) {
            (Some(a), Some(b)) => *a == *b,
            (None, None) => true,
            _ => false,
        };
        self.target == other.target && same_error && same_info
    }
}

impl vstd::std_specs::cmp::PartialEqSpecImpl for Response {
    open spec fn obeys_eq_spec() -> bool {
        true
    }

    open spec fn eq_spec(&self, other: &Response) -> bool {
        self@ == other@
    }
}

impl Clone for Response {
    fn clone(&self) -> (r: Response)
        ensures
            r == *self,
    {
        proof {
            use_type_invariant(self);
        }
        let error = match &self.error {
            Some(text) => Some(text.clone()),
            None => None,
        };
        let ssh_info = match &self.ssh_info {
            Some(info) => Some(info.clone()),
            None => None,
        };
        Response { target: self.target.clone(), error, ssh_info }
    }
}

impl View for Response {
    type V = ResponseView;

    closed spec fn view(&self) -> ResponseView {
        ResponseView {
            target: self.target@,
            error: text_of(self.error),
            ssh_info: info_of(self.ssh_info),
        }
    }
}

impl Response {
    #[verifier::type_invariant]
    spec fn exactly_one(self) -> bool {
        self.error.is_some() != self.ssh_info.is_some()
    }

    /// The response for a target whose probe failed.
    pub fn failure(target: Target, error: String) -> (r: Response)
        ensures
            r@ == (ResponseView { target: target@, error: Some(error@), ssh_info: None }),
            r@.wf(),
    {
        Response { target, error: Some(error), ssh_info: None }
    }

    /// The response for a target whose probe succeeded.
    pub fn success(target: Target, info: SshInfo) -> (r: Response)
        ensures
            r@ == (ResponseView { target: target@, error: None, ssh_info: Some(info@) }),
            r@.wf(),
    {
        Response { target, error: None, ssh_info: Some(info) }
    }

    /// Whether the probe failed. A response holds an error exactly when
    /// it holds no metadata: that is so of every response there is.
    pub fn is_failure(&self) -> (b: bool)
        ensures
            b == self@.error.is_some(),
            b == self@.ssh_info.is_none(),
            self@.wf(),
    {
        proof {
            use_type_invariant(self);
        }
        self.error.is_some()
    }

    /// The target that was probed.
    pub fn target(&self) -> (t: &Target)
        ensures
            t@ == self@.target,
    {
        &self.target
    }

    /// The failure description, where the probe failed.
    pub fn error(&self) -> (e: &Option<String>)
        ensures
            text_of(*e) == self@.error,
    {
        &self.error
    }

    /// The probe metadata, where the probe succeeded.
    pub fn ssh_info(&self) -> (i: &Option<SshInfo>)
        ensures
            info_of(*i) == self@.ssh_info,
    {
        &self.ssh_info
    }

    /// Ties a probe outcome to its target. The target moves into the
    /// response; every outcome gives exactly one response.
    pub fn from_outcome(target: Target, outcome: Outcome) -> (r: Response)
        ensures
            r@ == respond(target@, outcome_of(outcome)),
            r@.wf(),
    {
        match outcome {
            Ok(info) => Response::success(target, info),
            Err(message) => Response::failure(target, message),
        }
    }
}

} // verus!
