//! The `vsql::preview::ping` capability.
use vstd::prelude::*;
use crate::preview::{plain_request, plain_request_of, CapabilityName, RequiredCapability, Capability};

verus! {

/// The oldest ping vtable version this SDK calls into; an older vtable
/// counts as unavailable.
pub const PING_ABI_VERSION: u32 = 1;

/// What the server's ping vtable offers.
#[derive(Debug, Clone, Copy)]
pub struct PingVtable {
    pub version: u32,
    pub has_ping: bool,
}

/// The `vsql::preview::ping` capability: the vtable the server installs at
/// load time, if it did.
pub struct PingCapability {
    abi: Option<PingVtable>,
}

impl PingCapability {
    /// The installed vtable.
    pub closed spec fn spec_abi(&self) -> Option<PingVtable> {
        self.abi
    }

    /// The vtable serves a ping at this SDK's ABI version.
    pub open spec fn can_ping(abi: Option<PingVtable>) -> bool {
        abi matches Some(v) && v.version >= PING_ABI_VERSION && v.has_ping
    }

    /// Create a ping capability with no vtable yet.
    pub fn new() -> (r: Self)
        ensures
            r.spec_abi() is None,
    {
        PingCapability { abi: None }
    }

    /// The server's load-time fill of the vtable slot.
    pub fn install(&mut self, vtable: PingVtable)
        ensures
            final(self).spec_abi() == Some(vtable),
    {
        self.abi = Some(vtable);
    }

    /// The server's ping counter, read by `call`; `None` when the capability
    /// was not populated, its ABI is older than this SDK's ABI version, or it has no ping.
    pub fn ping<F>(&self, call: F) -> (r: Option<u64>) where F: FnOnce() -> u64
        requires
            call_requires(call, ()),
        ensures
            !Self::can_ping(self.spec_abi()) ==> r is None,
            Self::can_ping(self.spec_abi()) ==> exists|n: u64|
                call_ensures(call, (), n) && r == Some(n),
    {
        match self.abi {
            None => None,
            Some(v) => {
                if v.version < PING_ABI_VERSION || !v.has_ping {
                    None
                } else {
                    Some(call())
                }
            },
        }
    }
}

impl Capability for PingCapability {
    open spec fn requestable(&self) -> bool {
        true
    }

    open spec fn is_request(&self, r: RequiredCapability) -> bool {
        &&& plain_request(CapabilityName::Ping, r)
    }

    /// The registration entry asking for the ping vtable, with no
    /// configuration.
    fn request(&self) -> (r: RequiredCapability) {
        plain_request_of(CapabilityName::Ping)
    }
}

} // verus!
