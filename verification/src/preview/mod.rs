//! Preview capabilities: opt-in, versioned access to server internals. Each
//! capability asks for its vtable with a registration entry; the server fills
//! the vtable slot at load time; these modules hold the checks made before
//! each call and how its outcome is read.
pub mod keyring;
pub mod ping;
pub mod sql_query;
pub mod status_var;
pub mod sys_var;
pub mod thread_worker;

use vstd::prelude::*;
use vstd::string::StringExecFns;
use crate::preview::status_var::StatusVarDescriptor;
use crate::preview::sys_var::SysVarDescriptor;
use crate::preview::thread_worker::ThreadWorkerDescriptor;

verus! {

/// Which capability a registration entry asks the server for.
#[derive(Debug, Clone, Copy, PartialEq, Eq, Structural)]
pub enum CapabilityName {
    Ping,
    Keyring,
    SysVar,
    StatusVar,
    ThreadWorker,
    SqlQuery,
}

/// What a capability hands the server along with its request.
pub enum CapabilityConfig {
    /// No configuration.
    Empty,
    /// The system variables to register, and their count.
    SysVars { vars: Vec<SysVarDescriptor>, var_count: u32 },
    /// The status variables to register, and their count.
    StatusVars { vars: Vec<StatusVarDescriptor>, var_count: u32 },
    /// The worker the server runs.
    ThreadWorker(ThreadWorkerDescriptor),
}

/// One entry in a registration's list of required capabilities.
pub struct RequiredCapability {
    pub name: CapabilityName,
    /// The vtable version tag the server matches against.
    pub vtable_hash: String,
    /// The configuration's version tag, when there is a configuration.
    pub config_hash: Option<String>,
    pub config: CapabilityConfig,
}

/// A capability an extension requests from the server: each builds the
/// registration entry the server resolves at load time.
pub trait Capability {
    /// The entry can be built (its lists fit a `u32` count).
    spec fn requestable(&self) -> bool;

    /// `r` is this capability's registration entry.
    spec fn is_request(&self, r: RequiredCapability) -> bool;

    /// Build the registration entry the server resolves at load time.
    fn request(&self) -> (r: RequiredCapability)
        requires
            self.requestable(),
        ensures
            self.is_request(r),
    ;
}

/// The version tag of every vtable and configuration this SDK speaks.
pub open spec fn version_tag() -> Seq<char> {
    "ver-1"@
}

pub(crate) fn version_tag_string() -> (r: String)
    ensures
        r@ == version_tag(),
{
    String::from_str("ver-1")
}

/// A request for the vtable of capability `name`, with no configuration.
pub open spec fn plain_request(name: CapabilityName, r: RequiredCapability) -> bool {
    &&& r.name == name
    &&& r.vtable_hash@ == version_tag()
    &&& r.config_hash is None
    &&& r.config is Empty
}

pub(crate) fn plain_request_of(name: CapabilityName) -> (r: RequiredCapability)
    ensures
        plain_request(name, r),
{
    RequiredCapability {
        name,
        vtable_hash: version_tag_string(),
        config_hash: None,
        config: CapabilityConfig::Empty,
    }
}

} // verus!
