//! The `vsql::status_var` capability: status variables an extension owns and
//! the server reads live at `SHOW STATUS`, and the descriptors it registers.
use vstd::prelude::*;
use std::sync::atomic::AtomicI64;
use std::sync::atomic::AtomicU64;
use crate::preview::{version_tag, version_tag_string, CapabilityConfig, CapabilityName, RequiredCapability, Capability};

verus! {

/// One status variable an extension declares. The extension owns the
/// counter; the server reads it live.
pub enum StatusVarSpec {
    Int { name: String, value: &'static AtomicI64 },
    /// A `DOUBLE` variable, its counter holding the value's IEEE-754 bits.
    Double { name: String, value: &'static AtomicU64 },
}

/// The type tag the server reads a status variable by.
#[derive(Debug, Clone, Copy, PartialEq, Eq, Structural)]
pub enum StatusVarType {
    Int,
    Double,
}

/// The counter a status variable's descriptor points the server at.
pub enum StatusVarCell {
    Int(&'static AtomicI64),
    Double(&'static AtomicU64),
}

/// The descriptor of one declared status variable.
pub struct StatusVarDescriptor {
    pub name: String,
    pub var_type: StatusVarType,
    pub value: StatusVarCell,
}

/// How a declared status variable is described to the server: its name, its
/// type tag, and its own counter.
pub open spec fn status_var_descriptor_of(spec: StatusVarSpec) -> StatusVarDescriptor {
    match spec {
        StatusVarSpec::Int { name, value } => StatusVarDescriptor {
            name,
            var_type: StatusVarType::Int,
            value: StatusVarCell::Int(value),
        },
        StatusVarSpec::Double { name, value } => StatusVarDescriptor {
            name,
            var_type: StatusVarType::Double,
            value: StatusVarCell::Double(value),
        },
    }
}

fn status_var_descriptor(spec: &StatusVarSpec) -> (r: StatusVarDescriptor)
    ensures
        r == status_var_descriptor_of(*spec),
{
    match spec {
        StatusVarSpec::Int { name, value } => StatusVarDescriptor {
            name: name.clone(),
            var_type: StatusVarType::Int,
            value: StatusVarCell::Int(*value),
        },
        StatusVarSpec::Double { name, value } => StatusVarDescriptor {
            name: name.clone(),
            var_type: StatusVarType::Double,
            value: StatusVarCell::Double(*value),
        },
    }
}

/// The descriptor list a `status_var` capability registers: one descriptor
/// per declared variable, in order, with the count.
pub fn status_var_descriptors(specs: &[StatusVarSpec]) -> (r: (Vec<StatusVarDescriptor>, u32))
    requires
        specs@.len() <= u32::MAX,
    ensures
        r.0@ == specs@.map_values(|s: StatusVarSpec| status_var_descriptor_of(s)),
        r.1 == specs@.len(),
{
    let mut out: Vec<StatusVarDescriptor> = Vec::new();
    let mut i: usize = 0;
    while i < specs.len()
        invariant
            i <= specs@.len() <= u32::MAX,
            out@ == specs@.take(i as int).map_values(|s: StatusVarSpec| status_var_descriptor_of(s)),
        decreases specs@.len() - i,
    {
        out.push(status_var_descriptor(&specs[i]));
        proof {
            assert(specs@.take(i + 1).map_values(|s: StatusVarSpec| status_var_descriptor_of(s))
                =~= specs@.take(i as int).map_values(|s: StatusVarSpec| status_var_descriptor_of(s)).push(
                status_var_descriptor_of(specs@[i as int]),
            ));
        }
        i = i + 1;
    }
    proof {
        assert(specs@.take(i as int) =~= specs@);
    }
    let count = out.len() as u32;
    (out, count)
}

/// The `vsql::status_var` capability and the variables it declares.
pub struct StatusVarCapability {
    specs: Vec<StatusVarSpec>,
}

impl StatusVarCapability {
    /// The declared variables.
    pub closed spec fn spec_specs(&self) -> Seq<StatusVarSpec> {
        self.specs@
    }

    /// Create a `status_var` capability declaring `specs`.
    pub fn new(specs: Vec<StatusVarSpec>) -> (r: Self)
        ensures
            r.spec_specs() == specs@,
    {
        StatusVarCapability { specs }
    }

}

impl Capability for StatusVarCapability {
    open spec fn requestable(&self) -> bool {
        self.spec_specs().len() <= u32::MAX
    }

    open spec fn is_request(&self, r: RequiredCapability) -> bool {
        &&& r.name == CapabilityName::StatusVar
        &&& r.vtable_hash@ == version_tag()
        &&& r.config_hash matches Some(h) && h@ == version_tag()
        &&& r.config matches CapabilityConfig::StatusVars { vars, var_count } && vars@
            == self.spec_specs().map_values(|s: StatusVarSpec| status_var_descriptor_of(s))
            && var_count == self.spec_specs().len()
    }

    /// The registration entry declaring this capability's status variables:
    /// their descriptors, in order, and their count.
    fn request(&self) -> (r: RequiredCapability) {
        let (vars, var_count) = status_var_descriptors(self.specs.as_slice());
        RequiredCapability {
            name: CapabilityName::StatusVar,
            vtable_hash: version_tag_string(),
            config_hash: Some(version_tag_string()),
            config: CapabilityConfig::StatusVars { vars, var_count },
        }
    }
}

} // verus!
