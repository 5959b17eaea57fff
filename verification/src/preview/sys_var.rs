//! The `vsql::sys_var` capability: system variables an extension declares,
//! and the descriptors the server registers for them.
use vstd::prelude::*;
use crate::preview::{version_tag, version_tag_string, CapabilityConfig, CapabilityName, RequiredCapability, Capability};

verus! {

/// The oldest sys_var vtable version this SDK calls into; an older vtable
/// counts as unavailable.
pub const SYS_VAR_ABI_VERSION: u32 = 1;

/// One system variable an extension wants to declare.
pub enum SysVarSpec {
    Bool { name: String, comment: String, default: bool, has_on_change: bool },
    Int { name: String, comment: String, default: i64, min: i64, max: i64, has_on_change: bool },
    Str { name: String, comment: String, default: String, has_on_change: bool },
}

/// The storage and bounds the server reads for one variable.
pub enum SysVarValue {
    Bool { current: bool, default: bool },
    Int { current: i64, default: i64, min: i64, max: i64 },
    /// A string variable's current value starts unset.
    Str { current: Option<String>, default: String },
}

/// The descriptor of one declared variable.
pub struct SysVarDescriptor {
    pub name: String,
    pub comment: String,
    pub has_on_change: bool,
    pub value: SysVarValue,
}

/// How a declared variable is described to the server: its name, comment
/// and change hook, with its storage starting at the default (unset for a
/// string variable).
pub open spec fn sys_var_descriptor_of(spec: SysVarSpec) -> SysVarDescriptor {
    match spec {
        SysVarSpec::Bool { name, comment, default, has_on_change } => SysVarDescriptor {
            name,
            comment,
            has_on_change,
            value: SysVarValue::Bool { current: default, default },
        },
        SysVarSpec::Int { name, comment, default, min, max, has_on_change } => SysVarDescriptor {
            name,
            comment,
            has_on_change,
            value: SysVarValue::Int { current: default, default, min, max },
        },
        SysVarSpec::Str { name, comment, default, has_on_change } => SysVarDescriptor {
            name,
            comment,
            has_on_change,
            value: SysVarValue::Str { current: None, default },
        },
    }
}

fn copy_string(s: &String) -> (r: String)
    ensures
        r == *s,
{
    s.clone()
}

fn sys_var_descriptor(spec: &SysVarSpec) -> (r: SysVarDescriptor)
    ensures
        r == sys_var_descriptor_of(*spec),
{
    match spec {
        SysVarSpec::Bool { name, comment, default, has_on_change } => SysVarDescriptor {
            name: copy_string(name),
            comment: copy_string(comment),
            has_on_change: *has_on_change,
            value: SysVarValue::Bool { current: *default, default: *default },
        },
        SysVarSpec::Int { name, comment, default, min, max, has_on_change } => SysVarDescriptor {
            name: copy_string(name),
            comment: copy_string(comment),
            has_on_change: *has_on_change,
            value: SysVarValue::Int { current: *default, default: *default, min: *min, max: *max },
        },
        SysVarSpec::Str { name, comment, default, has_on_change } => SysVarDescriptor {
            name: copy_string(name),
            comment: copy_string(comment),
            has_on_change: *has_on_change,
            value: SysVarValue::Str { current: None, default: copy_string(default) },
        },
    }
}

/// The descriptor list a `sys_var` capability registers: one descriptor per
/// declared variable, in order, with the count.
pub fn sys_var_descriptors(specs: &[SysVarSpec]) -> (r: (Vec<SysVarDescriptor>, u32))
    requires
        specs@.len() <= u32::MAX,
    ensures
        r.0@ == specs@.map_values(|s: SysVarSpec| sys_var_descriptor_of(s)),
        r.1 == specs@.len(),
{
    let mut out: Vec<SysVarDescriptor> = Vec::new();
    let mut i: usize = 0;
    while i < specs.len()
        invariant
            i <= specs@.len() <= u32::MAX,
            out@ == specs@.take(i as int).map_values(|s: SysVarSpec| sys_var_descriptor_of(s)),
        decreases specs@.len() - i,
    {
        out.push(sys_var_descriptor(&specs[i]));
        proof {
            assert(specs@.take(i + 1).map_values(|s: SysVarSpec| sys_var_descriptor_of(s)) =~= specs@.take(
                i as int,
            ).map_values(|s: SysVarSpec| sys_var_descriptor_of(s)).push(sys_var_descriptor_of(specs@[i as int])));
        }
        i = i + 1;
    }
    proof {
        assert(specs@.take(i as int) =~= specs@);
    }
    let count = out.len() as u32;
    (out, count)
}

/// What the server's sys_var vtable offers.
#[derive(Debug, Clone, Copy)]
pub struct SysVarVtable {
    pub version: u32,
    pub has_get: bool,
    pub has_set: bool,
}

/// The `vsql::sys_var` capability: its declared variables and the vtable
/// the server installs at load time, if it did.
pub struct SysVarCapability {
    abi: Option<SysVarVtable>,
    specs: Vec<SysVarSpec>,
}

impl SysVarCapability {
    /// The installed vtable.
    pub closed spec fn spec_abi(&self) -> Option<SysVarVtable> {
        self.abi
    }

    /// The declared variables.
    pub closed spec fn spec_specs(&self) -> Seq<SysVarSpec> {
        self.specs@
    }

    /// Create the capability declaring `specs`, with no vtable yet.
    pub fn new(specs: Vec<SysVarSpec>) -> (r: Self)
        ensures
            r.spec_abi() is None,
            r.spec_specs() == specs@,
    {
        SysVarCapability { abi: None, specs }
    }

    /// The server's load-time fill of the vtable slot.
    pub fn install(&mut self, vtable: SysVarVtable)
        ensures
            final(self).spec_abi() == Some(vtable),
            final(self).spec_specs() == old(self).spec_specs(),
    {
        self.abi = Some(vtable);
    }

    /// Read the system variable `name` of component `component` (an
    /// extension name): `call` asks the server for it and gives its flag
    /// (`false` is success, as in C; the value itself reaches the caller
    /// through `call`). `None` when the vtable is missing, older than
    /// this SDK's ABI version, or has no `get`.
    pub fn get<F>(&self, component: &str, name: &str, call: F) -> (r: Option<bool>) where
        F: FnOnce(&str, &str) -> bool,

        requires
            call_requires(call, (component, name)),
        ensures
            !(self.spec_abi() matches Some(v) && v.version >= SYS_VAR_ABI_VERSION && v.has_get) ==> r is None,
            (self.spec_abi() matches Some(v) && v.version >= SYS_VAR_ABI_VERSION && v.has_get) ==> exists|b: bool|
                call_ensures(call, (component, name), b) && r == Some(b),
    {
        match self.abi {
            None => None,
            Some(v) => {
                if v.version < SYS_VAR_ABI_VERSION || !v.has_get {
                    None
                } else {
                    Some(call(component, name))
                }
            },
        }
    }

    /// Set the system variable `name` of component `component` to `val`;
    /// `scope` selects persistence (`None` for the running value only,
    /// `PERSIST` or `PERSIST_ONLY`). `call` asks the server and gives its
    /// flag (`false` is success, as in C). `None` when the vtable is missing,
    /// older than this SDK's ABI version, or has no `set`.
    pub fn set<F>(&self, component: &str, name: &str, scope: Option<&str>, val: &str, call: F) -> (r:
        Option<bool>) where F: FnOnce(&str, &str, Option<&str>, &str) -> bool
        requires
            call_requires(call, (component, name, scope, val)),
        ensures
            !(self.spec_abi() matches Some(v) && v.version >= SYS_VAR_ABI_VERSION && v.has_set) ==> r is None,
            (self.spec_abi() matches Some(v) && v.version >= SYS_VAR_ABI_VERSION && v.has_set) ==> exists|b: bool|
                call_ensures(call, (component, name, scope, val), b) && r == Some(b),
    {
        match self.abi {
            None => None,
            Some(v) => {
                if v.version < SYS_VAR_ABI_VERSION || !v.has_set {
                    None
                } else {
                    Some(call(component, name, scope, val))
                }
            },
        }
    }
}

impl Capability for SysVarCapability {
    open spec fn requestable(&self) -> bool {
        self.spec_specs().len() <= u32::MAX
    }

    open spec fn is_request(&self, r: RequiredCapability) -> bool {
        &&& r.name == CapabilityName::SysVar
        &&& r.vtable_hash@ == version_tag()
        &&& r.config_hash matches Some(h) && h@ == version_tag()
        &&& r.config matches CapabilityConfig::SysVars { vars, var_count } && vars@
            == self.spec_specs().map_values(|s: SysVarSpec| sys_var_descriptor_of(s))
            && var_count == self.spec_specs().len()
    }

    /// The registration entry declaring this capability's system
    /// variables: their descriptors, in order, and their count.
    fn request(&self) -> (r: RequiredCapability) {
        let (vars, var_count) = sys_var_descriptors(self.specs.as_slice());
        RequiredCapability {
            name: CapabilityName::SysVar,
            vtable_hash: version_tag_string(),
            config_hash: Some(version_tag_string()),
            config: CapabilityConfig::SysVars { vars, var_count },
        }
    }
}

} // verus!
