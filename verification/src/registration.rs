//! What an extension registers with the server: its functions (each with its
//! SQL signature and hooks), its custom types with the SQL-callable functions
//! every custom type gets, and how the registration lists them.
use vstd::prelude::*;
use vstd::string::StringExecFns;
use crate::preview::RequiredCapability;
use crate::runtime::TypeId;
use vstd::std_specs::cmp::PartialEqSpecImpl;

verus! {

/// SQL type of a function parameter or return value.
#[derive(Debug, Clone, Copy)]
pub enum Type {
    String,
    Real,
    Int,
    /// A custom type registered by this extension, by its `'static` name.
    Custom(&'static str),
}

/// Whether two names are the same text at the same place (`std::ptr::eq`).
/// The contract claims only what holds whatever the addresses are: names at
/// the same address with the same length are the same text.
#[verifier::external_body]
fn same_name(a: &'static str, b: &'static str) -> (r: bool)
    ensures
        r ==> a@ == b@,
{
    std::ptr::eq(a, b)
}

impl PartialEq for Type {
    /// Two types are the same when they are the same built-in type, or custom
    /// types naming the very same `'static` name (compared by address, so two
    /// copies of one name in different places are different types).
    fn eq(&self, other: &Self) -> (r: bool)
        ensures
            (*self is Custom) != (*other is Custom) ==> !r,
            !(*self is Custom) && !(*other is Custom) ==> r == (match (*self, *other) {
                (Type::String, Type::String) => true,
                (Type::Real, Type::Real) => true,
                (Type::Int, Type::Int) => true,
                _ => false,
            }),
            (*self is Custom && *other is Custom && r) ==> self->Custom_0@ == other->Custom_0@,
    {
        match (self, other) {
            (Type::String, Type::String) => true,
            (Type::Real, Type::Real) => true,
            (Type::Int, Type::Int) => true,
            (Type::Custom(a), Type::Custom(b)) => same_name(*a, *b),
            _ => false,
        }
    }
}

impl Eq for Type {}

impl PartialEqSpecImpl for Type {
    /// Equality goes by address for custom types, which no spec function
    /// can follow, so `==` promises only what `eq` itself ensures.
    open spec fn obeys_eq_spec() -> bool {
        false
    }

    open spec fn eq_spec(&self, other: &Type) -> bool {
        match (self, other) {
            (Type::String, Type::String) => true,
            (Type::Real, Type::Real) => true,
            (Type::Int, Type::Int) => true,
            _ => false,
        }
    }
}

/// Descriptor of one function an extension exports.
pub struct FuncDescriptor {
    /// The name SQL calls it by.
    pub sql_name: String,
    pub params: Vec<Type>,
    pub returns: Type,
    /// Result buffer size; `0` asks for the server's default.
    pub buffer_size: usize,
    pub deterministic: bool,
    /// Accepts any number of arguments (the prerun hook validates them).
    pub varargs: bool,
    pub has_prerun: bool,
    pub has_postrun: bool,
    pub has_clear: bool,
    pub has_accumulate: bool,
}

/// The hooks a function registers besides its row function.
pub open spec fn hooks(f: FuncDescriptor) -> (bool, bool, bool, bool) {
    (f.has_prerun, f.has_postrun, f.has_clear, f.has_accumulate)
}

impl FuncDescriptor {
    fn make(
        sql_name: &str,
        params: Vec<Type>,
        ret: Type,
        buffer_size: usize,
        deterministic: bool,
        varargs: bool,
        hooks: (bool, bool, bool, bool),
    ) -> (r: Self)
        ensures
            r.sql_name@ == sql_name@,
            r.params == params,
            r.returns == ret,
            r.buffer_size == buffer_size,
            r.deterministic == deterministic,
            r.varargs == varargs,
            (r.has_prerun, r.has_postrun, r.has_clear, r.has_accumulate) == hooks,
    {
        FuncDescriptor {
            sql_name: String::from_str(sql_name),
            params,
            returns: ret,
            buffer_size,
            deterministic,
            varargs,
            has_prerun: hooks.0,
            has_postrun: hooks.1,
            has_clear: hooks.2,
            has_accumulate: hooks.3,
        }
    }

    /// A row function with fixed parameters and no per-statement state.
    pub fn scalar(sql_name: &str, params: Vec<Type>, ret: Type, buffer_size: usize, deterministic: bool) -> (r: Self)
        ensures
            r.sql_name@ == sql_name@ && r.params == params && r.returns == ret,
            r.buffer_size == buffer_size && r.deterministic == deterministic && !r.varargs,
            hooks(r) == (false, false, false, false),
    {
        Self::make(sql_name, params, ret, buffer_size, deterministic, false, (false, false, false, false))
    }

    /// A row function with per-statement state: set up in prerun, dropped in
    /// postrun.
    pub fn with_state(sql_name: &str, params: Vec<Type>, ret: Type, buffer_size: usize, deterministic: bool) -> (r: Self)
        ensures
            r.sql_name@ == sql_name@ && r.params == params && r.returns == ret,
            r.buffer_size == buffer_size && r.deterministic == deterministic && !r.varargs,
            hooks(r) == (true, true, false, false),
    {
        Self::make(sql_name, params, ret, buffer_size, deterministic, false, (true, true, false, false))
    }

    /// An aggregate: its accumulator is set up in prerun, reset by clear at
    /// each group, fed by accumulate, dropped in postrun; the row function
    /// gives each group's result.
    pub fn aggregate(sql_name: &str, params: Vec<Type>, ret: Type, buffer_size: usize, deterministic: bool) -> (r: Self)
        ensures
            r.sql_name@ == sql_name@ && r.params == params && r.returns == ret,
            r.buffer_size == buffer_size && r.deterministic == deterministic && !r.varargs,
            hooks(r) == (true, true, true, true),
    {
        Self::make(sql_name, params, ret, buffer_size, deterministic, false, (true, true, true, true))
    }

    /// A function of any number of arguments with per-statement state; its
    /// prerun validates the arguments.
    pub fn varargs_with_state(sql_name: &str, ret: Type, buffer_size: usize, deterministic: bool) -> (r: Self)
        ensures
            r.sql_name@ == sql_name@ && r.params@.len() == 0 && r.returns == ret,
            r.buffer_size == buffer_size && r.deterministic == deterministic && r.varargs,
            hooks(r) == (true, true, false, false),
    {
        Self::make(sql_name, Vec::new(), ret, buffer_size, deterministic, true, (true, true, false, false))
    }

    /// A function of any number of arguments whose prerun only validates them.
    pub fn varargs_checked(sql_name: &str, ret: Type, buffer_size: usize, deterministic: bool) -> (r: Self)
        ensures
            r.sql_name@ == sql_name@ && r.params@.len() == 0 && r.returns == ret,
            r.buffer_size == buffer_size && r.deterministic == deterministic && r.varargs,
            hooks(r) == (true, false, false, false),
    {
        Self::make(sql_name, Vec::new(), ret, buffer_size, deterministic, true, (true, false, false, false))
    }

    /// A function of any number of arguments with no validation and no state.
    pub fn varargs(sql_name: &str, ret: Type, buffer_size: usize, deterministic: bool) -> (r: Self)
        ensures
            r.sql_name@ == sql_name@ && r.params@.len() == 0 && r.returns == ret,
            r.buffer_size == buffer_size && r.deterministic == deterministic && r.varargs,
            hooks(r) == (false, false, false, false),
    {
        Self::make(sql_name, Vec::new(), ret, buffer_size, deterministic, true, (false, false, false, false))
    }
}

/// Descriptor of a custom SQL type.
pub struct TypeDescriptor {
    pub sql_name: String,
    /// Fixed binary size in bytes for persisted storage; `-1` when it
    /// depends on the type's parameters.
    pub persisted_length: i64,
    /// Upper bound on the string representation length.
    pub max_decode_buffer_length: i64,
    pub encode_vdf_name: String,
    pub decode_vdf_name: String,
    pub compare_vdf_name: String,
    pub hash_vdf_name: Option<String>,
    pub int_to_params_vdf_name: Option<String>,
    pub resolve_params_vdf_name: Option<String>,
    /// Upper bound on persisted bytes across all parameter values; `0` for
    /// non-parameterized types.
    pub max_persisted_length: i64,
    /// Default value text, encoded at install time.
    pub intrinsic_default_str: Option<String>,
    pub intrinsic_default_vdf_name: Option<String>,
}

/// A custom type together with its SQL-callable functions.
pub struct TypeWithFuncs {
    pub descriptor: TypeDescriptor,
    pub embedded_funcs: Vec<FuncDescriptor>,
}

/// A type as the server reads it: its tag, and a custom type's name.
#[derive(Debug)]
pub struct RawType {
    pub id: TypeId,
    pub custom_type: Option<String>,
}

impl View for RawType {
    type V = (TypeId, Option<Seq<char>>);

    open spec fn view(&self) -> (TypeId, Option<Seq<char>>) {
        (self.id, opt_view(self.custom_type))
    }
}

/// How the server reads each type: a built-in type by its tag alone, a
/// custom type by its tag and name.
pub open spec fn raw_view_of(t: Type) -> (TypeId, Option<Seq<char>>) {
    match t {
        Type::String => (TypeId::String, None),
        Type::Real => (TypeId::Real, None),
        Type::Int => (TypeId::Int, None),
        Type::Custom(name) => (TypeId::Custom, Some(name@)),
    }
}

impl Type {
    /// The record the server reads for this type.
    pub fn to_raw(&self) -> (r: RawType)
        ensures
            r@ == raw_view_of(*self),
    {
        match self {
            Type::String => RawType { id: TypeId::String, custom_type: None },
            Type::Real => RawType { id: TypeId::Real, custom_type: None },
            Type::Int => RawType { id: TypeId::Int, custom_type: None },
            Type::Custom(name) => RawType { id: TypeId::Custom, custom_type: Some(String::from_str(*name)) },
        }
    }
}

/// A function's parameter list as the server sees it.
#[derive(Debug)]
pub enum Signature {
    /// Any number of arguments.
    Varargs,
    /// Exactly these parameters.
    Fixed(Vec<RawType>),
}

/// One registered function.
pub struct FuncEntry {
    pub sql_name: String,
    pub signature: Signature,
    pub returns: RawType,
    pub buffer_size: usize,
    pub deterministic: bool,
    pub has_prerun: bool,
    pub has_postrun: bool,
    pub has_clear: bool,
    pub has_accumulate: bool,
}

/// What the server reads of a registered function: its name, its
/// parameters (`None` for any number), its return type, buffer size,
/// determinism, and hooks.
pub struct FuncEntryView {
    pub sql_name: Seq<char>,
    pub params: Option<Seq<(TypeId, Option<Seq<char>>)>>,
    pub returns: (TypeId, Option<Seq<char>>),
    pub buffer_size: usize,
    pub deterministic: bool,
    pub hooks: (bool, bool, bool, bool),
}

impl View for FuncEntry {
    type V = FuncEntryView;

    open spec fn view(&self) -> FuncEntryView {
        FuncEntryView {
            sql_name: self.sql_name@,
            params: match self.signature {
                Signature::Varargs => None,
                Signature::Fixed(ps) => Some(ps@.map_values(|t: RawType| t@)),
            },
            returns: self.returns@,
            buffer_size: self.buffer_size,
            deterministic: self.deterministic,
            hooks: (self.has_prerun, self.has_postrun, self.has_clear, self.has_accumulate),
        }
    }
}

/// The registration protocol an extension speaks to the server.
#[derive(Debug, Clone, Copy, PartialEq, Eq, Structural)]
pub enum Protocol {
    /// Protocol 3: every value arrives as its own argument record.
    V3,
}

/// A version number as the server reads it.
#[derive(Debug)]
pub struct SdkVersion {
    pub major: u32,
    pub minor: u32,
    pub patch: u32,
    /// Extra text after the numbers, if any.
    pub extra: Option<String>,
}

/// The server SDK release this extension is built against: its ABI headers
/// are those of release 0.0.6.
pub open spec fn is_sdk_version(v: SdkVersion) -> bool {
    v.major == 0 && v.minor == 0 && v.patch == 6 && v.extra is None
}

/// The SDK version a registration reports.
pub fn sdk_version() -> (r: SdkVersion)
    ensures
        is_sdk_version(r),
{
    SdkVersion { major: 0, minor: 0, patch: 6, extra: None }
}

/// What an extension hands the server at load time.
pub struct Registration {
    pub protocol: Protocol,
    /// An error the extension reports instead of registering; none here.
    pub error_msg: Option<String>,
    /// The server SDK release the extension is built against, which the
    /// server publishes as the registration's `sdk_version`.
    pub sdk_version: SdkVersion,
    /// Its functions: the explicit ones, then each type's embedded ones.
    pub funcs: Vec<FuncEntry>,
    pub func_count: u32,
    pub types: Vec<TypeDescriptor>,
    pub type_count: u32,
    /// The capabilities it asks the server for.
    pub capabilities: Vec<RequiredCapability>,
    pub capability_count: u32,
}

/// Every function of a registration, explicit ones first, then each type's
/// embedded ones in type order.
pub open spec fn all_funcs(funcs: Seq<FuncDescriptor>, types: Seq<TypeWithFuncs>) -> Seq<FuncDescriptor>
    decreases types.len(),
{
    if types.len() == 0 {
        funcs
    } else {
        all_funcs(funcs, types.drop_last()) + types.last().embedded_funcs@
    }
}

/// A registration lists the explicit functions first, in order; each type's
/// own come after them.
pub proof fn law_explicit_first(funcs: Seq<FuncDescriptor>, types: Seq<TypeWithFuncs>)
    ensures
        all_funcs(funcs, types).len() >= funcs.len(),
        all_funcs(funcs, types).take(funcs.len() as int) == funcs,
    decreases types.len(),
{
    if types.len() > 0 {
        law_explicit_first(funcs, types.drop_last());
        let prev = all_funcs(funcs, types.drop_last());
        assert((prev + types.last().embedded_funcs@).take(funcs.len() as int) =~= prev.take(funcs.len() as int));
    } else {
        assert(funcs.take(funcs.len() as int) =~= funcs);
    }
}

/// How a descriptor is registered.
pub open spec fn entry_of(d: FuncDescriptor) -> FuncEntryView {
    FuncEntryView {
        sql_name: d.sql_name@,
        params: if d.varargs {
            None
        } else {
            Some(d.params@.map_values(|t: Type| raw_view_of(t)))
        },
        returns: raw_view_of(d.returns),
        buffer_size: d.buffer_size,
        deterministic: d.deterministic,
        hooks: hooks(d),
    }
}

/// A registered function keeps its descriptor's name, result buffer size,
/// determinism, hooks and return type, and takes exactly its declared
/// parameters unless it takes any number.
pub proof fn law_entry_keeps_descriptor(d: FuncDescriptor)
    ensures
        entry_of(d).sql_name == d.sql_name@,
        entry_of(d).buffer_size == d.buffer_size,
        entry_of(d).deterministic == d.deterministic,
        entry_of(d).hooks == (d.has_prerun, d.has_postrun, d.has_clear, d.has_accumulate),
        entry_of(d).returns == raw_view_of(d.returns),
        d.varargs ==> entry_of(d).params is None,
        !d.varargs ==> (entry_of(d).params matches Some(ps) && ps.len() == d.params@.len() && forall|i: int|
            0 <= i < ps.len() ==> ps[i] == raw_view_of(#[trigger] d.params@[i])),
{
}

fn raw_params(params: &Vec<Type>) -> (r: Vec<RawType>)
    ensures
        r@.map_values(|t: RawType| t@) == params@.map_values(|t: Type| raw_view_of(t)),
{
    let mut out: Vec<RawType> = Vec::new();
    let mut i: usize = 0;
    while i < params.len()
        invariant
            i <= params@.len(),
            out@.map_values(|t: RawType| t@) == params@.take(i as int).map_values(|t: Type| raw_view_of(t)),
        decreases params@.len() - i,
    {
        let t = params[i].to_raw();
        let ghost before = out@;
        out.push(t);
        proof {
            assert(out@ == before.push(t));
            assert(out@.map_values(|t: RawType| t@) =~= before.map_values(|t: RawType| t@).push(t@));
            assert(params@.take(i + 1).map_values(|t: Type| raw_view_of(t)) =~= params@.take(i as int).map_values(
                |t: Type| raw_view_of(t),
            ).push(raw_view_of(params@[i as int])));
        }
        i = i + 1;
    }
    proof {
        assert(params@.take(i as int) =~= params@);
    }
    out
}

fn func_entry(d: FuncDescriptor) -> (r: FuncEntry)
    ensures
        r@ == entry_of(d),
{
    let signature = if d.varargs {
        Signature::Varargs
    } else {
        Signature::Fixed(raw_params(&d.params))
    };
    let ret = d.returns.to_raw();
    FuncEntry {
        sql_name: d.sql_name,
        signature,
        returns: ret,
        buffer_size: d.buffer_size,
        deterministic: d.deterministic,
        has_prerun: d.has_prerun,
        has_postrun: d.has_postrun,
        has_clear: d.has_clear,
        has_accumulate: d.has_accumulate,
    }
}

/// The views of a list of registered functions.
pub open spec fn entry_views(es: Seq<FuncEntry>) -> Seq<FuncEntryView> {
    es.map_values(|e: FuncEntry| e@)
}

fn push_entries(out: &mut Vec<FuncEntry>, ds: Vec<FuncDescriptor>)
    ensures
        entry_views(final(out)@) == entry_views(old(out)@) + ds@.map_values(|d: FuncDescriptor| entry_of(d)),
{
    let ghost all = ds@;
    let ghost start = out@;
    let mut rest = ds;
    let ghost mut k: int = 0;
    while rest.len() > 0
        invariant
            0 <= k <= all.len(),
            rest@ == all.skip(k),
            entry_views(out@) == entry_views(start) + all.take(k).map_values(|d: FuncDescriptor| entry_of(d)),
        decreases rest@.len(),
    {
        let d = rest.remove(0);
        proof {
            assert(all[k] == d);
        }
        let e = func_entry(d);
        let ghost before = out@;
        out.push(e);
        proof {
            assert(entry_views(out@) =~= entry_views(before).push(e@));
            assert(all.take(k + 1).map_values(|d: FuncDescriptor| entry_of(d)) =~= all.take(k).map_values(
                |d: FuncDescriptor| entry_of(d),
            ).push(entry_of(all[k])));
            assert(rest@ =~= all.skip(k + 1));
            k = k + 1;
        }
    }
    proof {
        assert(all.take(k) =~= all);
    }
}

/// Builds the registration, under protocol 3 with no error and the SDK
/// version, from the explicit functions, the custom types and the required
/// capabilities: every function (explicit ones, then each
/// type's embedded ones) with its signature, every type's descriptor, and
/// every capability entry, each list with its count.
pub fn build_registration(funcs: Vec<FuncDescriptor>, types: Vec<TypeWithFuncs>, caps: Vec<RequiredCapability>) -> (r:
    Registration)
    requires
        all_funcs(funcs@, types@).len() <= u32::MAX,
        types@.len() <= u32::MAX,
        caps@.len() <= u32::MAX,
    ensures
        entry_views(r.funcs@) == all_funcs(funcs@, types@).map_values(|d: FuncDescriptor| entry_of(d)),
        r.func_count == all_funcs(funcs@, types@).len(),
        r.types@ == types@.map_values(|t: TypeWithFuncs| t.descriptor),
        r.type_count == types@.len(),
        r.capabilities@ == caps@,
        r.capability_count == caps@.len(),
        r.protocol == Protocol::V3,
        r.error_msg is None,
        is_sdk_version(r.sdk_version),
        r.funcs@.len() == all_funcs(funcs@, types@).len(),
        forall|i: int|
            0 <= i < r.funcs@.len() ==> {
                let d = #[trigger] all_funcs(funcs@, types@)[i];
                &&& r.funcs@[i].sql_name@ == d.sql_name@
                &&& r.funcs@[i].buffer_size == d.buffer_size
                &&& r.funcs@[i].deterministic == d.deterministic
                &&& r.funcs@[i].has_prerun == d.has_prerun
                &&& r.funcs@[i].has_postrun == d.has_postrun
                &&& r.funcs@[i].has_clear == d.has_clear
                &&& r.funcs@[i].has_accumulate == d.has_accumulate
                &&& r.funcs@[i].returns@ == raw_view_of(d.returns)
                &&& (r.funcs@[i].signature is Varargs <==> d.varargs)
            },
{
    let ghost fs = funcs@;
    let ghost all = types@;
    let mut entries: Vec<FuncEntry> = Vec::new();
    push_entries(&mut entries, funcs);
    assert(entry_views(entries@) =~= all_funcs(fs, all.take(0)).map_values(|d: FuncDescriptor| entry_of(d)));
    let mut descs: Vec<TypeDescriptor> = Vec::new();
    let mut rest = types;
    let ghost mut k: int = 0;
    while rest.len() > 0
        invariant
            0 <= k <= all.len(),
            rest@ == all.skip(k),
            all_funcs(fs, all).len() <= u32::MAX,
            entry_views(entries@) == all_funcs(fs, all.take(k)).map_values(|d: FuncDescriptor| entry_of(d)),
            descs@ == all.take(k).map_values(|t: TypeWithFuncs| t.descriptor),
        decreases rest@.len(),
    {
        let t = rest.remove(0);
        proof {
            assert(all[k] == t);
            assert(all.take(k + 1).drop_last() =~= all.take(k));
            assert(all.take(k + 1).last() == t);
        }
        let TypeWithFuncs { descriptor, embedded_funcs } = t;
        push_entries(&mut entries, embedded_funcs);
        descs.push(descriptor);
        proof {
            assert(all_funcs(fs, all.take(k + 1)) == all_funcs(fs, all.take(k)) + t.embedded_funcs@);
            assert(entry_views(entries@) =~= all_funcs(fs, all.take(k + 1)).map_values(
                |d: FuncDescriptor| entry_of(d),
            ));
            assert(descs@ =~= all.take(k + 1).map_values(|t: TypeWithFuncs| t.descriptor));
            assert(rest@ =~= all.skip(k + 1));
            k = k + 1;
        }
    }
    proof {
        assert(all.take(k) =~= all);
    }
    let func_count = entries.len() as u32;
    let type_count = descs.len() as u32;
    let capability_count = caps.len() as u32;
    proof {
        let all = all_funcs(fs, types@);
        assert(entry_views(entries@) == all.map_values(|d: FuncDescriptor| entry_of(d)));
        assert forall|i: int| 0 <= i < entries@.len() implies {
            let d = #[trigger] all[i];
            &&& entries@[i].sql_name@ == d.sql_name@
            &&& entries@[i].buffer_size == d.buffer_size
            &&& entries@[i].deterministic == d.deterministic
            &&& entries@[i].has_prerun == d.has_prerun
            &&& entries@[i].has_postrun == d.has_postrun
            &&& entries@[i].has_clear == d.has_clear
            &&& entries@[i].has_accumulate == d.has_accumulate
            &&& entries@[i].returns@ == raw_view_of(d.returns)
            &&& (entries@[i].signature is Varargs <==> d.varargs)
        } by {
            assert(entry_views(entries@)[i] == entries@[i]@);
            assert(entry_views(entries@)[i] == entry_of(all[i]));
            law_entry_keeps_descriptor(all[i]);
        }
    }
    Registration {
        protocol: Protocol::V3,
        error_msg: None,
        sdk_version: sdk_version(),
        funcs: entries,
        func_count,
        types: descs,
        type_count,
        capabilities: caps,
        capability_count,
    }
}

/// The name of one of a type's SQL-callable functions: `<type>::<suffix>`.
pub open spec fn vdf_name(sql_type: Seq<char>, suffix: Seq<char>) -> Seq<char> {
    sql_type + suffix
}

fn vdf_name_of(sql_type: &str, suffix: &str) -> (r: String)
    ensures
        r@ == vdf_name(sql_type@, suffix@),
{
    let mut out = String::from_str(sql_type);
    out.append(suffix);
    out
}

fn custom(sql_type: &'static str) -> (r: Type)
    ensures
        r matches Type::Custom(n) && n@ == sql_type@,
{
    Type::Custom(sql_type)
}

/// A function with no hooks: deterministic, default buffer, fixed params.
fn embedded(sql_name: String, params: Vec<Type>, ret: Type, buffer_size: usize) -> (r: FuncDescriptor)
    ensures
        r.sql_name == sql_name,
        r.params == params,
        r.returns == ret,
        r.buffer_size == buffer_size,
        r.deterministic,
        !r.varargs,
        !r.has_prerun && !r.has_postrun && !r.has_clear && !r.has_accumulate,
{
    FuncDescriptor {
        sql_name,
        params,
        returns: ret,
        buffer_size,
        deterministic: true,
        varargs: false,
        has_prerun: false,
        has_postrun: false,
        has_clear: false,
        has_accumulate: false,
    }
}

/// `f` is a hook-free, deterministic, default-buffer function named
/// `<sql_type><suffix>` taking `params` and returning `ret`, given as the
/// kinds `String`, `Int` or `Custom` of `sql_type`.
pub open spec fn is_type_vdf(f: FuncDescriptor, sql_type: Seq<char>, suffix: Seq<char>, params: Seq<int>, ret: int, buffer_size: usize) -> bool {
    &&& f.sql_name@ == vdf_name(sql_type, suffix)
    &&& f.params@.len() == params.len()
    &&& forall|i: int| 0 <= i < params.len() ==> type_is(#[trigger] f.params@[i], params[i], sql_type)
    &&& type_is(f.returns, ret, sql_type)
    &&& f.buffer_size == buffer_size
    &&& f.deterministic
    &&& !f.varargs
    &&& !f.has_prerun && !f.has_postrun && !f.has_clear && !f.has_accumulate
}

/// `t` is the kind `k`: `0` string, `1` integer, `2` the custom type `sql_type`.
pub open spec fn type_is(t: Type, k: int, sql_type: Seq<char>) -> bool {
    match t {
        Type::String => k == 0,
        Type::Int => k == 1,
        Type::Custom(n) => k == 2 && n@ == sql_type,
        Type::Real => false,
    }
}

fn type_vdf(sql_type: &'static str, suffix: &str, params: Vec<Type>, ret: Type) -> (r: FuncDescriptor)
    ensures
        r.sql_name@ == vdf_name(sql_type@, suffix@),
        r.params == params,
        r.returns == ret,
        r.buffer_size == 0,
        r.deterministic,
        !r.varargs,
        !r.has_prerun && !r.has_postrun && !r.has_clear && !r.has_accumulate,
{
    embedded(vdf_name_of(sql_type, suffix), params, ret, 0)
}

/// The shared functions of every custom type: `from_string(STRING) -> T`,
/// `to_string(T) -> STRING`, `compare(T, T) -> INT`, and `hash(T) -> INT`
/// when the type has a hash.
fn shared_vdfs(sql_type: &'static str, has_hash: bool) -> (r: Vec<FuncDescriptor>)
    ensures
        r@.len() == if has_hash { 4int } else { 3int },
        is_type_vdf(r@[0], sql_type@, "::from_string"@, seq![0int], 2, 0),
        is_type_vdf(r@[1], sql_type@, "::to_string"@, seq![2int], 0, 0),
        is_type_vdf(r@[2], sql_type@, "::compare"@, seq![2int, 2int], 1, 0),
        has_hash ==> is_type_vdf(r@[3], sql_type@, "::hash"@, seq![2int], 1, 0),
{
    let mut out: Vec<FuncDescriptor> = Vec::new();
    let mut p0: Vec<Type> = Vec::new();
    p0.push(Type::String);
    out.push(type_vdf(sql_type, "::from_string", p0, custom(sql_type)));
    let mut p1: Vec<Type> = Vec::new();
    p1.push(custom(sql_type));
    out.push(type_vdf(sql_type, "::to_string", p1, Type::String));
    let mut p2: Vec<Type> = Vec::new();
    p2.push(custom(sql_type));
    p2.push(custom(sql_type));
    out.push(type_vdf(sql_type, "::compare", p2, Type::Int));
    if has_hash {
        let mut p3: Vec<Type> = Vec::new();
        p3.push(custom(sql_type));
        out.push(type_vdf(sql_type, "::hash", p3, Type::Int));
    }
    out
}

fn opt_name(present: bool, sql_type: &str, suffix: &str) -> (r: Option<String>)
    ensures
        present ==> (r matches Some(n) && n@ == vdf_name(sql_type@, suffix@)),
        !present ==> r is None,
{
    if present {
        Some(vdf_name_of(sql_type, suffix))
    } else {
        None
    }
}

/// Optional text as characters.
pub open spec fn opt_view(o: Option<String>) -> Option<Seq<char>> {
    match o {
        Some(s) => Some(s@),
        None => None,
    }
}

/// A custom type of fixed persisted size, with its embedded functions
/// `TYPE::from_string`, `TYPE::to_string`, `TYPE::compare`, and
/// `TYPE::hash` when `has_hash`.
pub fn custom_type(
    sql_type: &'static str,
    persisted_length: i64,
    max_decode_buffer_length: i64,
    has_hash: bool,
    default: Option<String>,
) -> (r: TypeWithFuncs)
    ensures
        r.descriptor.sql_name@ == sql_type@,
        r.descriptor.persisted_length == persisted_length,
        r.descriptor.max_decode_buffer_length == max_decode_buffer_length,
        r.descriptor.encode_vdf_name@ == vdf_name(sql_type@, "::from_string"@),
        r.descriptor.decode_vdf_name@ == vdf_name(sql_type@, "::to_string"@),
        r.descriptor.compare_vdf_name@ == vdf_name(sql_type@, "::compare"@),
        opt_view(r.descriptor.hash_vdf_name) == if has_hash {
            Some(vdf_name(sql_type@, "::hash"@))
        } else {
            None
        },
        r.descriptor.int_to_params_vdf_name is None,
        r.descriptor.resolve_params_vdf_name is None,
        r.descriptor.max_persisted_length == 0,
        opt_view(r.descriptor.intrinsic_default_str) == opt_view(default),
        r.descriptor.intrinsic_default_vdf_name is None,
        r.embedded_funcs@.len() == if has_hash { 4int } else { 3int },
        is_type_vdf(r.embedded_funcs@[0], sql_type@, "::from_string"@, seq![0int], 2, 0),
        is_type_vdf(r.embedded_funcs@[1], sql_type@, "::to_string"@, seq![2int], 0, 0),
        is_type_vdf(r.embedded_funcs@[2], sql_type@, "::compare"@, seq![2int, 2int], 1, 0),
        has_hash ==> is_type_vdf(r.embedded_funcs@[3], sql_type@, "::hash"@, seq![2int], 1, 0),
{
    let embedded_funcs = shared_vdfs(sql_type, has_hash);
    let descriptor = TypeDescriptor {
        sql_name: String::from_str(sql_type),
        persisted_length,
        max_decode_buffer_length,
        encode_vdf_name: vdf_name_of(sql_type, "::from_string"),
        decode_vdf_name: vdf_name_of(sql_type, "::to_string"),
        compare_vdf_name: vdf_name_of(sql_type, "::compare"),
        hash_vdf_name: opt_name(has_hash, sql_type, "::hash"),
        int_to_params_vdf_name: None,
        resolve_params_vdf_name: None,
        max_persisted_length: 0,
        intrinsic_default_str: default,
        intrinsic_default_vdf_name: None,
    };
    TypeWithFuncs { descriptor, embedded_funcs }
}

/// A parameterized custom type: its persisted length depends on its
/// parameters (`-1` here, bounded by `max_persisted_length`). Besides the
/// shared functions it embeds `TYPE::int_to_params(INT) -> STRING`,
/// `TYPE::resolve_params(STRING) -> STRING`, and, with an intrinsic default
/// function, `TYPE::intrinsic_default() -> STRING` with a result buffer of
/// `max_decode_buffer_length` bytes.
pub fn parameterized_type(
    sql_type: &'static str,
    max_persisted_length: i64,
    max_decode_buffer_length: i64,
    has_hash: bool,
    default: Option<String>,
    has_intrinsic_default_fn: bool,
) -> (r: TypeWithFuncs)
    requires
        0 <= max_decode_buffer_length <= usize::MAX,
    ensures
        r.descriptor.sql_name@ == sql_type@,
        r.descriptor.persisted_length == -1,
        r.descriptor.max_decode_buffer_length == max_decode_buffer_length,
        r.descriptor.encode_vdf_name@ == vdf_name(sql_type@, "::from_string"@),
        r.descriptor.decode_vdf_name@ == vdf_name(sql_type@, "::to_string"@),
        r.descriptor.compare_vdf_name@ == vdf_name(sql_type@, "::compare"@),
        opt_view(r.descriptor.hash_vdf_name) == if has_hash {
            Some(vdf_name(sql_type@, "::hash"@))
        } else {
            None
        },
        opt_view(r.descriptor.int_to_params_vdf_name) == Some(vdf_name(sql_type@, "::int_to_params"@)),
        opt_view(r.descriptor.resolve_params_vdf_name) == Some(vdf_name(sql_type@, "::resolve_params"@)),
        r.descriptor.max_persisted_length == max_persisted_length,
        opt_view(r.descriptor.intrinsic_default_str) == opt_view(default),
        opt_view(r.descriptor.intrinsic_default_vdf_name) == if has_intrinsic_default_fn {
            Some(vdf_name(sql_type@, "::intrinsic_default"@))
        } else {
            None
        },
        ({
            let base: int = if has_hash { 4 } else { 3 };
            &&& r.embedded_funcs@.len() == base + 2 + if has_intrinsic_default_fn { 1int } else { 0int }
            &&& is_type_vdf(r.embedded_funcs@[0], sql_type@, "::from_string"@, seq![0int], 2, 0)
            &&& is_type_vdf(r.embedded_funcs@[1], sql_type@, "::to_string"@, seq![2int], 0, 0)
            &&& is_type_vdf(r.embedded_funcs@[2], sql_type@, "::compare"@, seq![2int, 2int], 1, 0)
            &&& has_hash ==> is_type_vdf(r.embedded_funcs@[3], sql_type@, "::hash"@, seq![2int], 1, 0)
            &&& is_type_vdf(r.embedded_funcs@[base], sql_type@, "::int_to_params"@, seq![1int], 0, 0)
            &&& is_type_vdf(r.embedded_funcs@[base + 1], sql_type@, "::resolve_params"@, seq![0int], 0, 0)
            &&& has_intrinsic_default_fn ==> is_type_vdf(
                r.embedded_funcs@[base + 2],
                sql_type@,
                "::intrinsic_default"@,
                Seq::<int>::empty(),
                0,
                max_decode_buffer_length as usize,
            )
        }),
{
    let mut embedded_funcs = shared_vdfs(sql_type, has_hash);
    let ghost shared = embedded_funcs@;
    let mut pi: Vec<Type> = Vec::new();
    pi.push(Type::Int);
    embedded_funcs.push(type_vdf(sql_type, "::int_to_params", pi, Type::String));
    let mut pr: Vec<Type> = Vec::new();
    pr.push(Type::String);
    embedded_funcs.push(type_vdf(sql_type, "::resolve_params", pr, Type::String));
    if has_intrinsic_default_fn {
        embedded_funcs.push(
            embedded(
                vdf_name_of(sql_type, "::intrinsic_default"),
                Vec::new(),
                Type::String,
                max_decode_buffer_length as usize,
            ),
        );
    }
    proof {
        assert(embedded_funcs@[0] == shared[0]);
        assert(embedded_funcs@[1] == shared[1]);
        assert(embedded_funcs@[2] == shared[2]);
        if has_hash {
            assert(embedded_funcs@[3] == shared[3]);
        }
    }
    let descriptor = TypeDescriptor {
        sql_name: String::from_str(sql_type),
        persisted_length: -1,
        max_decode_buffer_length,
        encode_vdf_name: vdf_name_of(sql_type, "::from_string"),
        decode_vdf_name: vdf_name_of(sql_type, "::to_string"),
        compare_vdf_name: vdf_name_of(sql_type, "::compare"),
        hash_vdf_name: opt_name(has_hash, sql_type, "::hash"),
        int_to_params_vdf_name: Some(vdf_name_of(sql_type, "::int_to_params")),
        resolve_params_vdf_name: Some(vdf_name_of(sql_type, "::resolve_params")),
        max_persisted_length,
        intrinsic_default_str: default,
        intrinsic_default_vdf_name: opt_name(has_intrinsic_default_fn, sql_type, "::intrinsic_default"),
    };
    TypeWithFuncs { descriptor, embedded_funcs }
}

} // verus!
