//! The per-call runtime of a VDF, over plain models of the server's slots:
//! argument types at prerun, the values of one row, and the result slot that a
//! VDF's return value is written into.
use vstd::prelude::*;
use vstd::string::StringExecFns;
use vstd::utf8::encode_utf8;
use crate::params::TypeParams;
use crate::text::{decimal, push_u64};

verus! {

/// The SQL type tag of a value or argument, as the server reports it.
#[derive(Clone, Copy, Debug, PartialEq, Eq, Structural)]
pub enum TypeId {
    String,
    Real,
    Int,
    Custom,
    /// A tag this SDK does not know.
    Unknown,
}

/// The type of one argument, as seen at prerun time.
pub struct ArgType {
    id: TypeId,
    custom_name: Option<String>,
}

impl ArgType {
    /// The type tag.
    pub closed spec fn spec_id(&self) -> TypeId {
        self.id
    }

    /// The custom type name the server attached, if any.
    pub closed spec fn spec_custom_name(&self) -> Option<Seq<char>> {
        match self.custom_name {
            Some(n) => Some(n@),
            None => None,
        }
    }

    /// An argument type with the server's tag and custom type name.
    pub fn new(id: TypeId, custom_name: Option<String>) -> (r: Self)
        ensures
            r.spec_id() == id,
            r.spec_custom_name() == match custom_name {
                Some(n) => Some(n@),
                None => None::<Seq<char>>,
            },
    {
        ArgType { id, custom_name }
    }

    pub fn is_str(&self) -> (r: bool)
        ensures
            r == (self.spec_id() == TypeId::String),
    {
        self.id == TypeId::String
    }

    pub fn is_real(&self) -> (r: bool)
        ensures
            r == (self.spec_id() == TypeId::Real),
    {
        self.id == TypeId::Real
    }

    pub fn is_int(&self) -> (r: bool)
        ensures
            r == (self.spec_id() == TypeId::Int),
    {
        self.id == TypeId::Int
    }

    pub fn is_custom(&self) -> (r: bool)
        ensures
            r == (self.spec_id() == TypeId::Custom),
    {
        self.id == TypeId::Custom
    }

    /// The custom type's name, or `None` if this isn't a custom type.
    pub fn custom_name(&self) -> (r: Option<&str>)
        ensures
            match r {
                Some(n) => self.spec_id() == TypeId::Custom && self.spec_custom_name() == Some(n@),
                None => self.spec_id() != TypeId::Custom || self.spec_custom_name() is None,
            },
    {
        if self.is_custom() {
            match &self.custom_name {
                Some(n) => Some(n.as_str()),
                None => None,
            }
        } else {
            None
        }
    }
}

/// The argument types of a call, as seen at prerun time.
pub struct PrerunArgs {
    types: Vec<ArgType>,
}

impl PrerunArgs {
    /// The argument types, in order.
    pub closed spec fn spec_types(&self) -> Seq<ArgType> {
        self.types@
    }

    pub fn from_types(types: Vec<ArgType>) -> (r: Self)
        ensures
            r.spec_types() == types@,
    {
        PrerunArgs { types }
    }

    /// Number of arguments each row will receive.
    pub fn len(&self) -> (r: usize)
        ensures
            r == self.spec_types().len(),
    {
        self.types.len()
    }

    /// True if the function was called with no arguments.
    pub fn is_empty(&self) -> (r: bool)
        ensures
            r == (self.spec_types().len() == 0),
    {
        self.types.len() == 0
    }

    /// The type of argument `i`, or `None` if `i` is out of range.
    pub fn type_at(&self, i: usize) -> (r: Option<&ArgType>)
        ensures
            i < self.spec_types().len() ==> r == Some(&self.spec_types()[i as int]),
            i >= self.spec_types().len() ==> r is None,
    {
        if i >= self.types.len() {
            None
        } else {
            Some(&self.types[i])
        }
    }
}

/// The length of a message written into an error buffer of `cap` bytes: what
/// fits before the terminating NUL.
pub open spec fn message_len(msg_len: int, cap: int) -> int {
    if msg_len < cap - 1 {
        msg_len
    } else {
        cap - 1
    }
}

/// The error buffer after writing `msg` into `old`: the message, truncated
/// to leave room for a NUL, then the NUL, then the rest of `old`.
pub open spec fn message_written(old: Seq<u8>, msg: Seq<u8>) -> Seq<u8> {
    let n = message_len(msg.len() as int, old.len() as int);
    msg.take(n) + seq![0u8] + old.skip(n + 1)
}

/// An error buffer keeps its size; a message shorter than it is written
/// whole and NUL-terminated, a longer one is cut to all but the buffer's
/// last byte, which holds the NUL.
pub proof fn law_error_message(old: Seq<u8>, msg: Seq<u8>)
    requires
        old.len() >= 1,
    ensures
        message_written(old, msg).len() == old.len(),
        msg.len() < old.len() ==> message_written(old, msg).take(msg.len() as int) == msg
            && message_written(old, msg)[msg.len() as int] == 0,
        msg.len() >= old.len() ==> message_written(old, msg).take(old.len() - 1) == msg.take(old.len() - 1)
            && message_written(old, msg)[old.len() - 1] == 0,
{
    let w = message_written(old, msg);
    if msg.len() < old.len() {
        assert(w.take(msg.len() as int) =~= msg);
    } else {
        assert(w.take(old.len() - 1) =~= msg.take(old.len() - 1));
    }
}

/// Writes `msg` into the server's error buffer, truncated to leave room for a
/// NUL terminator.
pub fn write_error_msg(msg: &[u8], buf: &mut [u8])
    requires
        old(buf)@.len() >= 1,
    ensures
        final(buf)@ == message_written(old(buf)@, msg@),
        final(buf)@.len() == old(buf)@.len(),
        msg@.len() < old(buf)@.len() ==> final(buf)@.take(msg@.len() as int) == msg@ && final(buf)@[msg@.len() as int]
            == 0,
        msg@.len() >= old(buf)@.len() ==> final(buf)@.take(old(buf)@.len() - 1) == msg@.take(old(buf)@.len() - 1)
            && final(buf)@[old(buf)@.len() - 1] == 0,
{
    proof {
        law_error_message(old(buf)@, msg@);
    }
    let cap = buf.len();
    let max = cap - 1;
    let n = if msg.len() < max {
        msg.len()
    } else {
        max
    };
    assert(buf@ =~= msg@.take(0) + old(buf)@.skip(0));
    for i in 0..n
        invariant
            n <= msg@.len(),
            n < cap,
            cap == old(buf)@.len(),
            buf@.len() == cap,
            buf@ == msg@.take(i as int) + old(buf)@.skip(i as int),
    {
        buf[i] = msg[i];
        assert(buf@ =~= msg@.take(i + 1) + old(buf)@.skip(i + 1));
    }
    buf[n] = 0;
    assert(buf@ =~= message_written(old(buf)@, msg@));
}

/// Handle a prerun uses to set up a statement: the per-statement state, the
/// requested result-buffer size, or a failure with a message.
pub struct PrerunResult<T> {
    result_buffer_size: usize,
    state: Option<T>,
    failed: bool,
    error_msg: Vec<u8>,
}

impl<T> PrerunResult<T> {
    pub closed spec fn spec_result_buffer_size(&self) -> usize {
        self.result_buffer_size
    }

    pub closed spec fn spec_state(&self) -> Option<T> {
        self.state
    }

    pub closed spec fn spec_failed(&self) -> bool {
        self.failed
    }

    pub closed spec fn spec_error_msg(&self) -> Seq<u8> {
        self.error_msg@
    }

    /// A fresh prerun slot with the server's result-buffer size and error buffer.
    pub fn new(result_buffer_size: usize, error_msg: Vec<u8>) -> (r: Self)
        ensures
            r.spec_result_buffer_size() == result_buffer_size,
            r.spec_state() is None,
            !r.spec_failed(),
            r.spec_error_msg() == error_msg@,
    {
        PrerunResult { result_buffer_size, state: None, failed: false, error_msg }
    }

    /// Hand the per-statement state to the server.
    pub fn set_state(&mut self, state: T)
        ensures
            final(self).spec_state() == Some(state),
            final(self).spec_result_buffer_size() == old(self).spec_result_buffer_size(),
            final(self).spec_failed() == old(self).spec_failed(),
            final(self).spec_error_msg() == old(self).spec_error_msg(),
    {
        self.state = Some(state);
    }

    /// Ask the server for a specific result-buffer size.
    pub fn request_buffer_size(&mut self, n: usize)
        ensures
            final(self).spec_result_buffer_size() == n,
            final(self).spec_state() == old(self).spec_state(),
            final(self).spec_failed() == old(self).spec_failed(),
            final(self).spec_error_msg() == old(self).spec_error_msg(),
    {
        self.result_buffer_size = n;
    }

    /// Fail the whole statement with a message.
    pub fn error(&mut self, msg: &str)
        requires
            old(self).spec_error_msg().len() >= 1,
        ensures
            final(self).spec_failed(),
            final(self).spec_error_msg() == message_written(
                old(self).spec_error_msg(),
                encode_utf8(msg@),
            ),
            final(self).spec_state() == old(self).spec_state(),
            final(self).spec_result_buffer_size() == old(self).spec_result_buffer_size(),
    {
        self.failed = true;
        write_error_msg(msg.as_bytes(), self.error_msg.as_mut_slice());
    }

    /// The requested result-buffer size.
    pub fn result_buffer_size(&self) -> (r: usize)
        ensures
            r == self.spec_result_buffer_size(),
    {
        self.result_buffer_size
    }

    /// Whether the prerun failed the statement.
    pub fn failed(&self) -> (r: bool)
        ensures
            r == self.spec_failed(),
    {
        self.failed
    }

    /// Takes the per-statement state out of the slot.
    pub fn into_state(self) -> (r: Option<T>)
        ensures
            r == self.spec_state(),
    {
        self.state
    }
}

/// The value a VDF returns for one row.
#[derive(Debug)]
pub enum VdfReturn {
    /// SQL NULL result.
    Null,
    /// A string value.
    String(String),
    /// A floating-point value, carried as its IEEE-754 bits.
    Real(u64),
    /// An integer value.
    Int(i64),
    /// Raw binary bytes for a custom-type return value (persisted format).
    Binary(Vec<u8>),
    /// Row-level warning: execution continues, NULL is returned for this row.
    Warning(String),
    /// Fatal error: statement execution is aborted.
    Error(String),
}

impl VdfReturn {
    pub fn null() -> (r: Self)
        ensures
            r is Null,
    {
        VdfReturn::Null
    }

    pub fn string(s: String) -> (r: Self)
        ensures
            r == VdfReturn::String(s),
    {
        VdfReturn::String(s)
    }

    /// A floating-point value given by its IEEE-754 bits.
    pub fn real_value(bits: u64) -> (r: Self)
        ensures
            r == VdfReturn::Real(bits),
    {
        VdfReturn::Real(bits)
    }

    pub fn int_value(v: i64) -> (r: Self)
        ensures
            r == VdfReturn::Int(v),
    {
        VdfReturn::Int(v)
    }

    pub fn binary(v: Vec<u8>) -> (r: Self)
        ensures
            r == VdfReturn::Binary(v),
    {
        VdfReturn::Binary(v)
    }

    pub fn warning(msg: String) -> (r: Self)
        ensures
            r == VdfReturn::Warning(msg),
    {
        VdfReturn::Warning(msg)
    }

    pub fn error(msg: String) -> (r: Self)
        ensures
            r == VdfReturn::Error(msg),
    {
        VdfReturn::Error(msg)
    }
}

/// A single input value delivered to a VDF for one row.
#[derive(Debug)]
pub enum InValue<'a> {
    Null,
    String(&'a str),
    /// A floating-point value, carried as its IEEE-754 bits.
    Real(u64),
    Int(i64),
    /// A custom-type argument: just its raw persisted bytes.
    Custom(&'a [u8]),
    /// A custom-type argument: its persisted bytes plus the type parameters
    /// the column was declared with.
    CustomWithParams { bytes: &'a [u8], params: TypeParams<'a> },
}

/// One argument value as the server lays it out.
pub struct RawValue<'a> {
    pub is_null: bool,
    pub type_id: TypeId,
    pub str_value: &'a str,
    pub real_value: u64,
    pub int_value: i64,
    pub bin_value: &'a [u8],
    pub type_params: TypeParams<'a>,
}

/// The value a VDF sees for one raw argument.
pub open spec fn in_value_of<'a>(raw: RawValue<'a>) -> InValue<'a> {
    if raw.is_null {
        InValue::Null
    } else {
        match raw.type_id {
            TypeId::String => InValue::String(raw.str_value),
            TypeId::Real => InValue::Real(raw.real_value),
            TypeId::Int => InValue::Int(raw.int_value),
            TypeId::Custom => if raw.type_params@.len() == 0 {
                InValue::Custom(raw.bin_value)
            } else {
                InValue::CustomWithParams { bytes: raw.bin_value, params: raw.type_params }
            },
            TypeId::Unknown => InValue::Null,
        }
    }
}

fn in_value<'a>(raw: RawValue<'a>) -> (r: InValue<'a>)
    ensures
        r == in_value_of(raw),
{
    if raw.is_null {
        return InValue::Null;
    }
    match raw.type_id {
        TypeId::String => InValue::String(raw.str_value),
        TypeId::Real => InValue::Real(raw.real_value),
        TypeId::Int => InValue::Int(raw.int_value),
        TypeId::Custom => {
            if raw.type_params.is_empty() {
                InValue::Custom(raw.bin_value)
            } else {
                InValue::CustomWithParams { bytes: raw.bin_value, params: raw.type_params }
            }
        },
        TypeId::Unknown => InValue::Null,
    }
}

/// Converts one row's raw arguments into the values a VDF reads.
/// How one argument is read: a NULL as NULL; otherwise by its type tag, a
/// string as its text, a real as its bits, an integer as its value, a custom
/// value as its bytes, with the column's params when there are any. Only a
/// NULL or an unknown tag reads as NULL.
pub proof fn law_argument_read<'a>(raw: RawValue<'a>)
    ensures
        raw.is_null ==> in_value_of(raw) is Null,
        !raw.is_null && raw.type_id == TypeId::String ==> in_value_of(raw) == InValue::String(raw.str_value),
        !raw.is_null && raw.type_id == TypeId::Real ==> in_value_of(raw) == InValue::<'a>::Real(raw.real_value),
        !raw.is_null && raw.type_id == TypeId::Int ==> in_value_of(raw) == InValue::<'a>::Int(raw.int_value),
        !raw.is_null && raw.type_id == TypeId::Custom && raw.type_params@.len() == 0 ==> in_value_of(raw)
            == InValue::Custom(raw.bin_value),
        !raw.is_null && raw.type_id == TypeId::Custom && raw.type_params@.len() > 0 ==> in_value_of(raw)
            == (InValue::CustomWithParams { bytes: raw.bin_value, params: raw.type_params }),
        !raw.is_null && raw.type_id != TypeId::Unknown ==> !(in_value_of(raw) is Null),
        !raw.is_null && raw.type_id == TypeId::Unknown ==> in_value_of(raw) is Null,
{
}

pub fn read_in_values<'a>(args: Vec<RawValue<'a>>) -> (r: Vec<InValue<'a>>)
    ensures
        r@ == args@.map_values(|a: RawValue<'a>| in_value_of(a)),
        r@.len() == args@.len(),
        forall|i: int| 0 <= i < args@.len() && (#[trigger] args@[i]).is_null ==> r@[i] is Null,
        forall|i: int|
            0 <= i < args@.len() && !(#[trigger] args@[i]).is_null && args@[i].type_id == TypeId::String
                ==> r@[i] == InValue::String(args@[i].str_value),
        forall|i: int|
            0 <= i < args@.len() && !(#[trigger] args@[i]).is_null && args@[i].type_id == TypeId::Real
                ==> r@[i] == InValue::<'a>::Real(args@[i].real_value),
        forall|i: int|
            0 <= i < args@.len() && !(#[trigger] args@[i]).is_null && args@[i].type_id == TypeId::Int
                ==> r@[i] == InValue::<'a>::Int(args@[i].int_value),
        forall|i: int|
            0 <= i < args@.len() && !(#[trigger] args@[i]).is_null && args@[i].type_id == TypeId::Custom
                ==> (r@[i] matches InValue::Custom(b) && b == args@[i].bin_value) || (r@[i] matches InValue::CustomWithParams { bytes, params } && bytes == args@[i].bin_value && params == args@[i].type_params),
        forall|i: int|
            0 <= i < args@.len() && !(#[trigger] args@[i]).is_null && args@[i].type_id != TypeId::Unknown
                ==> !(r@[i] is Null),
{

    let ghost all = args@;
    let mut out: Vec<InValue<'a>> = Vec::new();
    let mut rest = args;
    let ghost mut k: int = 0;
    while rest.len() > 0
        invariant
            0 <= k <= all.len(),
            rest@ == all.skip(k),
            out@ == all.take(k).map_values(|a: RawValue<'a>| in_value_of(a)),
        decreases rest@.len(),
    {
        let raw = rest.remove(0);
        out.push(in_value(raw));
        proof {
            assert(all[k] == raw);
            assert(all.take(k + 1).map_values(|a: RawValue<'a>| in_value_of(a)) =~= all.take(k).map_values(
                |a: RawValue<'a>| in_value_of(a),
            ).push(in_value_of(raw)));
            assert(rest@ =~= all.skip(k + 1));
            k = k + 1;
        }
    }
    proof {
        assert(all.take(k) =~= all);
    }
    proof {
        assert forall|i: int| 0 <= i < all.len() implies out@[i] == in_value_of(#[trigger] all[i]) by {}
        assert forall|i: int| 0 <= i < all.len() implies #[trigger] all[i] == all[i] by {
            law_argument_read(all[i]);
        }
    }
    out
}

/// How a result slot was filled.
#[derive(Clone, Copy, Debug, PartialEq, Eq, Structural)]
pub enum ResultKind {
    Null,
    Value,
    Warning,
    Error,
}

/// The buffer the server gives for inferred type parameters.
pub struct InferredParamsSlot {
    pub buf: Vec<u8>,
    pub actual_len: usize,
    pub overflow: bool,
}

impl View for InferredParamsSlot {
    type V = (Seq<u8>, usize, bool);

    open spec fn view(&self) -> (Seq<u8>, usize, bool) {
        (self.buf@, self.actual_len, self.overflow)
    }
}

/// The result slot of one VDF call, as the server lays it out: string and
/// binary result buffers (their lengths are the capacities), the scalar
/// values, the error message buffer, the parameters attached to a custom
/// result, and the buffer for inferred parameters when the server gives one.
pub struct ResultSlot<'a> {
    pub kind: ResultKind,
    pub str_buf: Vec<u8>,
    pub bin_buf: Vec<u8>,
    pub actual_len: usize,
    pub int_value: i64,
    pub real_value: u64,
    pub error_msg: Vec<u8>,
    pub type_params: TypeParams<'a>,
    pub out_params: Option<InferredParamsSlot>,
}

/// The message for a result too large for its buffer.
pub open spec fn overflow_message(len: nat, max: nat) -> Seq<char> {
    "result of "@ + decimal(len) + " bytes exceeds the "@ + decimal(max)
        + "-byte buffer. Declare a larger buffer_size in func!"@
}

/// The parts of a slot that writing a result never touches.
pub open spec fn same_frame<'a>(a: ResultSlot<'a>, b: ResultSlot<'a>) -> bool {
    &&& a.type_params@ == b.type_params@
    &&& match (a.out_params, b.out_params) {
        (Some(x), Some(y)) => x@ == y@,
        (None, None) => true,
        _ => false,
    }
}

/// `new` is `old` with nothing changed but the kind and the error message.
pub open spec fn only_message_changed<'a>(old: ResultSlot<'a>, new: ResultSlot<'a>) -> bool {
    &&& same_frame(old, new)
    &&& new.str_buf@ == old.str_buf@
    &&& new.bin_buf@ == old.bin_buf@
    &&& new.actual_len == old.actual_len
    &&& new.int_value == old.int_value
    &&& new.real_value == old.real_value
}

/// `new` is `old` after `bytes` were written as a string (`binary` false) or
/// binary result: copied in with the slot marked a value when they fit,
/// otherwise the slot marked an error with the overflow message.
pub open spec fn bytes_written<'a>(old: ResultSlot<'a>, bytes: Seq<u8>, binary: bool, new: ResultSlot<'a>) -> bool {
    let cap = if binary { old.bin_buf@.len() } else { old.str_buf@.len() };
    if bytes.len() <= cap {
        &&& new.kind == ResultKind::Value
        &&& new.actual_len == bytes.len()
        &&& binary ==> new.bin_buf@ == bytes + old.bin_buf@.skip(bytes.len() as int)
            && new.str_buf@ == old.str_buf@
        &&& !binary ==> new.str_buf@ == bytes + old.str_buf@.skip(bytes.len() as int)
            && new.bin_buf@ == old.bin_buf@
        &&& new.error_msg@ == old.error_msg@
        &&& new.int_value == old.int_value
        &&& new.real_value == old.real_value
        &&& same_frame(old, new)
    } else {
        &&& new.kind == ResultKind::Error
        &&& new.error_msg@ == message_written(
            old.error_msg@,
            encode_utf8(overflow_message(bytes.len(), cap)),
        )
        &&& only_message_changed(old, new)
    }
}

/// The capacity of the string (`binary` false) or binary result buffer.
pub open spec fn buffer_capacity<'a>(slot: ResultSlot<'a>, binary: bool) -> nat {
    if binary {
        slot.bin_buf@.len()
    } else {
        slot.str_buf@.len()
    }
}

/// Bytes that fit their buffer, its full capacity included, are written: the
/// slot holds a value of exactly their length, its buffer starting with
/// them. Only bytes longer than the buffer make an error.
pub proof fn law_result_fits<'a>(old: ResultSlot<'a>, bytes: Seq<u8>, binary: bool, new: ResultSlot<'a>)
    requires
        bytes_written(old, bytes, binary, new),
    ensures
        bytes.len() <= buffer_capacity(old, binary) ==> {
            &&& new.kind == ResultKind::Value
            &&& new.actual_len == bytes.len()
            &&& binary ==> new.bin_buf@.take(bytes.len() as int) == bytes
            &&& !binary ==> new.str_buf@.take(bytes.len() as int) == bytes
        },
        bytes.len() > buffer_capacity(old, binary) ==> new.kind == ResultKind::Error,
{
    if bytes.len() <= buffer_capacity(old, binary) {
        if binary {
            assert(new.bin_buf@.take(bytes.len() as int) =~= bytes);
        } else {
            assert(new.str_buf@.take(bytes.len() as int) =~= bytes);
        }
    }
}

/// `new` is `old` after the VDF's return value `ret` was written into it.
pub open spec fn result_written<'a>(old: ResultSlot<'a>, ret: VdfReturn, new: ResultSlot<'a>) -> bool {
    match ret {
        VdfReturn::Null => new.kind == ResultKind::Null && new.error_msg@ == old.error_msg@
            && only_message_changed(old, new),
        VdfReturn::String(s) => bytes_written(old, encode_utf8(s@), false, new),
        VdfReturn::Real(v) => new.kind == ResultKind::Value && new.real_value == v
            && new.error_msg@ == old.error_msg@ && new.str_buf@ == old.str_buf@
            && new.bin_buf@ == old.bin_buf@ && new.actual_len == old.actual_len
            && new.int_value == old.int_value && same_frame(old, new),
        VdfReturn::Int(v) => new.kind == ResultKind::Value && new.int_value == v
            && new.error_msg@ == old.error_msg@ && new.str_buf@ == old.str_buf@
            && new.bin_buf@ == old.bin_buf@ && new.actual_len == old.actual_len
            && new.real_value == old.real_value && same_frame(old, new),
        VdfReturn::Binary(b) => bytes_written(old, b@, true, new),
        VdfReturn::Warning(m) => new.kind == ResultKind::Warning && new.error_msg@
            == message_written(old.error_msg@, encode_utf8(m@)) && only_message_changed(old, new),
        VdfReturn::Error(m) => new.kind == ResultKind::Error && new.error_msg@ == message_written(
            old.error_msg@,
            encode_utf8(m@),
        ) && only_message_changed(old, new),
    }
}

/// What each return value makes of the slot: NULL a null result, an integer
/// or a real a value holding it, a warning or an error its own kind with its
/// message written; nothing but the message changes for those three.
pub proof fn law_result_kind<'a>(old: ResultSlot<'a>, ret: VdfReturn, new: ResultSlot<'a>)
    requires
        result_written(old, ret, new),
    ensures
        ret is Null ==> new.kind == ResultKind::Null && new.error_msg@ == old.error_msg@,
        ret matches VdfReturn::Int(v) ==> new.kind == ResultKind::Value && new.int_value == v,
        ret matches VdfReturn::Real(v) ==> new.kind == ResultKind::Value && new.real_value == v,
        ret matches VdfReturn::Warning(m) ==> new.kind == ResultKind::Warning && new.error_msg@ == message_written(
            old.error_msg@,
            encode_utf8(m@),
        ),
        ret matches VdfReturn::Error(m) ==> new.kind == ResultKind::Error && new.error_msg@ == message_written(
            old.error_msg@,
            encode_utf8(m@),
        ),
        (ret is Null || ret is Warning || ret is Error) ==> new.str_buf@ == old.str_buf@ && new.bin_buf@
            == old.bin_buf@ && new.actual_len == old.actual_len && new.int_value == old.int_value
            && new.real_value == old.real_value,
{
}

fn copy_prefix(dst: &mut [u8], src: &[u8])
    requires
        src@.len() <= old(dst)@.len(),
    ensures
        final(dst)@ == src@ + old(dst)@.skip(src@.len() as int),
{
    let n = src.len();
    assert(dst@ =~= src@.take(0) + old(dst)@.skip(0));
    for i in 0..n
        invariant
            n == src@.len(),
            n <= old(dst)@.len(),
            dst@.len() == old(dst)@.len(),
            dst@ == src@.take(i as int) + old(dst)@.skip(i as int),
    {
        dst[i] = src[i];
        assert(dst@ =~= src@.take(i + 1) + old(dst)@.skip(i + 1));
    }
    assert(src@.take(n as int) =~= src@);
}

fn overflow_text(len: usize, max: usize) -> (r: String)
    ensures
        r@ == overflow_message(len as nat, max as nat),
{
    let mut m = String::from_str("result of ");
    push_u64(&mut m, len as u64);
    m.append(" bytes exceeds the ");
    push_u64(&mut m, max as u64);
    m.append("-byte buffer. Declare a larger buffer_size in func!");
    m
}

/// Copies `bytes` into the string (`binary` false) or binary result buffer
/// and marks the result a value; when they do not fit, marks it an error
/// rather than truncate.
pub fn write_bytes_or_error(bytes: &[u8], binary: bool, result: &mut ResultSlot)
    requires
        old(result).error_msg@.len() >= 1,
    ensures
        bytes_written(*old(result), bytes@, binary, *final(result)),
        bytes@.len() <= buffer_capacity(*old(result), binary) ==> final(result).kind == ResultKind::Value
            && final(result).actual_len == bytes@.len(),
        bytes@.len() <= buffer_capacity(*old(result), binary) && binary ==> final(result).bin_buf@.take(
            bytes@.len() as int,
        ) == bytes@,
        bytes@.len() <= buffer_capacity(*old(result), binary) && !binary ==> final(result).str_buf@.take(
            bytes@.len() as int,
        ) == bytes@,
        bytes@.len() > buffer_capacity(*old(result), binary) ==> final(result).kind == ResultKind::Error,
{
    let cap = if binary {
        result.bin_buf.len()
    } else {
        result.str_buf.len()
    };
    if bytes.len() <= cap {
        if binary {
            copy_prefix(result.bin_buf.as_mut_slice(), bytes);
        } else {
            copy_prefix(result.str_buf.as_mut_slice(), bytes);
        }
        result.actual_len = bytes.len();
        result.kind = ResultKind::Value;
    } else {
        let msg = overflow_text(bytes.len(), cap);
        result.kind = ResultKind::Error;
        write_error_msg(msg.as_str().as_bytes(), result.error_msg.as_mut_slice());
    }
    proof {
        law_result_fits(*old(result), bytes@, binary, *result);
    }
}

/// Writes a VDF's return value into the result slot.
pub fn write_result(ret: VdfReturn, result: &mut ResultSlot)
    requires
        old(result).error_msg@.len() >= 1,
    ensures
        result_written(*old(result), ret, *final(result)),
        ret is Binary && ret->Binary_0@.len() <= old(result).bin_buf@.len() ==> final(result).kind
            == ResultKind::Value && final(result).actual_len == ret->Binary_0@.len() && final(result).bin_buf@.take(
            ret->Binary_0@.len() as int,
        ) == ret->Binary_0@,
        ret is Binary && ret->Binary_0@.len() > old(result).bin_buf@.len() ==> final(result).kind
            == ResultKind::Error,
        ret is String && encode_utf8(ret->String_0@).len() <= old(result).str_buf@.len() ==> final(result).kind
            == ResultKind::Value && final(result).actual_len == encode_utf8(ret->String_0@).len()
            && final(result).str_buf@.take(encode_utf8(ret->String_0@).len() as int) == encode_utf8(
            ret->String_0@,
        ),
        ret is String && encode_utf8(ret->String_0@).len() > old(result).str_buf@.len() ==> final(result).kind
            == ResultKind::Error,
{
    match ret {
        VdfReturn::Null => {
            result.kind = ResultKind::Null;
        },
        VdfReturn::String(s) => {
            write_bytes_or_error(s.as_str().as_bytes(), false, result);
        },
        VdfReturn::Real(v) => {
            result.kind = ResultKind::Value;
            result.real_value = v;
        },
        VdfReturn::Int(v) => {
            result.kind = ResultKind::Value;
            result.int_value = v;
        },
        VdfReturn::Binary(b) => {
            write_bytes_or_error(b.as_slice(), true, result);
        },
        VdfReturn::Warning(msg) => {
            result.kind = ResultKind::Warning;
            write_error_msg(msg.as_str().as_bytes(), result.error_msg.as_mut_slice());
        },
        VdfReturn::Error(msg) => {
            result.kind = ResultKind::Error;
            write_error_msg(msg.as_str().as_bytes(), result.error_msg.as_mut_slice());
        },
    }
}

/// Reads one row's arguments, calls `f` on them, and writes what it returns.
pub fn dispatch_vdf<'a, F>(f: F, args: Vec<RawValue<'a>>, result: &mut ResultSlot) where
    F: Fn(&[InValue<'a>]) -> VdfReturn,

    requires
        old(result).error_msg@.len() >= 1,
        forall|vals: &[InValue<'a>]| call_requires(f, (vals,)),
    ensures
        exists|vals: &[InValue<'a>], ret: VdfReturn|
            vals@ == args@.map_values(|a: RawValue<'a>| in_value_of(a)) && call_ensures(
                f,
                (vals,),
                ret,
            ) && result_written(*old(result), ret, *final(result)),
{
    let in_values = read_in_values(args);
    let ret = f(in_values.as_slice());
    write_result(ret, result);
}

/// Prerun: hands the statement's argument types and its prerun handle to the
/// setup function `f`.
pub fn dispatch_prerun<T, F>(f: F, args: PrerunArgs, result: &mut PrerunResult<T>) where
    F: FnOnce(PrerunArgs, &mut PrerunResult<T>),

    requires
        forall|a: PrerunArgs, r: &mut PrerunResult<T>| call_requires(f, (a, r)),
    ensures
        exists|r: &mut PrerunResult<T>|
            *r == *old(result) && *final(r) == *final(result) && call_ensures(f, (args, r), ()),
{
    f(args, result);
}

/// Aggregate prerun: the accumulator starts at its default value.
pub fn dispatch_agg_prerun<T: Default>(result: &mut PrerunResult<T>)
    ensures
        final(result).spec_state() is Some,
        final(result).spec_result_buffer_size() == old(result).spec_result_buffer_size(),
        final(result).spec_failed() == old(result).spec_failed(),
        final(result).spec_error_msg() == old(result).spec_error_msg(),
{
    result.set_state(T::default());
}

/// Row runner for a function with per-statement state: reads the row's
/// arguments, calls `f` with the state and them, and writes what it returns.
pub fn dispatch_vdf_with_state<'a, T, F>(f: F, state: &mut T, args: Vec<RawValue<'a>>, result: &mut ResultSlot) where
    F: FnOnce(&mut T, &[InValue<'a>]) -> VdfReturn,

    requires
        old(result).error_msg@.len() >= 1,
        forall|s: &mut T, vals: &[InValue<'a>]| call_requires(f, (s, vals)),
    ensures
        exists|s: &mut T, vals: &[InValue<'a>], ret: VdfReturn|
            *s == *old(state) && *final(s) == *final(state) && vals@ == args@.map_values(
                |a: RawValue<'a>| in_value_of(a),
            ) && call_ensures(f, (s, vals), ret) && result_written(*old(result), ret, *final(result)),
{
    let in_values = read_in_values(args);
    let ret = f(state, in_values.as_slice());
    write_result(ret, result);
}

/// Aggregate clear: `f` resets the accumulator at the start of a group.
pub fn dispatch_clear<T, F>(f: F, state: &mut T) where F: FnOnce(&mut T)
    requires
        forall|s: &mut T| call_requires(f, (s,)),
    ensures
        exists|s: &mut T| *s == *old(state) && *final(s) == *final(state) && call_ensures(f, (s,), ()),
{
    f(state);
}

/// Aggregate accumulate: reads the row's arguments and lets `f` fold them
/// into the accumulator. Nothing is written to the result.
pub fn dispatch_accumulate<'a, T, F>(f: F, state: &mut T, args: Vec<RawValue<'a>>) where
    F: FnOnce(&mut T, &[InValue<'a>]),

    requires
        forall|s: &mut T, vals: &[InValue<'a>]| call_requires(f, (s, vals)),
    ensures
        exists|s: &mut T, vals: &[InValue<'a>]|
            *s == *old(state) && *final(s) == *final(state) && vals@ == args@.map_values(
                |a: RawValue<'a>| in_value_of(a),
            ) && call_ensures(f, (s, vals), ()),
{
    let in_values = read_in_values(args);
    f(state, in_values.as_slice());
}

/// Aggregate result: `f` gives the group's output from the finished
/// accumulator, which is written to the result.
pub fn dispatch_agg_result<T, F>(f: F, state: &T, result: &mut ResultSlot) where F: FnOnce(&T) -> VdfReturn
    requires
        old(result).error_msg@.len() >= 1,
        call_requires(f, (state,)),
    ensures
        exists|ret: VdfReturn| call_ensures(f, (state,), ret) && result_written(*old(result), ret, *final(result)),
{
    let ret = f(state);
    write_result(ret, result);
}

} // verus!
