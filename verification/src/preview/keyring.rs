//! The `vsql::preview::keyring` capability.
use vstd::prelude::*;
use crate::preview::{plain_request, plain_request_of, CapabilityName, RequiredCapability, Capability};

verus! {

/// The oldest keyring vtable version this SDK calls into; an older vtable
/// counts as unavailable.
pub const KEYRING_ABI_VERSION: u32 = 1;

/// Why a keyring operation failed.
#[derive(Debug, Clone, Copy, PartialEq, Eq, Structural)]
pub enum KeyringError {
    /// The capability was not wired up: no vtable, a null function pointer,
    /// or an ABI version older than this SDK requires.
    CapabilityUnavailable,
    /// No keyring component is installed on the server.
    NoComponent,
    /// Any other keyring failure.
    Other,
}

impl KeyringError {
    /// The error's message.
    pub fn message(&self) -> (r: &'static str)
        ensures
            r@ == keyring_error_message(*self),
    {
        match self {
            KeyringError::CapabilityUnavailable => "keyring capability is unavailable",
            KeyringError::NoComponent => "no keyring component is installed",
            KeyringError::Other => "keyring operation failed",
        }
    }
}

/// The message of each keyring error.
pub open spec fn keyring_error_message(e: KeyringError) -> Seq<char> {
    match e {
        KeyringError::CapabilityUnavailable => "keyring capability is unavailable"@,
        KeyringError::NoComponent => "no keyring component is installed"@,
        KeyringError::Other => "keyring operation failed"@,
    }
}

/// The result code of a keyring call.
#[derive(Debug, Clone, Copy, PartialEq, Eq, Structural)]
pub enum KeyringStatus {
    Found,
    NotFound,
    Unavailable,
    /// Any other code.
    Failed,
}

/// A result code read as a Rust result: found, not found, or a failure.
pub open spec fn interpreted(code: KeyringStatus) -> Result<bool, KeyringError> {
    match code {
        KeyringStatus::Found => Ok(true),
        KeyringStatus::NotFound => Ok(false),
        KeyringStatus::Unavailable => Err(KeyringError::NoComponent),
        KeyringStatus::Failed => Err(KeyringError::Other),
    }
}

/// Read a raw keyring result code: `Ok(true)` = found, `Ok(false)` =
/// not found, `Err` = a genuine failure.
pub fn interpret(code: KeyringStatus) -> (r: Result<bool, KeyringError>)
    ensures
        r == interpreted(code),
{
    match code {
        KeyringStatus::Found => Ok(true),
        KeyringStatus::NotFound => Ok(false),
        KeyringStatus::Unavailable => Err(KeyringError::NoComponent),
        KeyringStatus::Failed => Err(KeyringError::Other),
    }
}

/// What the server's keyring vtable offers.
#[derive(Debug, Clone, Copy)]
pub struct KeyringVtable {
    pub version: u32,
    pub has_read: bool,
    pub has_write: bool,
}

/// The `vsql::preview::keyring` capability: the vtable the server installs
/// at load time, if it did.
pub struct KeyringCapability {
    abi: Option<KeyringVtable>,
}

/// The outcome of a read: the secret's length, at most the buffer's.
pub open spec fn read_answer(code: KeyringStatus, out_len: usize, buf_len: usize) -> Result<Option<usize>, KeyringError> {
    match interpreted(code) {
        Ok(true) => Ok(Some(if out_len < buf_len { out_len } else { buf_len })),
        Ok(false) => Ok(None),
        Err(e) => Err(e),
    }
}

impl KeyringCapability {
    /// The installed vtable.
    pub closed spec fn spec_abi(&self) -> Option<KeyringVtable> {
        self.abi
    }

    /// A vtable that can serve calls at this SDK's ABI version.
    pub open spec fn usable(abi: Option<KeyringVtable>) -> bool {
        abi matches Some(v) && v.version >= KEYRING_ABI_VERSION
    }

    /// Create a keyring capability with no vtable yet.
    pub fn new() -> (r: Self)
        ensures
            r.spec_abi() is None,
    {
        KeyringCapability { abi: None }
    }

    /// The server's load-time fill of the vtable slot.
    pub fn install(&mut self, vtable: KeyringVtable)
        ensures
            final(self).spec_abi() == Some(vtable),
    {
        self.abi = Some(vtable);
    }

    fn vtable(&self) -> (r: Result<KeyringVtable, KeyringError>)
        ensures
            Self::usable(self.spec_abi()) ==> r == Ok::<KeyringVtable, KeyringError>(
                self.spec_abi()->Some_0,
            ),
            !Self::usable(self.spec_abi()) ==> r == Err::<KeyringVtable, KeyringError>(
                KeyringError::CapabilityUnavailable,
            ),
    {
        match self.abi {
            None => Err(KeyringError::CapabilityUnavailable),
            Some(v) => {
                if v.version < KEYRING_ABI_VERSION {
                    Err(KeyringError::CapabilityUnavailable)
                } else {
                    Ok(v)
                }
            },
        }
    }

    /// Read the secret `data_id` (of owner `auth_id`, when given) into `buf`.
    /// `call` makes the server call with them and gives its result code and
    /// the secret's full length; it runs only when the vtable is usable at
    /// this SDK's ABI version and offers a read. `Ok(Some(n))` gives how many
    /// bytes of `buf` hold the secret, at most its length.
    pub fn read<F>(&self, data_id: &str, auth_id: Option<&str>, buf: &mut [u8], call: F) -> (r:
        Result<Option<usize>, KeyringError>) where
        F: FnOnce(&str, Option<&str>, &mut [u8]) -> (KeyringStatus, usize),

        requires
            forall|b: &mut [u8]| call_requires(call, (data_id, auth_id, b)),
        ensures
            !(Self::usable(self.spec_abi()) && self.spec_abi()->Some_0.has_read) ==> r
                == Err::<Option<usize>, KeyringError>(KeyringError::CapabilityUnavailable) && final(buf)@
                == old(buf)@,
            (Self::usable(self.spec_abi()) && self.spec_abi()->Some_0.has_read) ==> exists|
                b: &mut [u8],
                out: (KeyringStatus, usize),
            |
                b@ == old(buf)@ && final(b)@ == final(buf)@ && call_ensures(call, (data_id, auth_id, b), out) && r
                    == read_answer(out.0, out.1, old(buf)@.len() as usize),
    {
        let v = match self.vtable() {
            Ok(v) => v,
            Err(e) => return Err(e),
        };
        if !v.has_read {
            return Err(KeyringError::CapabilityUnavailable);
        }
        let buf_len = buf.len();
        let out = call(data_id, auth_id, buf);
        let (code, out_len) = out;
        match interpret(code) {
            Ok(true) => Ok(Some(
                if out_len < buf_len {
                    out_len
                } else {
                    buf_len
                },
            )),
            Ok(false) => Ok(None),
            Err(e) => Err(e),
        }
    }

    /// Store `data` as the secret `data_id` (of owner `auth_id`, when given).
    /// `call` makes the server call with them and gives its result code; it
    /// runs only when the vtable is usable at this SDK's ABI version and
    /// offers a write.
    pub fn write<F>(&self, data_id: &str, auth_id: Option<&str>, data: &[u8], call: F) -> (r: Result<
        (),
        KeyringError,
    >) where F: FnOnce(&str, Option<&str>, &[u8]) -> KeyringStatus
        requires
            call_requires(call, (data_id, auth_id, data)),
        ensures
            !(Self::usable(self.spec_abi()) && self.spec_abi()->Some_0.has_write) ==> r
                == Err::<(), KeyringError>(KeyringError::CapabilityUnavailable),
            (Self::usable(self.spec_abi()) && self.spec_abi()->Some_0.has_write) ==> exists|
                code: KeyringStatus,
            |
                call_ensures(call, (data_id, auth_id, data), code) && r == match interpreted(code) {
                    Ok(_) => Ok::<(), KeyringError>(()),
                    Err(e) => Err(e),
                },
    {
        let v = match self.vtable() {
            Ok(v) => v,
            Err(e) => return Err(e),
        };
        if !v.has_write {
            return Err(KeyringError::CapabilityUnavailable);
        }
        let code = call(data_id, auth_id, data);
        match interpret(code) {
            Ok(_) => Ok(()),
            Err(e) => Err(e),
        }
    }
}

impl Capability for KeyringCapability {
    open spec fn requestable(&self) -> bool {
        true
    }

    open spec fn is_request(&self, r: RequiredCapability) -> bool {
        &&& plain_request(CapabilityName::Keyring, r)
    }

    /// The registration entry asking for the keyring vtable, with no
    /// configuration.
    fn request(&self) -> (r: RequiredCapability) {
        plain_request_of(CapabilityName::Keyring)
    }
}

} // verus!
