//! The `vsql::preview::thread_worker` capability: a work function the server
//! runs on its worker thread.
use vstd::prelude::*;
use crate::preview::{version_tag, version_tag_string, CapabilityConfig, CapabilityName, RequiredCapability, Capability};

verus! {

/// Why the server woke up the worker.
#[derive(Debug, Clone, Copy, PartialEq, Eq, Structural)]
pub enum WakeupReason {
    Enable,
    Periodic,
    PollFd,
    Disable,
}

/// What the worker returns: when to wake next, and which fd to watch.
#[derive(Debug, Clone, Copy, PartialEq, Eq, Structural)]
pub struct NextWakeup {
    /// Milliseconds to next periodic wakeup. `0` = keep current interval.
    pub sleep_ms: u32,
    /// FD to watch: `> 0` watch, `-1` clear, `0` = keep current.
    pub poll_fd: i32,
}

impl NextWakeup {
    /// Keep interval and poll fd unchanged.
    pub fn unchanged() -> (r: Self)
        ensures
            r == (NextWakeup { sleep_ms: 0, poll_fd: 0 }),
    {
        NextWakeup { sleep_ms: 0, poll_fd: 0 }
    }

    /// Wake again after `ms` milliseconds (poll fd unchanged).
    pub fn after_ms(ms: u32) -> (r: Self)
        ensures
            r == (NextWakeup { sleep_ms: ms, poll_fd: 0 }),
    {
        NextWakeup { sleep_ms: ms, poll_fd: 0 }
    }
}

/// Opaque handle to the worker thread, passed to the work function.
#[derive(Debug, Clone, Copy, PartialEq, Eq, Structural)]
pub struct ThreadHandle {
    raw: usize,
}

impl ThreadHandle {
    /// The server's handle value.
    pub closed spec fn spec_raw(&self) -> usize {
        self.raw
    }

    pub fn from_raw(raw: usize) -> (r: Self)
        ensures
            r.spec_raw() == raw,
    {
        ThreadHandle { raw }
    }

    pub fn as_raw(&self) -> (r: usize)
        ensures
            r == self.spec_raw(),
    {
        self.raw
    }
}

/// One wakeup of the worker: a reason this SDK does not know leaves the
/// schedule unchanged without running the work function; otherwise the work
/// function decides.
pub fn worker_wakeup<W>(reason: Option<WakeupReason>, thread: ThreadHandle, work: W) -> (r: NextWakeup) where
    W: FnOnce(WakeupReason, ThreadHandle) -> NextWakeup,

    requires
        forall|w: WakeupReason| call_requires(work, (w, thread)),
    ensures
        reason is None ==> r == (NextWakeup { sleep_ms: 0, poll_fd: 0 }),
        reason matches Some(w) ==> call_ensures(work, (w, thread), r),
{
    match reason {
        None => NextWakeup::unchanged(),
        Some(w) => work(w, thread),
    }
}

/// What the server is told of the worker: its first interval, the suffix
/// that names the worker and its control variable, and the variable's name
/// when it overrides the default.
pub struct ThreadWorkerDescriptor {
    pub sleep_ms: u32,
    pub suffix: String,
    pub var_name: Option<String>,
}

/// The `vsql::preview::thread_worker` capability: the worker's schedule and
/// names. Its work function runs through [`worker_wakeup`].
pub struct ThreadWorkerCapability {
    sleep_ms: u32,
    suffix: String,
    var_name: Option<String>,
}

impl ThreadWorkerCapability {
    pub closed spec fn spec_sleep_ms(&self) -> u32 {
        self.sleep_ms
    }

    pub closed spec fn spec_suffix(&self) -> Seq<char> {
        self.suffix@
    }

    pub closed spec fn spec_var_name(&self) -> Option<Seq<char>> {
        match self.var_name {
            Some(n) => Some(n@),
            None => None,
        }
    }

    /// Create a thread-worker capability. `suffix` names the worker and its
    /// control variable (`{suffix}_enabled`); `var_name` overrides that
    /// variable's name.
    pub fn new(suffix: String, sleep_ms: u32, var_name: Option<String>) -> (r: Self)
        ensures
            r.spec_suffix() == suffix@,
            r.spec_sleep_ms() == sleep_ms,
            r.spec_var_name() == (match var_name {
                Some(n) => Some(n@),
                None => None::<Seq<char>>,
            }),
    {
        ThreadWorkerCapability { sleep_ms, suffix, var_name }
    }

}

impl Capability for ThreadWorkerCapability {
    open spec fn requestable(&self) -> bool {
        true
    }

    open spec fn is_request(&self, r: RequiredCapability) -> bool {
        &&& r.name == CapabilityName::ThreadWorker
        &&& r.vtable_hash@ == version_tag()
        &&& r.config_hash matches Some(h) && h@ == version_tag()
        &&& r.config matches CapabilityConfig::ThreadWorker(d) && d.sleep_ms == self.spec_sleep_ms()
            && d.suffix@ == self.spec_suffix() && match d.var_name {
            Some(n) => self.spec_var_name() == Some(n@),
            None => self.spec_var_name() is None,
        }
    }

    /// The registration entry for the worker: its descriptor, under the
    /// configuration version tag.
    fn request(&self) -> (r: RequiredCapability) {
        let var_name = match &self.var_name {
            Some(n) => Some(n.clone()),
            None => None,
        };
        let d = ThreadWorkerDescriptor { sleep_ms: self.sleep_ms, suffix: self.suffix.clone(), var_name };
        RequiredCapability {
            name: CapabilityName::ThreadWorker,
            vtable_hash: version_tag_string(),
            config_hash: Some(version_tag_string()),
            config: CapabilityConfig::ThreadWorker(d),
        }
    }
}

} // verus!
