//! The `vsql::preview::sql_query` capability: SQL sessions opened from the
//! worker thread, their results and diagnostics.
use vstd::prelude::*;
use crate::preview::{plain_request, plain_request_of, CapabilityName, RequiredCapability, Capability};
use crate::preview::thread_worker::ThreadHandle;
use crate::text::{parse_i64, parsed_i64, trim_white, trimmed, utf8_text};
use vstd::utf8::{decode_utf8, valid_utf8};

verus! {

/// The oldest sql_query vtable version this SDK calls into; an older vtable
/// counts as unavailable.
pub const SQL_QUERY_ABI_VERSION: u32 = 1;

/// Severity of a SQL diagnostic.
#[derive(Debug, Clone, Copy, PartialEq, Eq, Structural)]
pub enum DiagSeverity {
    /// Informational. The statement succeeded.
    Note,
    /// The statement succeeded, but the server has something to report.
    Warning,
    /// The statement failed.
    Error,
}

/// A diagnostic's severity code as the server reports it.
#[derive(Debug, Clone, Copy, PartialEq, Eq, Structural)]
pub enum DiagCode {
    Note,
    Warning,
    Error,
    /// A code this SDK does not know.
    Unknown,
}

/// The severity of a code: a note and a warning as such, anything else an error.
pub open spec fn severity_of(code: DiagCode) -> DiagSeverity {
    match code {
        DiagCode::Note => DiagSeverity::Note,
        DiagCode::Warning => DiagSeverity::Warning,
        _ => DiagSeverity::Error,
    }
}

/// A note is a note and a warning a warning; an error, and any code this SDK
/// does not know, means the statement failed.
pub proof fn law_severity(code: DiagCode)
    ensures
        severity_of(code) == DiagSeverity::Note <==> code == DiagCode::Note,
        severity_of(code) == DiagSeverity::Warning <==> code == DiagCode::Warning,
        severity_of(code) == DiagSeverity::Error <==> (code == DiagCode::Error || code == DiagCode::Unknown),
{
}

/// One diagnostic: the statement error, or a warning or note.
#[derive(Debug)]
pub struct Diag {
    /// The MySQL error number, such as `1146` for an unknown table.
    pub errno: u32,
    /// Whether this is the statement's error, or a warning or note beside it.
    pub severity: DiagSeverity,
    /// The five-character SQLSTATE, such as `42S02`.
    pub sqlstate: String,
    /// The human-readable message text.
    pub message: String,
}

/// The text of `bytes`, each invalid UTF-8 sequence replaced by U+FFFD
/// (`String::from_utf8_lossy`). The contract claims only the valid case,
/// where the text is what the bytes encode; how invalid sequences are
/// replaced is left unsaid.
#[verifier::external_body]
fn lossy_text(bytes: &[u8]) -> (r: String)
    ensures
        valid_utf8(bytes@) ==> r@ == decode_utf8(bytes@),
{
    String::from_utf8_lossy(bytes).into_owned()
}

/// The text the server gave for an optional string: empty when absent.
pub open spec fn diag_text(b: Option<Seq<u8>>, t: Seq<char>) -> bool {
    match b {
        None => t == Seq::<char>::empty(),
        Some(b) => valid_utf8(b) ==> t == decode_utf8(b),
    }
}

impl Diag {
    /// A diagnostic from what the server filled in: its error number, its
    /// severity code, and the bytes of its SQLSTATE and message, decoded
    /// leniently; an absent one becomes the empty string.
    pub fn from_raw(errno: u32, code: DiagCode, sqlstate: Option<&[u8]>, message: Option<&[u8]>) -> (r: Self)
        ensures
            r.errno == errno,
            r.severity == severity_of(code),
            r.severity == DiagSeverity::Note <==> code == DiagCode::Note,
            r.severity == DiagSeverity::Warning <==> code == DiagCode::Warning,
            r.severity == DiagSeverity::Error <==> (code == DiagCode::Error || code == DiagCode::Unknown),
            diag_text(
                match sqlstate {
                    Some(b) => Some(b@),
                    None => None,
                },
                r.sqlstate@,
            ),
            diag_text(
                match message {
                    Some(b) => Some(b@),
                    None => None,
                },
                r.message@,
            ),
    {
        let severity = match code {
            DiagCode::Note => DiagSeverity::Note,
            DiagCode::Warning => DiagSeverity::Warning,
            _ => DiagSeverity::Error,
        };
        let sqlstate = match sqlstate {
            Some(b) => lossy_text(b),
            None => String::new(),
        };
        let message = match message {
            Some(b) => lossy_text(b),
            None => String::new(),
        };
        proof {
            law_severity(code);
        }
        Diag { errno, severity, sqlstate, message }
    }
}

/// What the server's sql_query vtable offers.
#[derive(Debug, Clone, Copy)]
pub struct SqlQueryVtable {
    pub version: u32,
    pub has_open_session: bool,
    pub has_execute: bool,
    pub has_for_each_row: bool,
    pub has_close_session: bool,
    pub has_error: bool,
    pub has_get_error: bool,
    pub has_warning_count: bool,
    pub has_get_warning: bool,
    pub has_num_columns: bool,
    pub has_fetch_row: bool,
    pub has_close_result: bool,
}

/// The `vsql::preview::sql_query` capability: the vtable the server installs
/// at load time, if it did.
pub struct SqlQueryCapability {
    abi: Option<SqlQueryVtable>,
}

/// An open SQL session, bound to the worker thread.
pub struct Session {
    vtable: SqlQueryVtable,
    handle: usize,
}

/// The outcome of a query: diagnostics, plus (for `execute`) buffered rows.
pub struct QueryResult {
    vtable: SqlQueryVtable,
    handle: usize,
}

impl SqlQueryCapability {
    /// The installed vtable.
    pub closed spec fn spec_abi(&self) -> Option<SqlQueryVtable> {
        self.abi
    }

    /// The vtable can open sessions at this SDK's ABI version.
    pub open spec fn can_open(abi: Option<SqlQueryVtable>) -> bool {
        abi matches Some(v) && v.version >= SQL_QUERY_ABI_VERSION && v.has_open_session
    }

    /// Create the capability with no vtable yet.
    pub fn new() -> (r: Self)
        ensures
            r.spec_abi() is None,
    {
        SqlQueryCapability { abi: None }
    }

    /// The server's load-time fill of the vtable slot.
    pub fn install(&mut self, vtable: SqlQueryVtable)
        ensures
            final(self).spec_abi() == Some(vtable),
    {
        self.abi = Some(vtable);
    }

    /// Open a SQL session bound to the worker thread. `call` asks the server
    /// for a session handle (`0` when it failed to open one); it runs only when
    /// the vtable can open sessions at this SDK's ABI version.
    pub fn open<F>(&self, handle: &ThreadHandle, call: F) -> (r: Option<Session>) where
        F: FnOnce(usize) -> usize,

        requires
            call_requires(call, (handle.spec_raw(),)),
        ensures
            !Self::can_open(self.spec_abi()) ==> r is None,
            Self::can_open(self.spec_abi()) ==> exists|h: usize|
                call_ensures(call, (handle.spec_raw(),), h) && (h == 0 ==> r is None) && (h != 0
                    ==> (r matches Some(s) && s.spec_handle() == h && s.spec_vtable()
                    == self.spec_abi()->Some_0)),
    {
        let v = match self.abi {
            None => return None,
            Some(v) => v,
        };
        if v.version < SQL_QUERY_ABI_VERSION || !v.has_open_session {
            return None;
        }
        let h = call(handle.as_raw());
        if h == 0 {
            None
        } else {
            Some(Session { vtable: v, handle: h })
        }
    }
}

impl Session {
    pub closed spec fn spec_handle(&self) -> usize {
        self.handle
    }

    pub closed spec fn spec_vtable(&self) -> SqlQueryVtable {
        self.vtable
    }

    /// The server's session handle.
    pub fn handle(&self) -> (r: usize)
        ensures
            r == self.spec_handle(),
    {
        self.handle
    }

    /// Close the session: `call` closes the server's handle, when the
    /// vtable offers `close_session`. Gives whether it was called.
    pub fn close<F>(self, call: F) -> (r: bool) where F: FnOnce(usize)
        requires
            call_requires(call, (self.spec_handle(),)),
        ensures
            r == self.spec_vtable().has_close_session,
            r ==> call_ensures(call, (self.spec_handle(),), ()),
    {
        if self.vtable.has_close_session {
            call(self.handle);
            true
        } else {
            false
        }
    }

    /// Execute `sql`, buffering the full result set. `call` runs it on the
    /// server and gives the result handle (`0` on setup failure); it runs
    /// only when the vtable offers `execute`. A result may still be a failed
    /// query: see [`QueryResult::has_error`].
    pub fn execute<F>(&self, sql: &str, call: F) -> (r: Option<QueryResult>) where F: FnOnce(usize, &str) -> usize
        requires
            call_requires(call, (self.spec_handle(), sql)),
        ensures
            !self.spec_vtable().has_execute ==> r is None,
            self.spec_vtable().has_execute ==> exists|h: usize|
                call_ensures(call, (self.spec_handle(), sql), h) && (h == 0 ==> r is None) && (h != 0
                    ==> (r matches Some(q) && q.spec_handle() == h && q.spec_vtable()
                    == self.spec_vtable())),
    {
        if !self.vtable.has_execute {
            return None;
        }
        let h = call(self.handle, sql);
        if h == 0 {
            None
        } else {
            Some(QueryResult { vtable: self.vtable, handle: h })
        }
    }

    /// Execute `sql`, handing each row to `f` as the server produces it,
    /// without buffering. `call` runs the statement with `f` as its row
    /// function and gives the result handle (`0` on setup failure); it runs
    /// only when the vtable offers `for_each_row`. The result carries
    /// diagnostics only.
    pub fn for_each<R, F>(&self, sql: &str, f: R, call: F) -> (r: Option<QueryResult>) where
        F: FnOnce(usize, &str, R) -> usize,

        requires
            call_requires(call, (self.spec_handle(), sql, f)),
        ensures
            !self.spec_vtable().has_for_each_row ==> r is None,
            self.spec_vtable().has_for_each_row ==> exists|h: usize|
                call_ensures(call, (self.spec_handle(), sql, f), h) && (h == 0 ==> r is None) && (h != 0
                    ==> (r matches Some(q) && q.spec_handle() == h && q.spec_vtable()
                    == self.spec_vtable())),
    {
        if !self.vtable.has_for_each_row {
            return None;
        }
        let h = call(self.handle, sql, f);
        if h == 0 {
            None
        } else {
            Some(QueryResult { vtable: self.vtable, handle: h })
        }
    }
}

/// One fetched row: each column's bytes, `None` for SQL NULL, and the
/// row's width as the result reports it.
pub struct Row {
    cells: Vec<Option<Vec<u8>>>,
    num_columns: u32,
}

/// What column `i` of a row holds as bytes: nothing for SQL NULL or a column
/// outside the row.
pub open spec fn column_bytes(cells: Seq<Option<Vec<u8>>>, num_columns: u32, i: u32) -> Option<Seq<u8>> {
    if i < num_columns && i < cells.len() {
        match cells[i as int] {
            Some(b) => Some(b@),
            None => None,
        }
    } else {
        None
    }
}

/// A column reads as bytes only inside the row and when it is not SQL NULL,
/// and then as exactly the bytes the row holds there.
pub proof fn law_column_bytes(cells: Seq<Option<Vec<u8>>>, num_columns: u32, i: u32)
    ensures
        (i >= num_columns || i >= cells.len()) ==> column_bytes(cells, num_columns, i) is None,
        i < num_columns && i < cells.len() && cells[i as int] is None ==> column_bytes(cells, num_columns, i) is None,
        i < num_columns && i < cells.len() && cells[i as int] is Some ==> column_bytes(cells, num_columns, i)
            == Some(cells[i as int]->Some_0@),
        column_text(cells, num_columns, i) is Some ==> column_bytes(cells, num_columns, i) is Some && valid_utf8(
            column_bytes(cells, num_columns, i)->Some_0,
        ),
{
}

/// What column `i` holds as text: its bytes when they are valid UTF-8.
pub open spec fn column_text(cells: Seq<Option<Vec<u8>>>, num_columns: u32, i: u32) -> Option<Seq<char>> {
    match column_bytes(cells, num_columns, i) {
        Some(b) => if valid_utf8(b) {
            Some(decode_utf8(b))
        } else {
            None
        },
        None => None,
    }
}

impl Row {
    pub closed spec fn spec_cells(&self) -> Seq<Option<Vec<u8>>> {
        self.cells@
    }

    pub closed spec fn spec_num_columns(&self) -> u32 {
        self.num_columns
    }

    /// A row of the given columns and width.
    pub fn new(cells: Vec<Option<Vec<u8>>>, num_columns: u32) -> (r: Self)
        ensures
            r.spec_cells() == cells@,
            r.spec_num_columns() == num_columns,
    {
        Row { cells, num_columns }
    }

    /// Number of columns in this row.
    pub fn num_columns(&self) -> (r: u32)
        ensures
            r == self.spec_num_columns(),
    {
        self.num_columns
    }

    /// Column `i` as raw bytes; `None` for SQL NULL or out-of-range `i`.
    pub fn get_bytes(&self, i: u32) -> (r: Option<&[u8]>)
        ensures
            match r {
                Some(b) => column_bytes(self.spec_cells(), self.spec_num_columns(), i) == Some(b@),
                None => column_bytes(self.spec_cells(), self.spec_num_columns(), i) is None,
            },
    {
        if i >= self.num_columns || i as usize >= self.cells.len() {
            return None;
        }
        match &self.cells[i as usize] {
            Some(b) => Some(b.as_slice()),
            None => None,
        }
    }

    /// Column `i` as UTF-8 text; `None` for SQL NULL, out-of-range `i`, or
    /// bytes that are not UTF-8.
    pub fn get_str(&self, i: u32) -> (r: Option<&str>)
        ensures
            match r {
                Some(t) => column_text(self.spec_cells(), self.spec_num_columns(), i) == Some(t@),
                None => column_text(self.spec_cells(), self.spec_num_columns(), i) is None,
            },
    {
        match self.get_bytes(i) {
            Some(b) => utf8_text(b),
            None => None,
        }
    }

    /// Column `i` read as a decimal integer, white space around it ignored;
    /// `None` for SQL NULL, out-of-range `i`, or text that is no `i64`.
    pub fn get_int(&self, i: u32) -> (r: Option<i64>)
        ensures
            r == match column_text(self.spec_cells(), self.spec_num_columns(), i) {
                Some(t) => parsed_i64(trimmed(t)),
                None => None,
            },
    {
        match self.get_str(i) {
            Some(t) => parse_i64(trim_white(t)),
            None => None,
        }
    }
}

/// The diagnostics among `outs`, in order.
pub open spec fn present_diags(outs: Seq<Option<Diag>>) -> Seq<Diag>
    decreases outs.len(),
{
    if outs.len() == 0 {
        Seq::empty()
    } else {
        present_diags(outs.drop_last()) + match outs.last() {
            Some(d) => seq![d],
            None => Seq::empty(),
        }
    }
}

/// `outs` are what `get` gave, in index order, for each of the `n`
/// warning indices of result `h`.
pub open spec fn fetched_all<G: Fn(usize, u32) -> Option<Diag>>(get: G, h: usize, n: u32, outs: Seq<Option<Diag>>) -> bool {
    &&& outs.len() == n
    &&& forall|i: int| 0 <= i < n ==> call_ensures(get, (h, i as u32), #[trigger] outs[i])
}

impl QueryResult {
    pub closed spec fn spec_handle(&self) -> usize {
        self.handle
    }

    pub closed spec fn spec_vtable(&self) -> SqlQueryVtable {
        self.vtable
    }

    /// The server's result handle.
    pub fn handle(&self) -> (r: usize)
        ensures
            r == self.spec_handle(),
    {
        self.handle
    }

    /// Close the result: `call` closes the server's handle, when the vtable
    /// offers `close_result`. Gives whether it was called.
    pub fn close<F>(self, call: F) -> (r: bool) where F: FnOnce(usize)
        requires
            call_requires(call, (self.spec_handle(),)),
        ensures
            r == self.spec_vtable().has_close_result,
            r ==> call_ensures(call, (self.spec_handle(),), ()),
    {
        if self.vtable.has_close_result {
            call(self.handle);
            true
        } else {
            false
        }
    }

    /// True if the statement produced an error; false when the vtable cannot
    /// tell.
    pub fn has_error<F>(&self, call: F) -> (r: bool) where F: FnOnce(usize) -> bool
        requires
            call_requires(call, (self.spec_handle(),)),
        ensures
            !self.spec_vtable().has_error ==> !r,
            self.spec_vtable().has_error ==> call_ensures(call, (self.spec_handle(),), r),
    {
        if self.vtable.has_error {
            call(self.handle)
        } else {
            false
        }
    }

    /// Number of columns in the result set; zero when the vtable cannot tell.
    pub fn num_columns<F>(&self, call: F) -> (r: u32) where F: FnOnce(usize) -> u32
        requires
            call_requires(call, (self.spec_handle(),)),
        ensures
            !self.spec_vtable().has_num_columns ==> r == 0,
            self.spec_vtable().has_num_columns ==> call_ensures(call, (self.spec_handle(),), r),
    {
        if self.vtable.has_num_columns {
            call(self.handle)
        } else {
            0
        }
    }

    /// The statement's error, if the query failed: `call` asks the server
    /// for it. Nothing when the vtable cannot tell.
    pub fn error<F>(&self, call: F) -> (r: Option<Diag>) where F: FnOnce(usize) -> Option<Diag>
        requires
            call_requires(call, (self.spec_handle(),)),
        ensures
            !self.spec_vtable().has_get_error ==> r is None,
            self.spec_vtable().has_get_error ==> call_ensures(call, (self.spec_handle(),), r),
    {
        if self.vtable.has_get_error {
            call(self.handle)
        } else {
            None
        }
    }

    /// Fetch the next row, or `None` when the result set is exhausted or the
    /// vtable cannot fetch. `fetch` gives the row's columns (`None` for each
    /// SQL NULL), or `None` at the end; the row's width is what
    /// [`QueryResult::num_columns`] gives through `ncols`.
    pub fn next_row<F, N>(&self, fetch: F, ncols: N) -> (r: Option<Row>) where
        F: FnOnce(usize) -> Option<Vec<Option<Vec<u8>>>>,
        N: FnOnce(usize) -> u32,

        requires
            call_requires(fetch, (self.spec_handle(),)),
            call_requires(ncols, (self.spec_handle(),)),
        ensures
            !self.spec_vtable().has_fetch_row ==> r is None,
            self.spec_vtable().has_fetch_row ==> exists|got: Option<Vec<Option<Vec<u8>>>>|
                call_ensures(fetch, (self.spec_handle(),), got) && match got {
                    None => r is None,
                    Some(cells) => r matches Some(row) && row.spec_cells() == cells@ && (if self.spec_vtable().has_num_columns {
                        call_ensures(ncols, (self.spec_handle(),), row.spec_num_columns())
                    } else {
                        row.spec_num_columns() == 0
                    }),
                },
    {
        if !self.vtable.has_fetch_row {
            return None;
        }
        let got = fetch(self.handle);
        match got {
            None => None,
            Some(cells) => {
                let num_columns = self.num_columns(ncols);
                Some(Row { cells, num_columns })
            },
        }
    }

    /// All warnings and notes: `count` gives how many there are and `get`
    /// fetches the `i`-th, or `None` when the server has none there; the
    /// fetched ones are kept in index order. Nothing when the vtable lacks
    /// either.
    pub fn warnings<C, G>(&self, count: C, get: G) -> (r: Vec<Diag>) where
        C: FnOnce(usize) -> u32,
        G: Fn(usize, u32) -> Option<Diag>,

        requires
            call_requires(count, (self.spec_handle(),)),
            forall|i: u32| call_requires(get, (self.spec_handle(), i)),
        ensures
            !(self.spec_vtable().has_warning_count && self.spec_vtable().has_get_warning) ==> r@.len()
                == 0,
            (self.spec_vtable().has_warning_count && self.spec_vtable().has_get_warning) ==> exists|
                n: u32,
                outs: Seq<Option<Diag>>,
            |
                call_ensures(count, (self.spec_handle(),), n) && fetched_all(get, self.spec_handle(), n, outs)
                    && r@ == present_diags(outs),
    {
        let mut out: Vec<Diag> = Vec::new();
        if !(self.vtable.has_warning_count && self.vtable.has_get_warning) {
            return out;
        }
        let n = count(self.handle);
        let ghost mut outs: Seq<Option<Diag>> = Seq::empty();
        for i in 0..n
            invariant
                forall|i: u32| call_requires(get, (self.spec_handle(), i)),
                outs.len() == i,
                forall|j: int| 0 <= j < i ==> call_ensures(get, (self.spec_handle(), j as u32), #[trigger] outs[j]),
                out@ == present_diags(outs),
        {
            let got = get(self.handle, i);
            let ghost g = got;
            let ghost before = outs;
            proof {
                outs = outs.push(g);
                assert(outs.drop_last() =~= before);
                assert forall|j: int| 0 <= j < i + 1 implies call_ensures(get, (self.spec_handle(), j as u32), #[trigger] outs[j]) by {
                    if j < i {
                        assert(outs[j] == before[j]);
                    }
                }
            }
            match got {
                Some(d) => {
                    out.push(d);
                    assert(out@ =~= present_diags(outs));
                },
                None => {
                    assert(out@ =~= present_diags(outs));
                },
            }
        }
        assert(fetched_all(get, self.spec_handle(), n, outs));
        out
    }
}

impl Capability for SqlQueryCapability {
    open spec fn requestable(&self) -> bool {
        true
    }

    open spec fn is_request(&self, r: RequiredCapability) -> bool {
        &&& plain_request(CapabilityName::SqlQuery, r)
    }

    /// The registration entry asking for the sql_query vtable, with no
    /// configuration.
    fn request(&self) -> (r: RequiredCapability) {
        plain_request_of(CapabilityName::SqlQuery)
    }
}

} // verus!
