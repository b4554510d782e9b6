//! The routing decisions of the JSON-RPC client: what each message the
//! server sends is, and the errors the client reports.
use vstd::prelude::*;
use crate::json::{spec_as_i64, spec_as_str, spec_get, Json};
use crate::num::{i64_chars, signed_decimal};
use crate::text::{chars_of, push_str_chars, string_from_chars};

verus! {

/// One JSON-RPC error as surfaced to the caller.
#[derive(Debug, Clone)]
pub struct LspRpcError {
    pub code: i64,
    pub message: String,
}

/// Errors the client surfaces: I/O (the child dying among them), an
/// error response from the server, a request after shutdown, and a
/// payload that does not decode.
#[derive(Debug)]
pub enum LspClientError {
    Io(String),
    Rpc(LspRpcError),
    Shutdown,
    Decode(String),
}

impl LspRpcError {
    /// `LSP error {code}: {message}`.
    pub open spec fn text_spec(&self) -> Seq<char> {
        "LSP error "@ + signed_decimal(self.code as int) + ": "@ + self.message@
    }

    /// The error's message, as its `Display` renders it.
    pub fn to_text(&self) -> (s: String)
        ensures
            s@ == self.text_spec(),
    {
        let mut v = chars_of("LSP error ");
        let code = i64_chars(self.code);
        let mut k: usize = 0;
        let ghost base = v@;
        while k < code.len()
            invariant
                k <= code.len(),
                v@ == base + code@.take(k as int),
            decreases code.len() - k,
        {
            v.push(code[k]);
            assert(code@.take(k + 1) =~= code@.take(k as int).push(code@[k as int]));
            k = k + 1;
        }
        assert(code@.take(code.len() as int) =~= code@);
        push_str_chars(&mut v, ": ");
        push_str_chars(&mut v, self.message.as_str());
        string_from_chars(v.as_slice())
    }
}

impl LspClientError {
    /// The error's message, as its `Display` renders it.
    pub open spec fn text_spec(&self) -> Seq<char> {
        match self {
            LspClientError::Io(m) => "lsp io: "@ + m@,
            LspClientError::Rpc(e) => e.text_spec(),
            LspClientError::Shutdown => "lsp client shut down"@,
            LspClientError::Decode(m) => "lsp decode: "@ + m@,
        }
    }

    /// The error's message, as its `Display` renders it.
    pub fn to_text(&self) -> (s: String)
        ensures
            s@ == self.text_spec(),
    {
        match self {
            LspClientError::Io(m) => {
                let mut v = chars_of("lsp io: ");
                push_str_chars(&mut v, m.as_str());
                string_from_chars(v.as_slice())
            },
            LspClientError::Rpc(e) => e.to_text(),
            LspClientError::Shutdown => {
                let v = chars_of("lsp client shut down");
                string_from_chars(v.as_slice())
            },
            LspClientError::Decode(m) => {
                let mut v = chars_of("lsp decode: ");
                push_str_chars(&mut v, m.as_str());
                string_from_chars(v.as_slice())
            },
        }
    }
}

impl From<LspRpcError> for LspClientError {
    fn from(e: LspRpcError) -> (r: LspClientError) {
        LspClientError::Rpc(e)
    }
}

impl vstd::std_specs::convert::FromSpecImpl<LspRpcError> for LspClientError {
    open spec fn obeys_from_spec() -> bool {
        true
    }

    open spec fn from_spec(e: LspRpcError) -> LspClientError {
        LspClientError::Rpc(e)
    }
}

/// The error every pending request fails with once the server's output
/// has ended.
pub fn shutdown_error() -> (e: LspRpcError)
    ensures
        e.code == -32099,
        e.message@ == "lsp client shut down"@,
{
    let v = chars_of("lsp client shut down");
    LspRpcError { code: -32099, message: string_from_chars(v.as_slice()) }
}

/// What a message from the server is.
#[derive(Debug)]
pub enum Incoming<'a> {
    /// A request from the server (it has both `id` and `method`); the
    /// client answers it with a `null` result under this `id`.
    ServerRequest { request_id: &'a Json },
    /// A notification (`method` without `id`): its method (empty when
    /// not a string) and its params (`null` when absent).
    Notification { method: &'a str, params: Option<&'a Json> },
    /// A response to request `id`: its `result` (`null` when absent), or
    /// the error it carries.
    Response { id: i64, outcome: Result<Option<&'a Json>, LspRpcError> },
    /// A response whose `id` is not an integer: dropped.
    NonNumericId,
    /// Neither `method` nor `id`: dropped.
    Unroutable,
}

/// `v` has a member named `key`.
pub open spec fn has_member(v: Json, key: Seq<char>) -> bool {
    spec_get(v, key) is Some
}

/// The text of a string member, or `dflt`.
pub open spec fn str_member_or(v: Json, key: Seq<char>, dflt: Seq<char>) -> Seq<char> {
    match spec_get(v, key) {
        Some(x) => match spec_as_str(x) {
            Some(s) => s,
            None => dflt,
        },
        None => dflt,
    }
}

/// The integer member `key`, or `dflt`.
pub open spec fn i64_member_or(v: Json, key: Seq<char>, dflt: i64) -> i64 {
    match spec_get(v, key) {
        Some(x) => match spec_as_i64(x) {
            Some(n) => n,
            None => dflt,
        },
        None => dflt,
    }
}

fn str_member_or_default<'a>(v: &'a Json, key: &str, dflt: &'a str) -> (r: &'a str)
    ensures
        r@ == str_member_or(*v, key@, dflt@),
{
    match v.get(key) {
        Some(x) => match x.as_str() {
            Some(s) => s,
            None => dflt,
        },
        None => dflt,
    }
}

/// Sort one decoded message from the server.
pub fn classify_incoming<'a>(v: &'a Json) -> (r: Incoming<'a>)
    ensures
        has_member(*v, "method"@) && has_member(*v, "id"@) <==> r is ServerRequest,
        has_member(*v, "method"@) && !has_member(*v, "id"@) <==> r is Notification,
        !has_member(*v, "method"@) && has_member(*v, "id"@) <==> (r is Response || r is NonNumericId),
        !has_member(*v, "method"@) && !has_member(*v, "id"@) <==> r is Unroutable,
        r matches Incoming::ServerRequest { request_id } ==> spec_get(*v, "id"@) == Some(*request_id),
        r matches Incoming::Notification { method, params } ==> {
            &&& method@ == str_member_or(*v, "method"@, Seq::empty())
            &&& match params {
                Some(p) => spec_get(*v, "params"@) == Some(*p),
                None => spec_get(*v, "params"@) is None,
            }
        },
        r matches Incoming::Response { id, outcome } ==> {
            &&& spec_get(*v, "id"@) matches Some(i) && spec_as_i64(i) == Some(id)
            &&& match outcome {
                Ok(res) => {
                    &&& spec_get(*v, "error"@) is None
                    &&& match res {
                        Some(x) => spec_get(*v, "result"@) == Some(*x),
                        None => spec_get(*v, "result"@) is None,
                    }
                },
                Err(e) => spec_get(*v, "error"@) matches Some(err) && {
                    &&& e.code == i64_member_or(err, "code"@, -1i64)
                    &&& e.message@ == str_member_or(err, "message"@, "<no message>"@)
                },
            }
        },
        r is NonNumericId ==> (spec_get(*v, "id"@) matches Some(i) && spec_as_i64(i) is None),
{
    let has_method = v.get("method").is_some();
    match v.get("id") {
        Some(i) => {
            if has_method {
                return Incoming::ServerRequest { request_id: i };
            }
            match i.as_i64() {
                None => Incoming::NonNumericId,
                Some(n) => match v.get("error") {
                    Some(err) => {
                        let code = match err.get("code") {
                            Some(c) => match c.as_i64() {
                                Some(k) => k,
                                None => -1,
                            },
                            None => -1,
                        };
                        let message = str_member_or_default(err, "message", "<no message>").to_owned();
                        Incoming::Response { id: n, outcome: Err(LspRpcError { code, message }) }
                    },
                    None => Incoming::Response { id: n, outcome: Ok(v.get("result")) },
                },
            }
        },
        None => {
            if has_method {
                proof {
                    reveal_strlit("");
                }
                let m = str_member_or_default(v, "method", "");
                Incoming::Notification { method: m, params: v.get("params") }
            } else {
                Incoming::Unroutable
            }
        },
    }
}

} // verus!
