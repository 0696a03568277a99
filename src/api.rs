//! The callable surface of the plugins: the traits they implement, and the
//! caller-side stubs that turn a method call into an identifier and bytes.
use vstd::prelude::*;
use crate::codec::{decoded_i32, decode_i32, encode_pair, encode_triple, encode_unit, le_i32, pair_bytes, triple_bytes};
use crate::ident::{call_id, call_identifier};
use crate::plugins::AddSession;
use crate::router::CallError;

verus! {

/// The first argument of `Client1Api1::add`.
#[derive(Debug, Clone, Copy, PartialEq, Eq, Structural)]
pub struct Param {
    pub a: i32,
    pub b: i32,
}

/// One call to be made through a plugin's dispatch entry point.
pub struct Call {
    /// The `"<Trait>::<Method>"` identifier.
    pub ident: String,
    /// The encoded argument tuple.
    pub args: Vec<u8>,
}

/// `s` as an `i32`, where it fits one.
pub open spec fn fit_i32(s: int) -> Option<i32> {
    if i32::MIN <= s <= i32::MAX {
        Some(s as i32)
    } else {
        None
    }
}

/// Methods of the first trait of the `client1` plugin.
pub trait Client1Api1 {
    /// What `add(p, offset)` returns; `None` where the result overflows.
    spec fn add_spec(&self, p: Param, offset: i32) -> Option<i32>;

    fn add(&self, p: Param, offset: i32) -> (r: Option<i32>)
        ensures
            r == self.add_spec(p, offset),
    ;
}

/// Methods of the second trait of the `client1` plugin.
pub trait Client1Api2 {
    /// What `minus(a, b)` returns; `None` where the result overflows.
    spec fn minus_spec(&self, a: i32, b: i32) -> Option<i32>;

    fn minus(&self, a: i32, b: i32) -> (r: Option<i32>)
        ensures
            r == self.minus_spec(a, b),
    ;
}

/// Methods of the server, which the host exposes as a plugin of its own.
pub trait ServerApi {
    /// What `add()` returns.
    spec fn add_spec(&self) -> i32;

    fn add(&self) -> (r: i32)
        ensures
            r == self.add_spec(),
    ;
}

/// Methods of the `client2` plugin. Its `add` calls other plugins before it
/// returns, so calling it begins a session that asks for those calls in turn
/// (see `AddSession`).
pub trait Client2Api {
    /// The session that `add(a, b)` begins.
    spec fn add_spec(&self, a: i32, b: i32) -> AddSession;

    fn add(&self, a: i32, b: i32) -> (r: AddSession)
        ensures
            r == self.add_spec(a, b),
    ;
}

/// The outcome of one method whose result is an `i32`, as result bytes.
pub open spec fn i32_outcome(v: Option<i32>) -> Result<Seq<u8>, CallError> {
    match v {
        Some(x) => Ok(le_i32(x)),
        None => Err(CallError::Overflow),
    }
}

/// What a caller makes of the result bytes of a call returning `i32`.
pub open spec fn i32_reply(b: Seq<u8>) -> Result<i32, CallError> {
    match decoded_i32(b) {
        Some(x) => Ok(x),
        None => Err(CallError::BadReply),
    }
}

/// Decodes the result bytes of a call whose method returns `i32`.
pub fn reply_i32(b: &[u8]) -> (r: Result<i32, CallError>)
    ensures
        r == i32_reply(b@),
{
    match decode_i32(b) {
        Some(x) => Ok(x),
        None => Err(CallError::BadReply),
    }
}

/// The identifier of `Client1Api1::add`.
pub open spec fn client1_add_id() -> Seq<char> {
    call_id("Client1Api1"@, "add"@)
}

/// The identifier of `Client1Api2::minus`.
pub open spec fn client1_minus_id() -> Seq<char> {
    call_id("Client1Api2"@, "minus"@)
}

/// The identifier of `ServerApi::add`.
pub open spec fn server_add_id() -> Seq<char> {
    call_id("ServerApi"@, "add"@)
}

/// The identifier of `Client2Api::add`.
pub open spec fn client2_add_id() -> Seq<char> {
    call_id("Client2Api"@, "add"@)
}

/// Caller-side stub of the `client1` plugin: it holds the plugin's handle
/// and builds the calls of `Client1Api1` and `Client1Api2`.
pub struct Client1<H> {
    pub handle: H,
}

impl<H> Client1<H> {
    pub fn from_handle(handle: H) -> (r: Self)
        ensures
            r.handle == handle,
    {
        Client1 { handle }
    }

    /// The call `Client1Api1::add(p, offset)`.
    pub fn add_call(p: &Param, offset: &i32) -> (r: Call)
        ensures
            r.ident@ == client1_add_id(),
            r.args@ == triple_bytes(p.a, p.b, *offset),
    {
        Call { ident: call_identifier("Client1Api1", "add"), args: encode_triple(p.a, p.b, *offset) }
    }

    /// The call `Client1Api2::minus(a, b)`.
    pub fn minus_call(a: &i32, b: &i32) -> (r: Call)
        ensures
            r.ident@ == client1_minus_id(),
            r.args@ == pair_bytes(*a, *b),
    {
        Call { ident: call_identifier("Client1Api2", "minus"), args: encode_pair(*a, *b) }
    }
}

/// Caller-side stub of the `client2` plugin.
pub struct Client2<H> {
    pub handle: H,
}

impl<H> Client2<H> {
    pub fn from_handle(handle: H) -> (r: Self)
        ensures
            r.handle == handle,
    {
        Client2 { handle }
    }

    /// The call `Client2Api::add(a, b)`.
    pub fn add_call(a: &i32, b: &i32) -> (r: Call)
        ensures
            r.ident@ == client2_add_id(),
            r.args@ == pair_bytes(*a, *b),
    {
        Call { ident: call_identifier("Client2Api", "add"), args: encode_pair(*a, *b) }
    }
}

/// Caller-side stub of the server.
pub struct Server<H> {
    pub handle: H,
}

impl<H> Server<H> {
    pub fn from_handle(handle: H) -> (r: Self)
        ensures
            r.handle == handle,
    {
        Server { handle }
    }

    /// The call `ServerApi::add()`.
    pub fn add_call() -> (r: Call)
        ensures
            r.ident@ == server_add_id(),
            r.args@.len() == 0,
    {
        Call { ident: call_identifier("ServerApi", "add"), args: encode_unit() }
    }
}

} // verus!
