//! The plugins' side: method bodies and the routing of each plugin's
//! dispatch entry point from identifier and argument bytes to result bytes.
use vstd::prelude::*;
use crate::api::{
    client1_add_id, client1_minus_id, client2_add_id, fit_i32, i32_outcome, i32_reply, reply_i32,
    server_add_id, Call, Client1, Client1Api1, Client1Api2, Client2Api, Param, Server, ServerApi,
};
use crate::codec::{
    decode_pair, decode_triple, decoded_pair, decoded_triple, encode_i32, le_i32,
    lemma_i32_decodes, lemma_pair_round_trip, lemma_triple_round_trip, pair_bytes, triple_bytes,
};
use crate::ident::{call_id, in_trait, lemma_call_id_in_trait, trait_prefix};
use crate::router::{CallError, Route, Router, TraitRoutes};

verus! {

/// A trait's routes from its name and its method names.
fn trait_routes(name: &str, methods: &[&str]) -> (r: TraitRoutes)
    ensures
        r.name@ == name@,
        r.method_names() == methods@.map_values(|m: &str| m@),
{
    let mut v: Vec<String> = Vec::new();
    let mut i: usize = 0;
    while i < methods.len()
        invariant
            i <= methods@.len(),
            v@.len() == i,
            forall|j: int| 0 <= j < i ==> (#[trigger] v@[j])@ == methods@[j]@,
        decreases methods@.len() - i,
    {
        v.push(String::from_str(methods[i]));
        i += 1;
    }
    proof {
        assert(v@.map_values(|m: String| m@) =~= methods@.map_values(|m: &str| m@));
    }
    TraitRoutes { name: String::from_str(name), methods: v }
}

/// The `client1` plugin: an offset that `add` adds to its arguments.
pub struct Client1Plugin {
    pub base: i32,
}

impl Client1Api1 for Client1Plugin {
    open spec fn add_spec(&self, p: Param, offset: i32) -> Option<i32> {
        fit_i32(self.base + p.a + p.b + offset)
    }

    fn add(&self, p: Param, offset: i32) -> (r: Option<i32>) {
        let s: i64 = self.base as i64 + p.a as i64 + p.b as i64 + offset as i64;
        if s < i32::MIN as i64 || s > i32::MAX as i64 {
            None
        } else {
            Some(s as i32)
        }
    }
}

impl Client1Api2 for Client1Plugin {
    open spec fn minus_spec(&self, a: i32, b: i32) -> Option<i32> {
        fit_i32(a - b)
    }

    fn minus(&self, a: i32, b: i32) -> (r: Option<i32>) {
        let s: i64 = a as i64 - b as i64;
        if s < i32::MIN as i64 || s > i32::MAX as i64 {
            None
        } else {
            Some(s as i32)
        }
    }
}

impl Client1Plugin {
    /// What dispatching `id` with argument bytes `args` gives.
    pub open spec fn dispatch_spec(&self, id: Seq<char>, args: Seq<u8>) -> Result<Seq<u8>, CallError> {
        if in_trait("Client1Api1"@, id) {
            if id == client1_add_id() {
                match decoded_triple(args) {
                    Some((a, b, offset)) => i32_outcome(self.add_spec(Param { a, b }, offset)),
                    None => Err(CallError::BadArguments),
                }
            } else {
                Err(CallError::UnknownMethod)
            }
        } else if in_trait("Client1Api2"@, id) {
            if id == client1_minus_id() {
                match decoded_pair(args) {
                    Some((a, b)) => i32_outcome(self.minus_spec(a, b)),
                    None => Err(CallError::BadArguments),
                }
            } else {
                Err(CallError::UnknownMethod)
            }
        } else {
            Err(CallError::UnknownTrait)
        }
    }

    /// The routing table: `Client1Api1` with `add`, `Client1Api2` with `minus`.
    pub fn router() -> (r: Router)
        ensures
            r.traits@.len() == 2,
            r.names() == seq!["Client1Api1"@, "Client1Api2"@],
            r.methods_of(0) == seq!["add"@],
            r.methods_of(1) == seq!["minus"@],
    {
        let t1 = trait_routes("Client1Api1", &["add"]);
        let t2 = trait_routes("Client1Api2", &["minus"]);
        let r = Router { traits: vec![t1, t2] };
        proof {
            assert(r.names() =~= seq!["Client1Api1"@, "Client1Api2"@]);
        }
        r
    }

    /// The dispatch entry point: routes `id`, decodes `args` into the
    /// method's parameters, runs the method and encodes its result.
    pub fn dispatch(&self, id: &str, args: &[u8]) -> (r: Result<Vec<u8>, CallError>)
        ensures
            match r {
                Ok(v) => self.dispatch_spec(id@, args@) == Ok::<Seq<u8>, CallError>(v@),
                Err(e) => self.dispatch_spec(id@, args@) == Err::<Seq<u8>, CallError>(e),
            },
    {
        let router = Client1Plugin::router();
        let route = router.route(id);
        match route {
            Ok(Route { trait_index: 0, method_index: 0 }) => {
                assert(id@ == client1_add_id());
                match decode_triple(args) {
                    Some((a, b, offset)) => match self.add(Param { a, b }, offset) {
                        Some(v) => Ok(encode_i32(v)),
                        None => Err(CallError::Overflow),
                    },
                    None => Err(CallError::BadArguments),
                }
            },
            Ok(Route { trait_index: 1, method_index: 0 }) => {
                assert(!in_trait(router.names()[0], id@));
                assert(id@ == client1_minus_id());
                match decode_pair(args) {
                    Some((a, b)) => match self.minus(a, b) {
                        Some(v) => Ok(encode_i32(v)),
                        None => Err(CallError::Overflow),
                    },
                    None => Err(CallError::BadArguments),
                }
            },
            Ok(_) => {
                proof {
                    assert(router.traits@.len() == 2);
                    assert(router.methods_of(0).len() == 1);
                    assert(router.methods_of(1).len() == 1);
                    assert(false);
                }
                Err(CallError::UnknownMethod)
            },
            Err(e) => {
                proof {
                    assert(router.names()[0] == "Client1Api1"@);
                    assert(router.names()[1] == "Client1Api2"@);
                    if e == CallError::UnknownMethod {
                        let i = choose|i: int| #[trigger] router.selects(id@, i) && forall|k: int|
                            0 <= k < router.methods_of(i).len() ==> call_id(
                                router.names()[i],
                                #[trigger] router.methods_of(i)[k],
                            ) != id@;
                        assert(router.methods_of(i)[0] == router.methods_of(i)[0]);
                        if i == 1 {
                            assert(!in_trait(router.names()[0], id@));
                        }
                    }
                }
                Err(e)
            },
        }
    }
}

/// The server, exposed by the host as a plugin built into its own binary.
pub struct ServerPlugin;

impl ServerApi for ServerPlugin {
    open spec fn add_spec(&self) -> i32 {
        10
    }

    fn add(&self) -> (r: i32) {
        10
    }
}

impl ServerPlugin {
    /// What dispatching `id` gives; the method takes no arguments, so any
    /// argument bytes decode to its empty parameter list.
    pub open spec fn dispatch_spec(&self, id: Seq<char>) -> Result<Seq<u8>, CallError> {
        if in_trait("ServerApi"@, id) {
            if id == server_add_id() {
                Ok(le_i32(self.add_spec()))
            } else {
                Err(CallError::UnknownMethod)
            }
        } else {
            Err(CallError::UnknownTrait)
        }
    }

    /// The routing table: `ServerApi` with `add`.
    pub fn router() -> (r: Router)
        ensures
            r.traits@.len() == 1,
            r.names() == seq!["ServerApi"@],
            r.methods_of(0) == seq!["add"@],
    {
        let r = Router { traits: vec![trait_routes("ServerApi", &["add"])] };
        proof {
            assert(r.names() =~= seq!["ServerApi"@]);
        }
        r
    }

    /// The dispatch entry point.
    pub fn dispatch(&self, id: &str, args: &[u8]) -> (r: Result<Vec<u8>, CallError>)
        ensures
            match r {
                Ok(v) => self.dispatch_spec(id@) == Ok::<Seq<u8>, CallError>(v@),
                Err(e) => self.dispatch_spec(id@) == Err::<Seq<u8>, CallError>(e),
            },
    {
        let router = ServerPlugin::router();
        match router.route(id) {
            Ok(route) => {
                proof {
                    assert(router.selects(id@, 0));
                    assert(id@ == server_add_id());
                }
                Ok(encode_i32(self.add()))
            },
            Err(e) => {
                proof {
                    assert(router.names()[0] == "ServerApi"@);
                    if e == CallError::UnknownMethod {
                        let i = choose|i: int| #[trigger] router.selects(id@, i) && forall|k: int|
                            0 <= k < router.methods_of(i).len() ==> call_id(
                                router.names()[i],
                                #[trigger] router.methods_of(i)[k],
                            ) != id@;
                        assert(router.methods_of(i)[0] == router.methods_of(i)[0]);
                    }
                }
                Err(e)
            },
        }
    }
}

/// Where a session of `Client2Api::add` stands: which nested call it waits on.
#[derive(Debug, Clone, Copy, PartialEq, Eq, Structural)]
pub enum AddStage {
    /// Waits on `Client1Api1::add({a: 7, b: 8}, 9)` of `client1`.
    Client1Add,
    /// Waits on `ServerApi::add()` of `server`.
    ServerAdd,
    /// Waits on `Client1Api2::minus(100, 50)` of `client1`.
    Client1Minus,
}

/// A session of `Client2Api::add(a, b)`: it makes three nested calls, one
/// after another, and returns `a + b` plus their three results.
#[derive(Debug, Clone, Copy, PartialEq, Eq, Structural)]
pub struct AddSession {
    pub a: i32,
    pub b: i32,
    pub stage: AddStage,
    /// The result of `client1`'s `add`, once known.
    pub t: i32,
    /// The result of the server's `add`, once known.
    pub m: i32,
}

/// A nested call that a session asks for: the plugin id and the call.
pub struct Outbound {
    pub target: String,
    pub call: Call,
}

/// What a session does after a nested call returned.
pub enum Progress {
    /// It asks for its next nested call.
    Next(AddSession),
    /// It is done; these are the encoded result.
    Done(Vec<u8>),
}

/// The id under which the host registers the server.
pub open spec fn server_id() -> Seq<char> {
    "server"@
}

/// The id under which the host registers `client1`.
pub open spec fn client1_id() -> Seq<char> {
    "client1"@
}

impl AddSession {
    /// The session at its start.
    pub open spec fn started(a: i32, b: i32) -> AddSession {
        AddSession { a, b, stage: AddStage::Client1Add, t: 0, m: 0 }
    }

    /// The nested call that the session waits on: the target plugin's id,
    /// the identifier and the argument bytes.
    pub open spec fn pending(&self) -> (Seq<char>, Seq<char>, Seq<u8>) {
        match self.stage {
            AddStage::Client1Add => (client1_id(), client1_add_id(), triple_bytes(7, 8, 9)),
            AddStage::ServerAdd => (server_id(), server_add_id(), Seq::empty()),
            AddStage::Client1Minus => (client1_id(), client1_minus_id(), pair_bytes(100, 50)),
        }
    }

    /// The nested call that the session waits on.
    pub fn next_call(&self) -> (r: Outbound)
        ensures
            (r.target@, r.call.ident@, r.call.args@) == self.pending(),
    {
        match self.stage {
            AddStage::Client1Add => Outbound {
                target: String::from_str("client1"),
                call: Client1::<()>::add_call(&Param { a: 7, b: 8 }, &9),
            },
            AddStage::ServerAdd => {
                let call = Server::<()>::add_call();
                assert(call.args@ =~= Seq::<u8>::empty());
                Outbound { target: String::from_str("server"), call }
            },
            AddStage::Client1Minus => Outbound {
                target: String::from_str("client1"),
                call: Client1::<()>::minus_call(&100, &50),
            },
        }
    }

    /// Takes the result bytes of the pending nested call and moves on: to
    /// the next nested call, or, after the last, to the encoded sum.
    pub fn resume(&self, reply: &[u8]) -> (r: Result<Progress, CallError>)
        ensures
            match i32_reply(reply@) {
                Err(e) => r == Err::<Progress, CallError>(e),
                Ok(x) => match self.stage {
                    AddStage::Client1Add => r matches Ok(Progress::Next(s)) && s == (
                    AddSession { stage: AddStage::ServerAdd, t: x, ..*self }),
                    AddStage::ServerAdd => r matches Ok(Progress::Next(s)) && s == (
                    AddSession { stage: AddStage::Client1Minus, m: x, ..*self }),
                    AddStage::Client1Minus => match i32_outcome(
                        fit_i32(self.a + self.b + self.t + self.m + x),
                    ) {
                        Ok(v) => r matches Ok(Progress::Done(d)) && d@ == v,
                        Err(e) => r == Err::<Progress, CallError>(e),
                    },
                },
            },
    {
        let x = match reply_i32(reply) {
            Ok(x) => x,
            Err(e) => return Err(e),
        };
        match self.stage {
            AddStage::Client1Add => Ok(
                Progress::Next(AddSession { stage: AddStage::ServerAdd, t: x, ..*self }),
            ),
            AddStage::ServerAdd => Ok(
                Progress::Next(AddSession { stage: AddStage::Client1Minus, m: x, ..*self }),
            ),
            AddStage::Client1Minus => {
                let s: i64 = self.a as i64 + self.b as i64 + self.t as i64 + self.m as i64 + x as i64;
                if s < i32::MIN as i64 || s > i32::MAX as i64 {
                    Err(CallError::Overflow)
                } else {
                    Ok(Progress::Done(encode_i32(s as i32)))
                }
            },
        }
    }
}

/// The `client2` plugin, whose `add` calls `client1` and the server.
pub struct Client2Plugin;

impl Client2Api for Client2Plugin {
    open spec fn add_spec(&self, a: i32, b: i32) -> AddSession {
        AddSession::started(a, b)
    }

    fn add(&self, a: i32, b: i32) -> (r: AddSession) {
        AddSession { a, b, stage: AddStage::Client1Add, t: 0, m: 0 }
    }
}

impl Client2Plugin {
    /// What beginning a call of `id` with argument bytes `args` gives.
    pub open spec fn start_spec(&self, id: Seq<char>, args: Seq<u8>) -> Result<AddSession, CallError> {
        if in_trait("Client2Api"@, id) {
            if id == client2_add_id() {
                match decoded_pair(args) {
                    Some((a, b)) => Ok(self.add_spec(a, b)),
                    None => Err(CallError::BadArguments),
                }
            } else {
                Err(CallError::UnknownMethod)
            }
        } else {
            Err(CallError::UnknownTrait)
        }
    }

    /// The routing table: `Client2Api` with `add`.
    pub fn router() -> (r: Router)
        ensures
            r.traits@.len() == 1,
            r.names() == seq!["Client2Api"@],
            r.methods_of(0) == seq!["add"@],
    {
        let r = Router { traits: vec![trait_routes("Client2Api", &["add"])] };
        proof {
            assert(r.names() =~= seq!["Client2Api"@]);
        }
        r
    }

    /// The dispatch entry point: routes `id` and decodes `args`, and begins
    /// the session of the method, which its caller then drives.
    pub fn start(&self, id: &str, args: &[u8]) -> (r: Result<AddSession, CallError>)
        ensures
            r == self.start_spec(id@, args@),
    {
        let router = Client2Plugin::router();
        match router.route(id) {
            Ok(route) => {
                proof {
                    assert(router.selects(id@, 0));
                    assert(id@ == client2_add_id());
                }
                match decode_pair(args) {
                    Some((a, b)) => Ok(self.add(a, b)),
                    None => Err(CallError::BadArguments),
                }
            },
            Err(e) => {
                proof {
                    assert(router.names()[0] == "Client2Api"@);
                    if e == CallError::UnknownMethod {
                        let i = choose|i: int| #[trigger] router.selects(id@, i) && forall|k: int|
                            0 <= k < router.methods_of(i).len() ==> call_id(
                                router.names()[i],
                                #[trigger] router.methods_of(i)[k],
                            ) != id@;
                        assert(router.methods_of(i)[0] == router.methods_of(i)[0]);
                    }
                }
                Err(e)
            },
        }
    }
}

/// `Client1Api2::minus` does not fall under `Client1Api1`.
proof fn lemma_minus_not_in_first_trait()
    ensures
        !in_trait("Client1Api1"@, client1_minus_id()),
{
    reveal_strlit("Client1Api1");
    reveal_strlit("Client1Api2");
    let p = trait_prefix("Client1Api1"@);
    let id = client1_minus_id();
    assert(id[10] == '2');
    assert(p[10] == '1');
    if in_trait("Client1Api1"@, id) {
        assert(id.subrange(0, p.len() as int)[10] == p[10]);
    }
}

/// A call of `Client1Api1::add` reaches the method with exactly the
/// arguments that the caller encoded, and its result comes back encoded.
pub proof fn lemma_client1_add_receives_args(c: Client1Plugin, p: Param, offset: i32)
    ensures
        c.dispatch_spec(client1_add_id(), triple_bytes(p.a, p.b, offset)) == i32_outcome(
            c.add_spec(p, offset),
        ),
{
    lemma_call_id_in_trait("Client1Api1"@, "add"@);
    lemma_triple_round_trip(p.a, p.b, offset);
}

/// A call of `Client1Api2::minus` reaches the method with exactly the
/// arguments that the caller encoded.
pub proof fn lemma_client1_minus_receives_args(c: Client1Plugin, a: i32, b: i32)
    ensures
        c.dispatch_spec(client1_minus_id(), pair_bytes(a, b)) == i32_outcome(c.minus_spec(a, b)),
{
    lemma_minus_not_in_first_trait();
    lemma_call_id_in_trait("Client1Api2"@, "minus"@);
    lemma_pair_round_trip(a, b);
}

/// A call of `Client2Api::add` begins its session with exactly the
/// arguments that the caller encoded.
pub proof fn lemma_client2_add_receives_args(c: Client2Plugin, a: i32, b: i32)
    ensures
        c.start_spec(client2_add_id(), pair_bytes(a, b)) == Ok::<AddSession, CallError>(
            c.add_spec(a, b),
        ),
{
    lemma_call_id_in_trait("Client2Api"@, "add"@);
    lemma_pair_round_trip(a, b);
}

/// Where the server and `client1` answer the nested calls of a session of
/// `Client2Api::add(a, b)`, each reply decodes to what their methods
/// returned, and the session (see `AddSession::resume`) ends with
/// `a + b + (base + 7 + 8 + 9) + 10 + (100 - 50)`, encoded.
pub proof fn lemma_client2_add_chain(c1: Client1Plugin, server: ServerPlugin, a: i32, b: i32)
    requires
        i32::MIN <= c1.base + 24 <= i32::MAX,
        i32::MIN <= a + b + (c1.base + 24) + 10 + 50 <= i32::MAX,
    ensures
        ({
            let s0 = AddSession::started(a, b);
            let r1 = c1.dispatch_spec(s0.pending().1, s0.pending().2);
            let s1 = AddSession { stage: AddStage::ServerAdd, t: (c1.base + 24) as i32, ..s0 };
            let r2 = server.dispatch_spec(s1.pending().1);
            let s2 = AddSession { stage: AddStage::Client1Minus, m: 10, ..s1 };
            let r3 = c1.dispatch_spec(s2.pending().1, s2.pending().2);
            &&& s0.pending().0 == client1_id() && s1.pending().0 == server_id() && s2.pending().0
                == client1_id()
            &&& r1 == Ok::<Seq<u8>, CallError>(le_i32((c1.base + 24) as i32))
            &&& r2 == Ok::<Seq<u8>, CallError>(le_i32(10))
            &&& r3 == Ok::<Seq<u8>, CallError>(le_i32(50))
            &&& i32_reply(r1->Ok_0) == Ok::<i32, CallError>((c1.base + 24) as i32)
            &&& i32_reply(r2->Ok_0) == Ok::<i32, CallError>(10)
            &&& i32_reply(r3->Ok_0) == Ok::<i32, CallError>(50)
            &&& i32_outcome(fit_i32(s2.a + s2.b + s2.t + s2.m + 50)) == Ok::<Seq<u8>, CallError>(
                le_i32((a + b + (c1.base + 24) + 10 + 50) as i32),
            )
        }),
{
    lemma_client1_add_receives_args(c1, Param { a: 7, b: 8 }, 9);
    lemma_client1_minus_receives_args(c1, 100, 50);
    lemma_call_id_in_trait("ServerApi"@, "add"@);
    lemma_i32_decodes((c1.base + 24) as i32);
    lemma_i32_decodes(10);
    lemma_i32_decodes(50);
}

} // verus!
