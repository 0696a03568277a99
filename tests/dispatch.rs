use ffi_rpc::api::{reply_i32, Client1, Client2, Param, Server};
use ffi_rpc::ident::{call_identifier, has_trait_prefix, matches_at, same_text};
use ffi_rpc::plugins::{AddStage, Client1Plugin, Client2Plugin, Progress, ServerPlugin};
use ffi_rpc::registry::Registry;
use ffi_rpc::router::{CallError, Route, Router, TraitRoutes};

#[derive(Clone, Copy, Debug, PartialEq)]
enum Local {
    Client1,
    Server,
}

fn run_client2_add(reg: &Registry<Local>, c1: &Client1Plugin, a: i32, b: i32) -> Result<i32, CallError> {
    let call = Client2::<()>::add_call(&a, &b);
    let mut session = Client2Plugin.start(&call.ident, &call.args)?;
    loop {
        let out = session.next_call();
        let reply = match reg.get(&out.target).expect("plugin is registered") {
            Local::Client1 => c1.dispatch(&out.call.ident, &out.call.args)?,
            Local::Server => ServerPlugin.dispatch(&out.call.ident, &out.call.args)?,
        };
        match session.resume(&reply)? {
            Progress::Next(next) => session = next,
            Progress::Done(bytes) => return reply_i32(&bytes),
        }
    }
}

#[test]
fn identifier_joins_trait_and_method() {
    assert_eq!(call_identifier("Client1Api1", "add"), "Client1Api1::add");
    assert_eq!(call_identifier("", ""), "::");
}

#[test]
fn trait_prefix_needs_the_separator() {
    assert!(has_trait_prefix("Client1Api1::add", "Client1Api1"));
    assert!(!has_trait_prefix("Client1Api10::add", "Client1Api1"));
    assert!(!has_trait_prefix("Client1Api1:", "Client1Api1"));
    assert!(!has_trait_prefix("Client1Api1", "Client1Api1"));
    assert!(has_trait_prefix("::x", ""));
}

#[test]
fn text_comparisons() {
    assert!(same_text("server", "server"));
    assert!(!same_text("server", "serve"));
    assert!(!same_text("server", "sErver"));
    assert!(matches_at("ab::cd", 4, "cd"));
    assert!(!matches_at("ab::cd", 4, "cde"));
}

#[test]
fn route_picks_trait_then_method() {
    let r = Client1Plugin::router();
    assert_eq!(r.route("Client1Api1::add"), Ok(Route { trait_index: 0, method_index: 0 }));
    assert_eq!(r.route("Client1Api2::minus"), Ok(Route { trait_index: 1, method_index: 0 }));
    assert_eq!(r.route("Client1Api1::minus"), Err(CallError::UnknownMethod));
    assert_eq!(r.route("Client1Api1::addx"), Err(CallError::UnknownMethod));
    assert_eq!(r.route("Nope::add"), Err(CallError::UnknownTrait));
    assert_eq!(r.route(""), Err(CallError::UnknownTrait));
}

#[test]
fn route_takes_the_first_matching_trait() {
    let t = |name: &str, methods: &[&str]| TraitRoutes {
        name: name.to_string(),
        methods: methods.iter().map(|m| m.to_string()).collect(),
    };
    let r = Router { traits: vec![t("A", &["x"]), t("A", &["y"])] };
    assert_eq!(r.route("A::x"), Ok(Route { trait_index: 0, method_index: 0 }));
    assert_eq!(r.route("A::y"), Err(CallError::UnknownMethod));
}

#[test]
fn plugin_trait_names_are_prefix_free() {
    assert!(Client1Plugin::router().is_prefix_free());
    assert!(ServerPlugin::router().is_prefix_free());
    assert!(Client2Plugin::router().is_prefix_free());
    let t = |name: &str| TraitRoutes { name: name.to_string(), methods: vec![] };
    assert!(!Router { traits: vec![t("Api"), t("Api2")] }.is_prefix_free());
    assert!(!Router { traits: vec![t("Api2"), t("Api")] }.is_prefix_free());
    assert!(Router { traits: vec![t("Api1"), t("Api2")] }.is_prefix_free());
    assert!(Router { traits: vec![t("Api"), t("Api")] }.is_prefix_free());
}

#[test]
fn registry_absent_id_is_none() {
    let mut r: Registry<u32> = Registry::new();
    assert_eq!(r.get("client1"), None);
    r.insert("server", 1);
    assert_eq!(r.get("client1"), None);
    assert_eq!(r.get("serve"), None);
    let d: Registry<u32> = Registry::default();
    assert_eq!(d.get(""), None);
}

#[test]
fn registry_reinsert_replaces() {
    let mut r: Registry<u32> = Registry::new();
    r.insert("server", 1);
    assert_eq!(r.get("server"), Some(1));
    r.insert("client1", 2);
    r.insert("server", 3);
    assert_eq!(r.get("server"), Some(3));
    assert_eq!(r.get("client1"), Some(2));
}

#[test]
fn wire_form_is_little_endian_fixed_width() {
    let c = Client1::<()>::add_call(&Param { a: 2, b: 3 }, &4);
    assert_eq!(c.ident, "Client1Api1::add");
    assert_eq!(c.args, vec![2, 0, 0, 0, 3, 0, 0, 0, 4, 0, 0, 0]);
    let m = Client1::<()>::minus_call(&-1, &256);
    assert_eq!(m.ident, "Client1Api2::minus");
    assert_eq!(m.args, vec![255, 255, 255, 255, 0, 1, 0, 0]);
    let s = Server::<()>::add_call();
    assert_eq!(s.ident, "ServerApi::add");
    assert!(s.args.is_empty());
    let c2 = Client2::<()>::add_call(&1, &2);
    assert_eq!(c2.ident, "Client2Api::add");
    assert_eq!(c2.args, vec![1, 0, 0, 0, 2, 0, 0, 0]);
}

#[test]
fn reply_decoding() {
    assert_eq!(reply_i32(&[10, 0, 0, 0]), Ok(10));
    assert_eq!(reply_i32(&[0xfe, 0xff, 0xff, 0xff, 9]), Ok(-2));
    assert_eq!(reply_i32(&[1, 2]), Err(CallError::BadReply));
}

#[test]
fn dispatch_hands_arguments_through_unchanged() {
    let c1 = Client1Plugin { base: 0 };
    for (a, b) in [(100, 50), (-7, 3), (i32::MIN, -1), (0, 0)] {
        let call = Client1::<()>::minus_call(&a, &b);
        let out = c1.dispatch(&call.ident, &call.args).unwrap();
        assert_eq!(reply_i32(&out), Ok(a - b));
    }
}

#[test]
fn scenario_client1_add_through_mock_server_registry() {
    let mut reg: Registry<Local> = Registry::new();
    reg.insert("server", Local::Server);
    reg.insert("client1", Local::Client1);
    let c1 = Client1Plugin { base: 1 };
    let call = Client1::<()>::add_call(&Param { a: 2, b: 3 }, &4);
    assert_eq!(reg.get("client1"), Some(Local::Client1));
    let out = c1.dispatch(&call.ident, &call.args).unwrap();
    assert_eq!(reply_i32(&out), Ok(10));
    let server = reg.get("server").unwrap();
    assert_eq!(server, Local::Server);
    let s = Server::<()>::add_call();
    assert_eq!(reply_i32(&ServerPlugin.dispatch(&s.ident, &s.args).unwrap()), Ok(10));
}

#[test]
fn scenario_client2_add_calls_other_plugins() {
    let mut reg: Registry<Local> = Registry::new();
    reg.insert("server", Local::Server);
    reg.insert("client1", Local::Client1);
    let c1 = Client1Plugin { base: 1 };
    // 1 + 2 + (1 + 7 + 8 + 9) + 10 + (100 - 50)
    assert_eq!(run_client2_add(&reg, &c1, 1, 2), Ok(88));
}

#[test]
fn client2_session_steps() {
    let call = Client2::<()>::add_call(&1, &2);
    let s = Client2Plugin.start(&call.ident, &call.args).unwrap();
    assert_eq!(s.stage, AddStage::Client1Add);
    let out = s.next_call();
    assert_eq!(out.target, "client1");
    assert_eq!(out.call.ident, "Client1Api1::add");
    assert_eq!(out.call.args, vec![7, 0, 0, 0, 8, 0, 0, 0, 9, 0, 0, 0]);
    let s = match s.resume(&[25, 0, 0, 0]).unwrap() {
        Progress::Next(n) => n,
        Progress::Done(_) => panic!("session ended early"),
    };
    assert_eq!((s.stage, s.t), (AddStage::ServerAdd, 25));
    assert_eq!(s.next_call().target, "server");
    assert_eq!(s.resume(&[1]).err(), Some(CallError::BadReply));
}

#[test]
fn unknown_identifier_is_an_error_not_a_value() {
    let c1 = Client1Plugin { base: 1 };
    assert_eq!(c1.dispatch("Nope::add", &[]), Err(CallError::UnknownTrait));
    assert_eq!(c1.dispatch("Client1Api1::sub", &[]), Err(CallError::UnknownMethod));
    assert_eq!(ServerPlugin.dispatch("ServerApi::sub", &[]), Err(CallError::UnknownMethod));
    assert_eq!(ServerPlugin.dispatch("Client1Api1::add", &[]), Err(CallError::UnknownTrait));
    assert_eq!(Client2Plugin.start("Server::add", &[]).err(), Some(CallError::UnknownTrait));
}

#[test]
fn short_arguments_are_rejected() {
    let c1 = Client1Plugin { base: 1 };
    assert_eq!(c1.dispatch("Client1Api1::add", &[1, 0, 0, 0, 2, 0, 0, 0]), Err(CallError::BadArguments));
    assert_eq!(c1.dispatch("Client1Api2::minus", &[1, 0, 0]), Err(CallError::BadArguments));
    assert_eq!(Client2Plugin.start("Client2Api::add", &[]).err(), Some(CallError::BadArguments));
}

#[test]
fn overflowing_results_are_rejected() {
    let c1 = Client1Plugin { base: i32::MAX };
    let call = Client1::<()>::add_call(&Param { a: 1, b: 0 }, &0);
    assert_eq!(c1.dispatch(&call.ident, &call.args), Err(CallError::Overflow));
    let call = Client1::<()>::add_call(&Param { a: -1, b: 0 }, &0);
    assert_eq!(reply_i32(&c1.dispatch(&call.ident, &call.args).unwrap()), Ok(i32::MAX - 1));
    let call = Client1::<()>::minus_call(&i32::MIN, &1);
    assert_eq!(c1.dispatch(&call.ident, &call.args), Err(CallError::Overflow));
    let big = Client1Plugin { base: i32::MAX - 24 };
    let mut reg: Registry<Local> = Registry::new();
    reg.insert("server", Local::Server);
    reg.insert("client1", Local::Client1);
    assert_eq!(run_client2_add(&reg, &big, 1, 2), Err(CallError::Overflow));
}
