use chain_rpc::methods::MethodCall;
use chain_rpc::methods::Response;
use chain_rpc::methods::RpcError;
use chain_rpc::methods::SubscriptionKind;
use chain_rpc::server::Event;
use chain_rpc::server::FrameOutcome;
use chain_rpc::server::Reply;
use chain_rpc::server::ServerState;
use chain_rpc::snapshot::Snapshot;

fn empty_snapshot() -> Snapshot {
    Snapshot {
        pairs: Vec::new(),
        name: "polkadot".to_string(),
        chain_type: "Live".to_string(),
        properties: "{\"tokenSymbol\":\"DOT\"}".to_string(),
    }
}

fn new_server() -> ServerState {
    ServerState::new(
        empty_snapshot(),
        vec![0xAB; 32],
        vec![1, 2, 3],
        &b"00ff".to_vec(),
    )
    .expect("metadata hex is well-formed")
}

fn open(server: &mut ServerState, conn: u64) {
    let reply = server.handle_event(Event::ConnectionOpen { conn });
    assert!(reply.is_none());
}

fn call(server: &mut ServerState, conn: u64, request_id: &str, call: MethodCall) -> Reply {
    server
        .handle_event(Event::Frame {
            conn,
            frame: FrameOutcome::Call { request_id: request_id.to_string(), call },
        })
        .expect("a decoded call always gets a reply")
}

fn subscription_id(reply: Reply, want: SubscriptionKind) -> String {
    match reply.result {
        Ok(Response::Subscription(kind, id)) => {
            assert_eq!(kind, want);
            id
        }
        _ => panic!("expected a subscription response"),
    }
}

#[test]
fn subscribe_twice_then_close_retires_both() {
    let mut server = new_server();
    open(&mut server, 1);
    let r1 = call(&mut server, 1, "1", MethodCall::ChainSubscribeNewHeads);
    assert_eq!(r1.conn, 1);
    assert_eq!(r1.request_id, "1");
    let id1 = subscription_id(r1, SubscriptionKind::NewHeads);
    assert_eq!(id1, "0");
    let r2 = call(&mut server, 1, "2", MethodCall::ChainSubscribeNewHeads);
    let id2 = subscription_id(r2, SubscriptionKind::NewHeads);
    assert_eq!(id2, "1");
    assert_eq!(server.registry.owner_of(SubscriptionKind::NewHeads, 0), Some(1));
    assert_eq!(server.registry.owner_of(SubscriptionKind::NewHeads, 1), Some(1));
    let closed = server.handle_event(Event::ConnectionClosed { conn: 1 });
    assert!(closed.is_none());
    assert_eq!(server.registry.owner_of(SubscriptionKind::NewHeads, 0), None);
    assert_eq!(server.registry.owner_of(SubscriptionKind::NewHeads, 1), None);
}

#[test]
fn subscription_ids_distinct_and_increasing() {
    let mut server = new_server();
    open(&mut server, 1);
    open(&mut server, 2);
    let calls = vec![
        (1, MethodCall::ChainSubscribeAllHeads, SubscriptionKind::AllHeads),
        (2, MethodCall::ChainSubscribeNewHeads, SubscriptionKind::NewHeads),
        (1, MethodCall::ChainSubscribeFinalizedHeads, SubscriptionKind::FinalizedHeads),
        (2, MethodCall::StateSubscribeRuntimeVersion, SubscriptionKind::RuntimeVersion),
        (1, MethodCall::StateSubscribeStorage { list: Vec::new() }, SubscriptionKind::Storage),
    ];
    let mut ids = Vec::new();
    for (conn, c, kind) in calls {
        let reply = call(&mut server, conn, "7", c);
        ids.push(subscription_id(reply, kind));
    }
    assert_eq!(ids, vec!["0", "1", "2", "3", "4"]);
    for i in 0..ids.len() {
        for j in (i + 1)..ids.len() {
            assert_ne!(ids[i], ids[j]);
        }
    }
}

#[test]
fn subscription_ids_reach_two_digits() {
    let mut server = new_server();
    open(&mut server, 1);
    let mut last = String::new();
    for n in 0..11u64 {
        let reply = call(&mut server, 1, "1", MethodCall::ChainSubscribeAllHeads);
        last = subscription_id(reply, SubscriptionKind::AllHeads);
        assert_eq!(last, n.to_string());
    }
    assert_eq!(last, "10");
}

#[test]
fn close_leaves_other_connections_alone() {
    let mut server = new_server();
    open(&mut server, 1);
    open(&mut server, 2);
    let r1 = call(&mut server, 1, "1", MethodCall::ChainSubscribeAllHeads);
    let id1 = subscription_id(r1, SubscriptionKind::AllHeads);
    let r2 = call(&mut server, 2, "1", MethodCall::ChainSubscribeAllHeads);
    let id2 = subscription_id(r2, SubscriptionKind::AllHeads);
    assert_eq!((id1.as_str(), id2.as_str()), ("0", "1"));
    server.handle_event(Event::ConnectionClosed { conn: 1 });
    assert_eq!(server.registry.owner_of(SubscriptionKind::AllHeads, 0), None);
    assert_eq!(server.registry.owner_of(SubscriptionKind::AllHeads, 1), Some(2));
}

#[test]
fn unknown_method_gets_error_reply() {
    let mut server = new_server();
    open(&mut server, 3);
    let reply = server
        .handle_event(Event::Frame {
            conn: 3,
            frame: FrameOutcome::UnknownMethod { request_id: "9".to_string() },
        })
        .expect("unknown methods are answered");
    assert_eq!(reply.conn, 3);
    assert_eq!(reply.request_id, "9");
    assert_eq!(reply.result.unwrap_err(), RpcError::MethodNotFound);
}

#[test]
fn malformed_frame_with_id_gets_error_reply() {
    let mut server = new_server();
    open(&mut server, 3);
    let reply = server
        .handle_event(Event::Frame {
            conn: 3,
            frame: FrameOutcome::Malformed { request_id: Some("4".to_string()) },
        })
        .expect("a recoverable request id is answered");
    assert_eq!(reply.request_id, "4");
    assert_eq!(reply.result.unwrap_err(), RpcError::MalformedRequest);
}

#[test]
fn malformed_frame_without_id_is_dropped() {
    let mut server = new_server();
    open(&mut server, 3);
    let reply = server.handle_event(Event::Frame {
        conn: 3,
        frame: FrameOutcome::Malformed { request_id: None },
    });
    assert!(reply.is_none());
}

#[test]
fn block_hash_height_zero_deterministic() {
    let mut server = new_server();
    open(&mut server, 1);
    let first = call(&mut server, 1, "1", MethodCall::ChainGetBlockHash { height: 0 });
    let second = call(&mut server, 1, "2", MethodCall::ChainGetBlockHash { height: 0 });
    let h1 = match first.result {
        Ok(Response::BlockHash(h)) => h,
        _ => panic!("expected a block hash"),
    };
    let h2 = match second.result {
        Ok(Response::BlockHash(h)) => h,
        _ => panic!("expected a block hash"),
    };
    assert_eq!(h1, vec![0xAB; 32]);
    assert_eq!(h1, h2);
}

#[test]
fn block_hash_nonzero_height_invalid() {
    let mut server = new_server();
    open(&mut server, 1);
    let reply = call(&mut server, 1, "1", MethodCall::ChainGetBlockHash { height: 5 });
    assert_eq!(reply.result.unwrap_err(), RpcError::InvalidParams);
}

#[test]
fn header_is_the_genesis_encoding() {
    let mut server = new_server();
    open(&mut server, 1);
    let reply = call(&mut server, 1, "1", MethodCall::ChainGetHeader { hash: None });
    match reply.result {
        Ok(Response::Header(h)) => assert_eq!(h, vec![1, 2, 3]),
        _ => panic!("expected a header"),
    }
}

#[test]
fn rpc_methods_lists_the_whole_surface() {
    let mut server = new_server();
    open(&mut server, 1);
    let reply = call(&mut server, 1, "1", MethodCall::RpcMethods);
    match reply.result {
        Ok(Response::RpcMethods { version, methods }) => {
            assert_eq!(version, 1);
            assert_eq!(
                methods,
                vec![
                    "chain_getBlockHash",
                    "chain_getHeader",
                    "chain_subscribeAllHeads",
                    "chain_subscribeNewHeads",
                    "chain_subscribeFinalizedHeads",
                    "rpc_methods",
                    "state_queryStorageAt",
                    "state_getKeysPaged",
                    "state_getMetadata",
                    "state_subscribeRuntimeVersion",
                    "state_subscribeStorage",
                    "state_getRuntimeVersion",
                    "system_chain",
                    "system_chainType",
                    "system_health",
                    "system_name",
                    "system_properties",
                    "system_version",
                ]
            );
        }
        _ => panic!("expected the method list"),
    }
}

#[test]
fn metadata_is_decoded_from_hex() {
    let mut server = ServerState::new(
        empty_snapshot(),
        vec![0xAB; 32],
        vec![1, 2, 3],
        &b"00ff10Cd".to_vec(),
    )
    .expect("metadata hex is well-formed");
    open(&mut server, 1);
    let reply = call(&mut server, 1, "1", MethodCall::StateGetMetadata);
    match reply.result {
        Ok(Response::Metadata(m)) => assert_eq!(m, vec![0x00, 0xFF, 0x10, 0xCD]),
        _ => panic!("expected the metadata blob"),
    }
}

#[test]
fn bad_metadata_hex_is_rejected() {
    assert!(ServerState::new(empty_snapshot(), Vec::new(), Vec::new(), &b"0g".to_vec()).is_none());
    assert!(ServerState::new(empty_snapshot(), Vec::new(), Vec::new(), &b"abc".to_vec()).is_none());
    assert!(ServerState::new(empty_snapshot(), Vec::new(), Vec::new(), &b"".to_vec()).is_some());
}

#[test]
fn system_answers_come_from_the_snapshot() {
    let mut server = new_server();
    open(&mut server, 1);
    match call(&mut server, 1, "1", MethodCall::SystemChain).result {
        Ok(Response::SystemChain(s)) => assert_eq!(s, "polkadot"),
        _ => panic!("expected the chain name"),
    }
    match call(&mut server, 1, "2", MethodCall::SystemChainType).result {
        Ok(Response::SystemChainType(s)) => assert_eq!(s, "Live"),
        _ => panic!("expected the chain type"),
    }
    match call(&mut server, 1, "3", MethodCall::SystemProperties).result {
        Ok(Response::SystemProperties(s)) => assert_eq!(s, "{\"tokenSymbol\":\"DOT\"}"),
        _ => panic!("expected the properties"),
    }
    match call(&mut server, 1, "4", MethodCall::SystemName).result {
        Ok(Response::SystemName(s)) => assert_eq!(s, "substrate-lite!"),
        _ => panic!("expected the server name"),
    }
    match call(&mut server, 1, "5", MethodCall::SystemVersion).result {
        Ok(Response::SystemVersion(s)) => assert_eq!(s, "1.0.0"),
        _ => panic!("expected the version"),
    }
    match call(&mut server, 1, "6", MethodCall::SystemHealth).result {
        Ok(Response::SystemHealth(h)) => {
            assert!(h.is_syncing);
            assert_eq!(h.peers, 1);
            assert!(h.should_have_peers);
        }
        _ => panic!("expected the health record"),
    }
}

#[test]
fn runtime_version_is_the_fixed_record() {
    let mut server = new_server();
    open(&mut server, 1);
    match call(&mut server, 1, "1", MethodCall::StateGetRuntimeVersion).result {
        Ok(Response::RuntimeVersion(v)) => {
            assert_eq!(v.spec_name, "polkadot");
            assert_eq!(v.impl_name, "substrate-lite");
            assert_eq!(v.authoring_version, 0);
            assert_eq!(v.spec_version, 18);
            assert_eq!(v.impl_version, 0);
            assert_eq!(v.transaction_version, 4);
        }
        _ => panic!("expected the runtime version"),
    }
}
