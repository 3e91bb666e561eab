use chain_rpc::methods::MethodCall;
use chain_rpc::methods::Response;
use chain_rpc::methods::RpcError;
use chain_rpc::server::Event;
use chain_rpc::server::FrameOutcome;
use chain_rpc::server::Reply;
use chain_rpc::server::ServerState;
use chain_rpc::snapshot::Snapshot;

fn snapshot_with(pairs: Vec<(Vec<u8>, Vec<u8>)>) -> Snapshot {
    Snapshot {
        pairs,
        name: "polkadot".to_string(),
        chain_type: "Live".to_string(),
        properties: "{}".to_string(),
    }
}

fn server_with(pairs: Vec<(Vec<u8>, Vec<u8>)>) -> ServerState {
    let mut server = ServerState::new(snapshot_with(pairs), vec![0x11; 32], Vec::new(), &Vec::new())
        .expect("empty metadata hex is well-formed");
    let opened = server.handle_event(Event::ConnectionOpen { conn: 1 });
    assert!(opened.is_none());
    server
}

fn call(server: &mut ServerState, c: MethodCall) -> Reply {
    server
        .handle_event(Event::Frame {
            conn: 1,
            frame: FrameOutcome::Call { request_id: "1".to_string(), call: c },
        })
        .expect("a decoded call always gets a reply")
}

fn page(reply: Reply) -> Vec<Vec<u8>> {
    match reply.result {
        Ok(Response::KeysPaged(keys)) => keys,
        _ => panic!("expected a key page"),
    }
}

#[test]
fn keys_paged_prefix_scenario() {
    let mut server = server_with(vec![
        (vec![0x01], vec![0xAA]),
        (vec![0x01, 0x05], vec![0xBB]),
        (vec![0x02], vec![0xCC]),
    ]);
    let reply = call(
        &mut server,
        MethodCall::StateGetKeysPaged {
            prefix: Some(vec![0x01]),
            count: 10,
            start_key: None,
            hash: None,
        },
    );
    assert_eq!(page(reply), vec![vec![0x01], vec![0x01, 0x05]]);
}

#[test]
fn keys_paged_sorts_and_truncates() {
    let mut server = server_with(vec![
        (vec![0x03], vec![]),
        (vec![0x01], vec![]),
        (vec![0x02], vec![]),
    ]);
    let reply = call(
        &mut server,
        MethodCall::StateGetKeysPaged { prefix: None, count: 2, start_key: None, hash: None },
    );
    let keys = page(reply);
    assert_eq!(keys, vec![vec![0x01], vec![0x02]]);
    let full = call(
        &mut server,
        MethodCall::StateGetKeysPaged { prefix: None, count: 10, start_key: None, hash: None },
    );
    assert_eq!(page(full), vec![vec![0x01], vec![0x02], vec![0x03]]);
}

#[test]
fn keys_paged_honours_the_start_key() {
    let mut server = server_with(vec![
        (vec![0x01], vec![]),
        (vec![0x02], vec![]),
        (vec![0x03], vec![]),
    ]);
    let reply = call(
        &mut server,
        MethodCall::StateGetKeysPaged {
            prefix: None,
            count: 10,
            start_key: Some(vec![0x02]),
            hash: None,
        },
    );
    assert_eq!(page(reply), vec![vec![0x02], vec![0x03]]);
}

#[test]
fn keys_paged_with_block_reference_invalid() {
    let mut server = server_with(Vec::new());
    let reply = call(
        &mut server,
        MethodCall::StateGetKeysPaged {
            prefix: None,
            count: 10,
            start_key: None,
            hash: Some(vec![0x00]),
        },
    );
    assert_eq!(reply.result.unwrap_err(), RpcError::InvalidParams);
}

#[test]
fn query_storage_absent_key_gives_no_value_marker() {
    let mut server = server_with(vec![(vec![0x01], vec![0xAA])]);
    let reply = call(
        &mut server,
        MethodCall::StateQueryStorageAt { keys: vec![vec![0x0A]], at: None },
    );
    match reply.result {
        Ok(Response::StorageChanges { block, changes }) => {
            assert_eq!(block, vec![0x11; 32]);
            assert_eq!(changes, vec![(vec![0x0A], None)]);
        }
        _ => panic!("expected a change set"),
    }
}

#[test]
fn query_storage_finds_the_first_match() {
    let mut server = server_with(vec![
        (vec![0x01], vec![0xAA]),
        (vec![0x01], vec![0xBB]),
        (vec![0x02], vec![0xCC]),
    ]);
    let reply = call(
        &mut server,
        MethodCall::StateQueryStorageAt { keys: vec![vec![0x01], vec![0x02]], at: None },
    );
    match reply.result {
        Ok(Response::StorageChanges { block: _, changes }) => {
            assert_eq!(
                changes,
                vec![
                    (vec![0x01], Some(vec![0xAA])),
                    (vec![0x02], Some(vec![0xCC])),
                ]
            );
        }
        _ => panic!("expected a change set"),
    }
}

#[test]
fn query_storage_with_block_reference_invalid() {
    let mut server = server_with(Vec::new());
    let reply = call(
        &mut server,
        MethodCall::StateQueryStorageAt { keys: Vec::new(), at: Some(vec![0x00]) },
    );
    assert_eq!(reply.result.unwrap_err(), RpcError::InvalidParams);
}

#[test]
fn lookup_is_exact_match_first_pair() {
    let snapshot = snapshot_with(vec![
        (vec![0x01, 0x02], vec![0xAA]),
        (vec![0x01], vec![0xBB]),
        (vec![0x01], vec![0xCC]),
    ]);
    assert_eq!(snapshot.lookup(&vec![0x01]), Some(vec![0xBB]));
    assert_eq!(snapshot.lookup(&vec![0x01, 0x02]), Some(vec![0xAA]));
    assert_eq!(snapshot.lookup(&vec![0x03]), None);
}
