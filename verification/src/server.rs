//! The dispatch core: the server state, the transition relation each event
//! respects, and the handler for every implemented method.
use vstd::prelude::*;
use std::collections::HashMap;
use crate::bytes::clone_bytes;
use crate::hexstr::hex_bytes_of;
use crate::hexstr::hex_decode;
use crate::hexstr::is_hex_text;
use crate::methods::HealthRecord;
use crate::methods::MethodCall;
use crate::methods::Response;
use crate::methods::RpcError;
use crate::methods::RuntimeVersionRecord;
use crate::methods::SubscriptionKind;
use crate::methods::method_names;
use crate::methods::spec_method_names;
use crate::numfmt::dec_digits;
use crate::numfmt::u64_to_dec_string;
use crate::registry::ConnLists;
use crate::registry::Registry;
use crate::registry::retired;
use crate::snapshot::Snapshot;
use crate::snapshot::opt_ref_view;
use crate::snapshot::opt_view;
use crate::snapshot::page_spec;
use crate::snapshot::spec_lookup;

verus! {

broadcast use vstd::std_specs::hash::group_hash_axioms;

/// A transport event, as the dispatch loop consumes it.
pub enum Event {
    ConnectionOpen { conn: u64 },
    ConnectionClosed { conn: u64 },
    Frame { conn: u64, frame: FrameOutcome },
}

/// What the codec made of one inbound text frame.
pub enum FrameOutcome {
    Call { request_id: String, call: MethodCall },
    UnknownMethod { request_id: String },
    Malformed { request_id: Option<String> },
}

/// An outbound reply: the destination connection, the echoed request
/// identifier, and either a response or a request-scoped error.
pub struct Reply {
    pub conn: u64,
    pub request_id: String,
    pub result: Result<Response, RpcError>,
}

/// The whole server: subscription registry, live connections, the chain
/// snapshot and the fixed answer material supplied at start.
pub struct ServerState {
    pub registry: Registry,
    pub conns: HashMap<u64, ConnLists>,
    pub snapshot: Snapshot,
    pub genesis_hash: Vec<u8>,
    pub genesis_header: Vec<u8>,
    pub metadata: Vec<u8>,
}

/// The parts of the state no event ever changes.
pub open spec fn fixed_parts_unchanged(pre: ServerState, post: ServerState) -> bool {
    &&& post.snapshot == pre.snapshot
    &&& post.genesis_hash == pre.genesis_hash
    &&& post.genesis_header == pre.genesis_header
    &&& post.metadata == pre.metadata
}

/// The fixed health record.
pub open spec fn fixed_health() -> HealthRecord {
    HealthRecord { is_syncing: true, peers: 1, should_have_peers: true }
}

/// The fixed runtime-version record.
pub open spec fn fixed_runtime_version(v: RuntimeVersionRecord) -> bool {
    &&& v.spec_name@ == "polkadot"@
    &&& v.impl_name@ == "substrate-lite"@
    &&& v.authoring_version == 0
    &&& v.spec_version == 18
    &&& v.impl_version == 0
    &&& v.transaction_version == 4
}

/// Which subscription kind a call requests, if any.
pub open spec fn subscribe_kind_of(call: MethodCall) -> Option<SubscriptionKind> {
    match call {
        MethodCall::ChainSubscribeAllHeads => Some(SubscriptionKind::AllHeads),
        MethodCall::ChainSubscribeNewHeads => Some(SubscriptionKind::NewHeads),
        MethodCall::ChainSubscribeFinalizedHeads => Some(SubscriptionKind::FinalizedHeads),
        MethodCall::StateSubscribeRuntimeVersion => Some(SubscriptionKind::RuntimeVersion),
        MethodCall::StateSubscribeStorage { .. } => Some(SubscriptionKind::Storage),
        _ => None,
    }
}

/// One subscription granted: the allocator advances by one, the fresh
/// identifier is registered for the kind under the calling connection, the
/// connection's matching list gains it, and nothing else moves.
pub open spec fn subscribed(
    pre: ServerState,
    conn: u64,
    k: SubscriptionKind,
    post: ServerState,
) -> bool {
    let id = pre.registry.next_id;
    &&& post.registry.next_id == pre.registry.next_id + 1
    &&& post.registry.kind_map(k) == pre.registry.kind_map(k).insert(id, conn)
    &&& forall|k2: SubscriptionKind|
        k2 != k ==> #[trigger] post.registry.kind_map(k2) == pre.registry.kind_map(k2)
    &&& post.conns@.dom() == pre.conns@.dom()
    &&& post.conns@[conn].list(k) == pre.conns@[conn].list(k).push(id)
    &&& forall|k2: SubscriptionKind|
        k2 != k ==> #[trigger] post.conns@[conn].list(k2) == pre.conns@[conn].list(k2)
    &&& forall|c: u64|
        c != conn && pre.conns@.contains_key(c) ==> #[trigger] post.conns@[c] == pre.conns@[c]
    &&& fixed_parts_unchanged(pre, post)
}

/// The dispatch table as a relation: for each call, how the state may move
/// and what outcome is owed, success and each error exactly delimited.
pub open spec fn call_transition(
    pre: ServerState,
    conn: u64,
    call: MethodCall,
    post: ServerState,
    r: Result<Response, RpcError>,
) -> bool {
    match call {
        MethodCall::ChainGetBlockHash { height } => {
            &&& post == pre
            &&& if height == 0 {
                r matches Ok(resp) && resp matches Response::BlockHash(h) && h@
                    == pre.genesis_hash@
            } else {
                r == Result::<Response, RpcError>::Err(RpcError::InvalidParams)
            }
        },
        MethodCall::ChainGetHeader { .. } => {
            &&& post == pre
            &&& r matches Ok(resp) && resp matches Response::Header(h) && h@
                == pre.genesis_header@
        },
        MethodCall::RpcMethods => {
            &&& post == pre
            &&& r matches Ok(resp) && resp matches Response::RpcMethods { version, methods }
                && version == 1 && methods@.map_values(|s: String| s@) == spec_method_names()
        },
        MethodCall::StateQueryStorageAt { keys, at } => {
            &&& post == pre
            &&& if at is Some {
                r == Result::<Response, RpcError>::Err(RpcError::InvalidParams)
            } else {
                r matches Ok(resp) && resp matches Response::StorageChanges { block, changes }
                    && block@ == pre.genesis_hash@ && changes@.len() == keys@.len() && (forall|
                    i: int,
                |
                    0 <= i < keys@.len() ==> (#[trigger] changes@[i]).0@ == keys@[i]@ && opt_view(
                        changes@[i].1,
                    ) == spec_lookup(pre.snapshot.entries(), keys@[i]@))
            }
        },
        MethodCall::StateGetKeysPaged { prefix, count, start_key, hash } => {
            &&& post == pre
            &&& if hash is Some {
                r == Result::<Response, RpcError>::Err(RpcError::InvalidParams)
            } else {
                r matches Ok(resp) && resp matches Response::KeysPaged(ks) && ks@.map_values(
                    |v: Vec<u8>| v@,
                ) == page_spec(
                    pre.snapshot.entries(),
                    opt_view(prefix),
                    opt_view(start_key),
                    count as int,
                )
            }
        },
        MethodCall::StateGetMetadata => {
            &&& post == pre
            &&& r matches Ok(resp) && resp matches Response::Metadata(m) && m@ == pre.metadata@
        },
        MethodCall::StateGetRuntimeVersion => {
            &&& post == pre
            &&& r matches Ok(resp) && resp matches Response::RuntimeVersion(v)
                && fixed_runtime_version(v)
        },
        MethodCall::SystemChain => {
            &&& post == pre
            &&& r matches Ok(resp) && resp matches Response::SystemChain(s) && s@
                == pre.snapshot.name@
        },
        MethodCall::SystemChainType => {
            &&& post == pre
            &&& r matches Ok(resp) && resp matches Response::SystemChainType(s) && s@
                == pre.snapshot.chain_type@
        },
        MethodCall::SystemProperties => {
            &&& post == pre
            &&& r matches Ok(resp) && resp matches Response::SystemProperties(s) && s@
                == pre.snapshot.properties@
        },
        MethodCall::SystemHealth => {
            &&& post == pre
            &&& r matches Ok(resp) && resp matches Response::SystemHealth(h) && h == fixed_health()
        },
        MethodCall::SystemName => {
            &&& post == pre
            &&& r matches Ok(resp) && resp matches Response::SystemName(s) && s@
                == "substrate-lite!"@
        },
        MethodCall::SystemVersion => {
            &&& post == pre
            &&& r matches Ok(resp) && resp matches Response::SystemVersion(s) && s@ == "1.0.0"@
        },
        _ => {
            match subscribe_kind_of(call) {
                Some(k) => {
                    &&& subscribed(pre, conn, k, post)
                    &&& r matches Ok(resp) && resp matches Response::Subscription(k2, id) && k2
                        == k && id@ == dec_digits(pre.registry.next_id as nat)
                },
                None => false,
            }
        },
    }
}

/// What the transport guarantees of each event it delivers.
pub open spec fn event_pre(pre: ServerState, e: Event) -> bool {
    match e {
        Event::ConnectionOpen { conn } => !pre.conns@.contains_key(conn),
        Event::ConnectionClosed { conn } => pre.conns@.contains_key(conn),
        Event::Frame { conn, .. } => pre.conns@.contains_key(conn) && pre.registry.next_id
            < u64::MAX,
    }
}

/// The dispatch loop's transition relation: how one event moves the state
/// and what reply, if any, is queued for sending.
pub open spec fn event_transition(
    pre: ServerState,
    e: Event,
    post: ServerState,
    r: Option<Reply>,
) -> bool {
    match e {
        Event::ConnectionOpen { conn } => {
            &&& post.registry == pre.registry
            &&& post.conns@.dom() == pre.conns@.dom().insert(conn)
            &&& forall|k: SubscriptionKind| (#[trigger] post.conns@[conn].list(k)).len() == 0
            &&& forall|c: u64|
                c != conn && pre.conns@.contains_key(c) ==> #[trigger] post.conns@[c]
                    == pre.conns@[c]
            &&& fixed_parts_unchanged(pre, post)
            &&& r is None
        },
        Event::ConnectionClosed { conn } => {
            &&& post.registry.next_id == pre.registry.next_id
            &&& forall|k: SubscriptionKind| #[trigger] post.registry.kind_map(k) == retired(
                pre.registry.kind_map(k),
                pre.conns@[conn].list(k),
                conn,
            )
            &&& post.conns@ == pre.conns@.remove(conn)
            &&& fixed_parts_unchanged(pre, post)
            &&& r is None
        },
        Event::Frame { conn, frame } => {
            match frame {
                FrameOutcome::Call { request_id, call } => {
                    r matches Some(reply) && reply.conn == conn && reply.request_id@
                        == request_id@ && call_transition(pre, conn, call, post, reply.result)
                },
                FrameOutcome::UnknownMethod { request_id } => {
                    &&& post == pre
                    &&& r matches Some(reply) && reply.conn == conn && reply.request_id@
                        == request_id@ && reply.result == Result::<Response, RpcError>::Err(
                        RpcError::MethodNotFound,
                    )
                },
                FrameOutcome::Malformed { request_id: Some(rid) } => {
                    &&& post == pre
                    &&& r matches Some(reply) && reply.conn == conn && reply.request_id@ == rid@
                        && reply.result == Result::<Response, RpcError>::Err(
                        RpcError::MalformedRequest,
                    )
                },
                FrameOutcome::Malformed { request_id: None } => {
                    &&& post == pre
                    &&& r is None
                },
            }
        },
    }
}

/// Appending to a list changes what it contains by exactly the new element.
proof fn lemma_push_contains(s: Seq<u64>, x: u64, y: u64)
    ensures
        s.push(x).contains(y) <==> (s.contains(y) || y == x),
{
    if s.push(x).contains(y) {
        let j = choose|j: int| 0 <= j < s.push(x).len() && s.push(x)[j] == y;
        if j < s.len() {
            assert(s[j] == y);
        }
    }
    if s.contains(y) {
        let j = choose|j: int| 0 <= j < s.len() && s[j] == y;
        assert(s.push(x)[j] == y);
    }
    assert(s.push(x)[s.len() as int] == x);
}

impl ServerState {
    /// Registry and per-connection lists agree: an identifier is registered
    /// for a kind under an owner exactly when that owner is a live
    /// connection whose matching list carries the identifier.
    pub open spec fn wf(self) -> bool {
        &&& self.registry.wf()
        &&& forall|k: SubscriptionKind, id: u64|
            #[trigger] self.registry.kind_map(k).contains_key(id) ==> {
                let c = self.registry.kind_map(k)[id];
                self.conns@.contains_key(c) && self.conns@[c].list(k).contains(id)
            }
        &&& forall|k: SubscriptionKind, c: u64, id: u64|
            self.conns@.contains_key(c) && #[trigger] self.conns@[c].list(k).contains(id)
                ==> self.registry.kind_map(k).contains_key(id) && self.registry.kind_map(k)[id]
                == c
    }

    /// Builds the server around a snapshot, the externally computed genesis
    /// hash and header encoding, and the metadata blob as hex text; `None`
    /// exactly when that text is not well-formed hex.
    pub fn new(
        snapshot: Snapshot,
        genesis_hash: Vec<u8>,
        genesis_header: Vec<u8>,
        metadata_hex: &Vec<u8>,
    ) -> (r: Option<ServerState>)
        ensures
            r is Some <==> is_hex_text(metadata_hex@),
            r matches Some(s) ==> {
                &&& s.wf()
                &&& s.registry.next_id == 0
                &&& forall|k: SubscriptionKind| #[trigger] s.registry.kind_map(k) == Map::<
                    u64,
                    u64,
                >::empty()
                &&& s.conns@ == Map::<u64, ConnLists>::empty()
                &&& s.snapshot == snapshot
                &&& s.genesis_hash == genesis_hash
                &&& s.genesis_header == genesis_header
                &&& s.metadata@ == hex_bytes_of(metadata_hex@)
            },
    {
        match hex_decode(metadata_hex) {
            None => None,
            Some(metadata) => {
                let s = ServerState {
                    registry: Registry::new(),
                    conns: HashMap::new(),
                    snapshot,
                    genesis_hash,
                    genesis_header,
                    metadata,
                };
                Some(s)
            },
        }
    }

    /// Grants one subscription: fresh identifier, registered and listed.
    fn subscribe(&mut self, conn: u64, k: SubscriptionKind) -> (r: Result<Response, RpcError>)
        requires
            old(self).wf(),
            old(self).conns@.contains_key(conn),
            old(self).registry.next_id < u64::MAX,
        ensures
            final(self).wf(),
            subscribed(*old(self), conn, k, *final(self)),
            r matches Ok(resp) && resp matches Response::Subscription(k2, id) && k2 == k && id@
                == dec_digits(old(self).registry.next_id as nat),
    {
        let ghost pre = *old(self);
        let id = self.registry.allocate_id();
        proof {
            assert(!self.registry.kind_map(k).contains_key(id));
        }
        self.registry.register(k, id, conn);
        let mut lists = match self.conns.remove(&conn) {
            Some(l) => l,
            None => ConnLists::new(),
        };
        lists.push_id(k, id);
        self.conns.insert(conn, lists);
        let name = u64_to_dec_string(id);
        proof {
            assert(self.conns@.dom() =~= pre.conns@.dom());
            assert forall|k2: SubscriptionKind, id2: u64|
                #[trigger] self.registry.kind_map(k2).contains_key(id2) implies {
                let c = self.registry.kind_map(k2)[id2];
                self.conns@.contains_key(c) && self.conns@[c].list(k2).contains(id2)
            } by {
                if k2 == k && id2 == id {
                    lemma_push_contains(pre.conns@[conn].list(k), id, id);
                } else {
                    assert(pre.registry.kind_map(k2).contains_key(id2));
                    let c = pre.registry.kind_map(k2)[id2];
                    assert(pre.conns@.contains_key(c) && pre.conns@[c].list(k2).contains(id2));
                    if c == conn && k2 == k {
                        lemma_push_contains(pre.conns@[conn].list(k), id, id2);
                    }
                }
            }
            assert forall|k2: SubscriptionKind, c: u64, id2: u64|
                self.conns@.contains_key(c) && #[trigger] self.conns@[c].list(k2).contains(
                id2,
            ) implies self.registry.kind_map(k2).contains_key(id2) && self.registry.kind_map(
                k2,
            )[id2] == c by {
                if c == conn && k2 == k {
                    lemma_push_contains(pre.conns@[conn].list(k), id, id2);
                    if id2 != id {
                        assert(pre.conns@[c].list(k2).contains(id2));
                    }
                } else {
                    assert(pre.conns@[c].list(k2).contains(id2));
                }
            }
            assert(self.registry.wf()) by {
                assert forall|k2: SubscriptionKind, id2: u64|
                    #[trigger] self.registry.kind_map(k2).contains_key(id2) implies id2
                    < self.registry.next_id by {
                    if !(k2 == k && id2 == id) {
                        assert(pre.registry.kind_map(k2).contains_key(id2));
                    }
                }
            }
        }
        Ok(Response::Subscription(k, name))
    }

    /// Routes one decoded call to its handler; the dispatch table
    /// `call_transition` states what each method answers.
    pub fn handle_call(&mut self, conn: u64, call: MethodCall) -> (r: Result<Response, RpcError>)
        requires
            old(self).wf(),
            old(self).conns@.contains_key(conn),
            old(self).registry.next_id < u64::MAX,
        ensures
            final(self).wf(),
            call_transition(*old(self), conn, call, *final(self), r),
    {
        match call {
            MethodCall::ChainGetBlockHash { height } => {
                if height == 0 {
                    Ok(Response::BlockHash(clone_bytes(&self.genesis_hash)))
                } else {
                    Err(RpcError::InvalidParams)
                }
            },
            MethodCall::ChainGetHeader { hash: _ } => {
                Ok(Response::Header(clone_bytes(&self.genesis_header)))
            },
            MethodCall::ChainSubscribeAllHeads => self.subscribe(conn, SubscriptionKind::AllHeads),
            MethodCall::ChainSubscribeNewHeads => self.subscribe(conn, SubscriptionKind::NewHeads),
            MethodCall::ChainSubscribeFinalizedHeads => {
                self.subscribe(conn, SubscriptionKind::FinalizedHeads)
            },
            MethodCall::StateSubscribeRuntimeVersion => {
                self.subscribe(conn, SubscriptionKind::RuntimeVersion)
            },
            MethodCall::StateSubscribeStorage { list: _ } => {
                self.subscribe(conn, SubscriptionKind::Storage)
            },
            MethodCall::RpcMethods => {
                Ok(Response::RpcMethods { version: 1, methods: method_names() })
            },
            MethodCall::StateQueryStorageAt { keys, at } => {
                if at.is_some() {
                    Err(RpcError::InvalidParams)
                } else {
                    let changes = self.snapshot.storage_changes(&keys);
                    Ok(
                        Response::StorageChanges {
                            block: clone_bytes(&self.genesis_hash),
                            changes,
                        },
                    )
                }
            },
            MethodCall::StateGetKeysPaged { prefix, count, start_key, hash } => {
                if hash.is_some() {
                    Err(RpcError::InvalidParams)
                } else {
                    let pref = match &prefix {
                        Some(p) => Some(p),
                        None => None,
                    };
                    let start = match &start_key {
                        Some(s) => Some(s),
                        None => None,
                    };
                    proof {
                        assert(opt_ref_view(pref) == opt_view(prefix));
                        assert(opt_ref_view(start) == opt_view(start_key));
                    }
                    let ks = self.snapshot.keys_paged(pref, count, start);
                    Ok(Response::KeysPaged(ks))
                }
            },
            MethodCall::StateGetMetadata => Ok(Response::Metadata(clone_bytes(&self.metadata))),
            MethodCall::StateGetRuntimeVersion => {
                Ok(
                    Response::RuntimeVersion(
                        RuntimeVersionRecord {
                            spec_name: String::from_str("polkadot"),
                            impl_name: String::from_str("substrate-lite"),
                            authoring_version: 0,
                            spec_version: 18,
                            impl_version: 0,
                            transaction_version: 4,
                        },
                    ),
                )
            },
            MethodCall::SystemChain => Ok(Response::SystemChain(self.snapshot.name.clone())),
            MethodCall::SystemChainType => {
                Ok(Response::SystemChainType(self.snapshot.chain_type.clone()))
            },
            MethodCall::SystemProperties => {
                Ok(Response::SystemProperties(self.snapshot.properties.clone()))
            },
            MethodCall::SystemHealth => {
                Ok(
                    Response::SystemHealth(
                        HealthRecord { is_syncing: true, peers: 1, should_have_peers: true },
                    ),
                )
            },
            MethodCall::SystemName => Ok(Response::SystemName(String::from_str("substrate-lite!"))),
            MethodCall::SystemVersion => Ok(Response::SystemVersion(String::from_str("1.0.0"))),
        }
    }

    /// Consumes one transport event: opens or retires a connection, or
    /// dispatches a decoded frame, yielding the reply to queue if one is
    /// owed. Every subscription a closing connection owns leaves the
    /// registry with it.
    pub fn handle_event(&mut self, e: Event) -> (r: Option<Reply>)
        requires
            old(self).wf(),
            event_pre(*old(self), e),
        ensures
            final(self).wf(),
            event_transition(*old(self), e, *final(self), r),
    {
        let ghost pre = *old(self);
        match e {
            Event::ConnectionOpen { conn } => {
                self.conns.insert(conn, ConnLists::new());
                proof {
                    assert(self.conns@.dom() =~= pre.conns@.dom().insert(conn));
                    assert forall|k2: SubscriptionKind, id2: u64|
                        #[trigger] self.registry.kind_map(k2).contains_key(id2) implies {
                        let c = self.registry.kind_map(k2)[id2];
                        self.conns@.contains_key(c) && self.conns@[c].list(k2).contains(id2)
                    } by {
                        let c = pre.registry.kind_map(k2)[id2];
                        assert(pre.conns@.contains_key(c) && pre.conns@[c].list(k2).contains(id2));
                    }
                    assert forall|k2: SubscriptionKind, c: u64, id2: u64|
                        self.conns@.contains_key(c) && #[trigger] self.conns@[c].list(k2).contains(
                        id2,
                    ) implies self.registry.kind_map(k2).contains_key(id2)
                        && self.registry.kind_map(k2)[id2] == c by {
                        if c == conn {
                            assert(self.conns@[c].list(k2).len() == 0);
                            let j = choose|j: int|
                                0 <= j < self.conns@[c].list(k2).len() && self.conns@[c].list(
                                    k2,
                                )[j] == id2;
                            assert(false);
                        } else {
                            assert(pre.conns@[c].list(k2).contains(id2));
                        }
                    }
                }
                None
            },
            Event::ConnectionClosed { conn } => {
                let lists = match self.conns.remove(&conn) {
                    Some(l) => l,
                    None => ConnLists::new(),
                };
                self.registry.retire_connection(conn, &lists);
                proof {
                    assert forall|k2: SubscriptionKind, id2: u64|
                        #[trigger] self.registry.kind_map(k2).contains_key(id2) implies {
                        let c = self.registry.kind_map(k2)[id2];
                        self.conns@.contains_key(c) && self.conns@[c].list(k2).contains(id2)
                    } by {
                        assert(pre.registry.kind_map(k2).contains_key(id2));
                        let c = pre.registry.kind_map(k2)[id2];
                        assert(pre.conns@.contains_key(c) && pre.conns@[c].list(k2).contains(id2));
                        assert(c != conn);
                    }
                    assert forall|k2: SubscriptionKind, c: u64, id2: u64|
                        self.conns@.contains_key(c) && #[trigger] self.conns@[c].list(k2).contains(
                        id2,
                    ) implies self.registry.kind_map(k2).contains_key(id2)
                        && self.registry.kind_map(k2)[id2] == c by {
                        assert(c != conn);
                        assert(pre.conns@[c].list(k2).contains(id2));
                        assert(pre.registry.kind_map(k2).contains_key(id2)
                            && pre.registry.kind_map(k2)[id2] == c);
                    }
                }
                None
            },
            Event::Frame { conn, frame } => {
                match frame {
                    FrameOutcome::Call { request_id, call } => {
                        let result = self.handle_call(conn, call);
                        Some(Reply { conn, request_id, result })
                    },
                    FrameOutcome::UnknownMethod { request_id } => {
                        Some(Reply { conn, request_id, result: Err(RpcError::MethodNotFound) })
                    },
                    FrameOutcome::Malformed { request_id: Some(rid) } => {
                        Some(Reply { conn, request_id: rid, result: Err(RpcError::MalformedRequest) })
                    },
                    FrameOutcome::Malformed { request_id: None } => None,
                }
            },
        }
    }
}

} // verus!
