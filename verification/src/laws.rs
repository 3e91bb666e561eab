//! The library's laws, stated over the same transition relation the
//! dispatch functions ensure, and proved once and for all.
use vstd::prelude::*;
use vstd::pervasive::arbitrary;
use crate::bytes::lemma_lex_le_total_ordering;
use crate::bytes::lex_le;
use crate::bytes::lex_leq;
use crate::methods::MethodCall;
use crate::methods::Response;
use crate::methods::RpcError;
use crate::methods::SubscriptionKind;
use crate::methods::method_name_of;
use crate::methods::spec_method_names;
use crate::numfmt::dec_digits;
use crate::numfmt::lemma_dec_digits_injective;
use crate::server::Event;
use crate::server::FrameOutcome;
use crate::server::Reply;
use crate::server::ServerState;
use crate::server::call_transition;
use crate::server::event_transition;
use crate::server::fixed_parts_unchanged;
use crate::snapshot::filtered_keys;
use crate::snapshot::matches_page;
use crate::snapshot::page_spec;

verus! {

broadcast use vstd::seq_lib::group_to_multiset_ensures;

/// Every key the page filter keeps carries the prefix and start-key
/// conditions and stands in the snapshot.
proof fn lemma_filtered_keys_elements(
    sv: Seq<(Seq<u8>, Seq<u8>)>,
    prefix: Option<Seq<u8>>,
    start: Option<Seq<u8>>,
)
    ensures
        forall|i: int|
            0 <= i < filtered_keys(sv, prefix, start).len() ==> matches_page(
                #[trigger] filtered_keys(sv, prefix, start)[i],
                prefix,
                start,
            ) && exists|j: int|
                0 <= j < sv.len() && sv[j].0 == filtered_keys(sv, prefix, start)[i],
    decreases sv.len(),
{
    if sv.len() > 0 {
        lemma_filtered_keys_elements(sv.drop_last(), prefix, start);
        let rest = filtered_keys(sv.drop_last(), prefix, start);
        let whole = filtered_keys(sv, prefix, start);
        assert forall|i: int| 0 <= i < whole.len() implies matches_page(
            whole[i],
            prefix,
            start,
        ) && exists|j: int| 0 <= j < sv.len() && sv[j].0 == whole[i] by {
            if i < rest.len() {
                assert(matches_page(rest[i], prefix, start));
                let j = choose|j: int|
                    0 <= j < sv.drop_last().len() && sv.drop_last()[j].0 == rest[i];
                assert(sv[j].0 == whole[i]);
            } else {
                assert(whole[i] == sv.last().0);
                assert(sv[sv.len() - 1].0 == whole[i]);
            }
        }
    }
}

/// The page a key query answers is sorted ascending by raw byte value, no
/// longer than the requested size, and holds only snapshot keys that carry
/// the prefix (when given) and are not below the start key (when given).
pub proof fn lemma_page_properties(
    sv: Seq<(Seq<u8>, Seq<u8>)>,
    prefix: Option<Seq<u8>>,
    start: Option<Seq<u8>>,
    count: int,
)
    requires
        count >= 0,
    ensures
        page_spec(sv, prefix, start, count).len() <= count || page_spec(
            sv,
            prefix,
            start,
            count,
        ).len() == filtered_keys(sv, prefix, start).len(),
        forall|i: int, j: int|
            0 <= i < j < page_spec(sv, prefix, start, count).len() ==> lex_le(
                #[trigger] page_spec(sv, prefix, start, count)[i],
                #[trigger] page_spec(sv, prefix, start, count)[j],
            ),
        forall|i: int|
            0 <= i < page_spec(sv, prefix, start, count).len() ==> matches_page(
                #[trigger] page_spec(sv, prefix, start, count)[i],
                prefix,
                start,
            ) && exists|j: int|
                0 <= j < sv.len() && sv[j].0 == page_spec(sv, prefix, start, count)[i],
{
    let filtered = filtered_keys(sv, prefix, start);
    let sorted = filtered.sort_by(lex_leq());
    let page = page_spec(sv, prefix, start, count);
    lemma_lex_le_total_ordering();
    filtered.lemma_sort_by_ensures(lex_leq());
    lemma_filtered_keys_elements(sv, prefix, start);
    assert(forall|i: int| 0 <= i < page.len() ==> page[i] == sorted[i]);
    assert forall|i: int, j: int| 0 <= i < j < page.len() implies lex_le(page[i], page[j]) by {
        assert(lex_leq()(sorted[i], sorted[j]));
    }
    assert forall|i: int| 0 <= i < page.len() implies matches_page(page[i], prefix, start)
        && exists|j: int| 0 <= j < sv.len() && sv[j].0 == page[i] by {
        assert(sorted.contains(sorted[i]));
        assert(sorted.to_multiset().count(sorted[i]) > 0);
        assert(filtered.to_multiset().count(sorted[i]) > 0);
        assert(filtered.contains(sorted[i]));
        let k = choose|k: int| 0 <= k < filtered.len() && filtered[k] == sorted[i];
        assert(matches_page(filtered[k], prefix, start));
        let j = choose|j: int| 0 <= j < sv.len() && sv[j].0 == filtered[k];
        assert(sv[j].0 == page[i]);
    }
}

/// A run of the dispatch loop: each event moves state `i` to state `i + 1`
/// under the transition relation, yielding reply `i`.
pub open spec fn valid_trace(
    states: Seq<ServerState>,
    events: Seq<Event>,
    replies: Seq<Option<Reply>>,
) -> bool {
    &&& states.len() == events.len() + 1
    &&& replies.len() == events.len()
    &&& forall|i: int|
        0 <= i < events.len() ==> event_transition(
            states[i],
            #[trigger] events[i],
            states[i + 1],
            replies[i],
        )
}

/// Whether step `i` allocated a subscription identifier; when it did, the
/// identifier is the allocator's value before the step.
pub open spec fn allocates(states: Seq<ServerState>, i: int) -> bool {
    states[i + 1].registry.next_id > states[i].registry.next_id
}

/// No event ever lowers the allocator, and none touches the snapshot, the
/// genesis material or the metadata blob.
pub proof fn lemma_step_preserves(pre: ServerState, e: Event, post: ServerState, r: Option<Reply>)
    requires
        event_transition(pre, e, post, r),
    ensures
        post.registry.next_id >= pre.registry.next_id,
        fixed_parts_unchanged(pre, post),
{
    match e {
        Event::ConnectionOpen { .. } => {
        },
        Event::ConnectionClosed { .. } => {
        },
        Event::Frame { conn, frame } => {
            match frame {
                FrameOutcome::Call { request_id, call } => {
                    let reply = r->Some_0;
                    assert(call_transition(pre, conn, call, post, reply.result));
                },
                FrameOutcome::UnknownMethod { .. } => {
                },
                FrameOutcome::Malformed { .. } => {
                },
            }
        },
    }
}

/// Across a run the allocator never decreases.
pub proof fn lemma_trace_next_id_monotone(
    states: Seq<ServerState>,
    events: Seq<Event>,
    replies: Seq<Option<Reply>>,
    i: int,
    j: int,
)
    requires
        valid_trace(states, events, replies),
        0 <= i <= j < states.len(),
    ensures
        states[i].registry.next_id <= states[j].registry.next_id,
    decreases j - i,
{
    if i < j {
        lemma_trace_next_id_monotone(states, events, replies, i, j - 1);
        lemma_step_preserves(states[j - 1], events[j - 1], states[j], replies[j - 1]);
    }
}

/// For all runs and any mix of subscribe calls over any connections:
/// identifiers allocated by two subscribe steps are strictly increasing in
/// allocation order, hence pairwise distinct, and so are their decimal
/// names.
pub proof fn lemma_subscription_ids_strictly_increase(
    states: Seq<ServerState>,
    events: Seq<Event>,
    replies: Seq<Option<Reply>>,
    i: int,
    j: int,
)
    requires
        valid_trace(states, events, replies),
        0 <= i < j < events.len(),
        allocates(states, i),
        allocates(states, j),
    ensures
        states[i].registry.next_id < states[j].registry.next_id,
        dec_digits(states[i].registry.next_id as nat) != dec_digits(
            states[j].registry.next_id as nat,
        ),
{
    lemma_trace_next_id_monotone(states, events, replies, i + 1, j);
    if dec_digits(states[i].registry.next_id as nat) == dec_digits(
        states[j].registry.next_id as nat,
    ) {
        lemma_dec_digits_injective(
            states[i].registry.next_id as nat,
            states[j].registry.next_id as nat,
        );
    }
}

/// After a connection-close event, no registry mapping of any kind records
/// the closed connection as owner.
pub proof fn lemma_close_retires_connection(
    pre: ServerState,
    conn: u64,
    post: ServerState,
    r: Option<Reply>,
)
    requires
        pre.wf(),
        event_transition(pre, Event::ConnectionClosed { conn }, post, r),
    ensures
        forall|k: SubscriptionKind, id: u64|
            #[trigger] post.registry.kind_map(k).contains_key(id) ==> post.registry.kind_map(
                k,
            )[id] != conn,
{
    assert forall|k: SubscriptionKind, id: u64|
        #[trigger] post.registry.kind_map(k).contains_key(id) implies post.registry.kind_map(
        k,
    )[id] != conn by {
        assert(pre.registry.kind_map(k).contains_key(id));
        if pre.registry.kind_map(k)[id] == conn {
            assert(pre.conns@[conn].list(k).contains(id));
            assert(!post.registry.kind_map(k).contains_key(id));
        }
    }
}

/// `chain_getBlockHash` at height zero is deterministic: against states
/// carrying the same snapshot material — in particular any two states of
/// one run, by `lemma_step_preserves` — both calls answer the same hash.
pub proof fn lemma_get_block_hash_deterministic(
    s1: ServerState,
    c1: u64,
    s1p: ServerState,
    r1: Result<Response, RpcError>,
    s2: ServerState,
    c2: u64,
    s2p: ServerState,
    r2: Result<Response, RpcError>,
)
    requires
        s1.genesis_hash@ == s2.genesis_hash@,
        call_transition(s1, c1, MethodCall::ChainGetBlockHash { height: 0 }, s1p, r1),
        call_transition(s2, c2, MethodCall::ChainGetBlockHash { height: 0 }, s2p, r2),
    ensures
        ({
            &&& r1 matches Ok(a) && a matches Response::BlockHash(h1) && h1@ == s1.genesis_hash@
            &&& r2 matches Ok(b) && b matches Response::BlockHash(h2) && h2@ == s1.genesis_hash@
        }),
{
}

/// `rpc_methods` answers exactly the set of methods the dispatcher
/// implements: every call's name is listed, and every listed name is some
/// call's name.
pub proof fn lemma_rpc_methods_exact()
    ensures
        forall|c: MethodCall| spec_method_names().contains(#[trigger] method_name_of(c)),
        forall|i: int|
            0 <= i < spec_method_names().len() ==> exists|c: MethodCall|
                method_name_of(c) == #[trigger] spec_method_names()[i],
{
    assert forall|c: MethodCall| spec_method_names().contains(#[trigger] method_name_of(c)) by {
        let names = spec_method_names();
        match c {
            MethodCall::ChainGetBlockHash { .. } => assert(names[0] == method_name_of(c)),
            MethodCall::ChainGetHeader { .. } => assert(names[1] == method_name_of(c)),
            MethodCall::ChainSubscribeAllHeads => assert(names[2] == method_name_of(c)),
            MethodCall::ChainSubscribeNewHeads => assert(names[3] == method_name_of(c)),
            MethodCall::ChainSubscribeFinalizedHeads => assert(names[4] == method_name_of(c)),
            MethodCall::RpcMethods => assert(names[5] == method_name_of(c)),
            MethodCall::StateQueryStorageAt { .. } => assert(names[6] == method_name_of(c)),
            MethodCall::StateGetKeysPaged { .. } => assert(names[7] == method_name_of(c)),
            MethodCall::StateGetMetadata => assert(names[8] == method_name_of(c)),
            MethodCall::StateSubscribeRuntimeVersion => assert(names[9] == method_name_of(c)),
            MethodCall::StateSubscribeStorage { .. } => assert(names[10] == method_name_of(c)),
            MethodCall::StateGetRuntimeVersion => assert(names[11] == method_name_of(c)),
            MethodCall::SystemChain => assert(names[12] == method_name_of(c)),
            MethodCall::SystemChainType => assert(names[13] == method_name_of(c)),
            MethodCall::SystemHealth => assert(names[14] == method_name_of(c)),
            MethodCall::SystemName => assert(names[15] == method_name_of(c)),
            MethodCall::SystemProperties => assert(names[16] == method_name_of(c)),
            MethodCall::SystemVersion => assert(names[17] == method_name_of(c)),
        }
    }
    assert forall|i: int| 0 <= i < spec_method_names().len() implies exists|c: MethodCall|
        method_name_of(c) == #[trigger] spec_method_names()[i] by {
        let names = spec_method_names();
        if i == 0 {
            assert(method_name_of(MethodCall::ChainGetBlockHash { height: 0 }) == names[0]);
        } else if i == 1 {
            assert(method_name_of(MethodCall::ChainGetHeader { hash: None }) == names[1]);
        } else if i == 2 {
            assert(method_name_of(MethodCall::ChainSubscribeAllHeads) == names[2]);
        } else if i == 3 {
            assert(method_name_of(MethodCall::ChainSubscribeNewHeads) == names[3]);
        } else if i == 4 {
            assert(method_name_of(MethodCall::ChainSubscribeFinalizedHeads) == names[4]);
        } else if i == 5 {
            assert(method_name_of(MethodCall::RpcMethods) == names[5]);
        } else if i == 6 {
            assert(method_name_of(
                MethodCall::StateQueryStorageAt { keys: arbitrary(), at: None },
            ) == names[6]);
        } else if i == 7 {
            assert(method_name_of(
                MethodCall::StateGetKeysPaged {
                    prefix: None,
                    count: 0,
                    start_key: None,
                    hash: None,
                },
            ) == names[7]);
        } else if i == 8 {
            assert(method_name_of(MethodCall::StateGetMetadata) == names[8]);
        } else if i == 9 {
            assert(method_name_of(MethodCall::StateSubscribeRuntimeVersion) == names[9]);
        } else if i == 10 {
            assert(method_name_of(MethodCall::StateSubscribeStorage { list: arbitrary() })
                == names[10]);
        } else if i == 11 {
            assert(method_name_of(MethodCall::StateGetRuntimeVersion) == names[11]);
        } else if i == 12 {
            assert(method_name_of(MethodCall::SystemChain) == names[12]);
        } else if i == 13 {
            assert(method_name_of(MethodCall::SystemChainType) == names[13]);
        } else if i == 14 {
            assert(method_name_of(MethodCall::SystemHealth) == names[14]);
        } else if i == 15 {
            assert(method_name_of(MethodCall::SystemName) == names[15]);
        } else if i == 16 {
            assert(method_name_of(MethodCall::SystemProperties) == names[16]);
        } else {
            assert(method_name_of(MethodCall::SystemVersion) == names[17]);
        }
    }
}

} // verus!
