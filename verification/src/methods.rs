//! The typed method surface: calls, responses, request-scoped errors, and
//! the fixed list of method names the dispatcher implements.
use vstd::prelude::*;

verus! {

/// The five kinds of long-lived subscription.
#[derive(Clone, Copy, Debug, PartialEq, Eq, Structural)]
pub enum SubscriptionKind {
    RuntimeVersion,
    AllHeads,
    NewHeads,
    FinalizedHeads,
    Storage,
}

/// A decoded method call, parameters as plain values.
#[derive(Debug, Clone)]
pub enum MethodCall {
    ChainGetBlockHash { height: u64 },
    ChainGetHeader { hash: Option<Vec<u8>> },
    ChainSubscribeAllHeads,
    ChainSubscribeNewHeads,
    ChainSubscribeFinalizedHeads,
    RpcMethods,
    StateQueryStorageAt { keys: Vec<Vec<u8>>, at: Option<Vec<u8>> },
    StateGetKeysPaged {
        prefix: Option<Vec<u8>>,
        count: usize,
        start_key: Option<Vec<u8>>,
        hash: Option<Vec<u8>>,
    },
    StateGetMetadata,
    StateSubscribeRuntimeVersion,
    StateSubscribeStorage { list: Vec<Vec<u8>> },
    StateGetRuntimeVersion,
    SystemChain,
    SystemChainType,
    SystemHealth,
    SystemName,
    SystemProperties,
    SystemVersion,
}

/// The fixed runtime-version record.
#[derive(Debug, Clone)]
pub struct RuntimeVersionRecord {
    pub spec_name: String,
    pub impl_name: String,
    pub authoring_version: u32,
    pub spec_version: u32,
    pub impl_version: u32,
    pub transaction_version: u32,
}

/// The fixed health record.
#[derive(Debug, Clone, Copy, PartialEq, Eq, Structural)]
pub struct HealthRecord {
    pub is_syncing: bool,
    pub peers: u64,
    pub should_have_peers: bool,
}

/// A typed response, one variant per answered method.
#[derive(Debug)]
pub enum Response {
    BlockHash(Vec<u8>),
    Header(Vec<u8>),
    Subscription(SubscriptionKind, String),
    RpcMethods { version: u32, methods: Vec<String> },
    StorageChanges { block: Vec<u8>, changes: Vec<(Vec<u8>, Option<Vec<u8>>)> },
    KeysPaged(Vec<Vec<u8>>),
    Metadata(Vec<u8>),
    RuntimeVersion(RuntimeVersionRecord),
    SystemChain(String),
    SystemChainType(String),
    SystemHealth(HealthRecord),
    SystemName(String),
    SystemProperties(String),
    SystemVersion(String),
}

/// A request-scoped failure; every request gets an answer, never a crash.
#[derive(Clone, Copy, Debug, PartialEq, Eq, Structural)]
pub enum RpcError {
    MalformedRequest,
    MethodNotFound,
    InvalidParams,
}

/// The wire name of each call the dispatcher implements.
pub open spec fn method_name_of(c: MethodCall) -> Seq<char> {
    match c {
        MethodCall::ChainGetBlockHash { .. } => "chain_getBlockHash"@,
        MethodCall::ChainGetHeader { .. } => "chain_getHeader"@,
        MethodCall::ChainSubscribeAllHeads => "chain_subscribeAllHeads"@,
        MethodCall::ChainSubscribeNewHeads => "chain_subscribeNewHeads"@,
        MethodCall::ChainSubscribeFinalizedHeads => "chain_subscribeFinalizedHeads"@,
        MethodCall::RpcMethods => "rpc_methods"@,
        MethodCall::StateQueryStorageAt { .. } => "state_queryStorageAt"@,
        MethodCall::StateGetKeysPaged { .. } => "state_getKeysPaged"@,
        MethodCall::StateGetMetadata => "state_getMetadata"@,
        MethodCall::StateSubscribeRuntimeVersion => "state_subscribeRuntimeVersion"@,
        MethodCall::StateSubscribeStorage { .. } => "state_subscribeStorage"@,
        MethodCall::StateGetRuntimeVersion => "state_getRuntimeVersion"@,
        MethodCall::SystemChain => "system_chain"@,
        MethodCall::SystemChainType => "system_chainType"@,
        MethodCall::SystemHealth => "system_health"@,
        MethodCall::SystemName => "system_name"@,
        MethodCall::SystemProperties => "system_properties"@,
        MethodCall::SystemVersion => "system_version"@,
    }
}

/// The names `rpc_methods` reports, in their fixed order.
pub open spec fn spec_method_names() -> Seq<Seq<char>> {
    seq![
        "chain_getBlockHash"@,
        "chain_getHeader"@,
        "chain_subscribeAllHeads"@,
        "chain_subscribeNewHeads"@,
        "chain_subscribeFinalizedHeads"@,
        "rpc_methods"@,
        "state_queryStorageAt"@,
        "state_getKeysPaged"@,
        "state_getMetadata"@,
        "state_subscribeRuntimeVersion"@,
        "state_subscribeStorage"@,
        "state_getRuntimeVersion"@,
        "system_chain"@,
        "system_chainType"@,
        "system_health"@,
        "system_name"@,
        "system_properties"@,
        "system_version"@,
    ]
}

/// The method names the dispatcher implements, as owned strings.
pub fn method_names() -> (r: Vec<String>)
    ensures
        r@.map_values(|s: String| s@) == spec_method_names(),
{
    let mut out: Vec<String> = Vec::new();
    out.push(String::from_str("chain_getBlockHash"));
    out.push(String::from_str("chain_getHeader"));
    out.push(String::from_str("chain_subscribeAllHeads"));
    out.push(String::from_str("chain_subscribeNewHeads"));
    out.push(String::from_str("chain_subscribeFinalizedHeads"));
    out.push(String::from_str("rpc_methods"));
    out.push(String::from_str("state_queryStorageAt"));
    out.push(String::from_str("state_getKeysPaged"));
    out.push(String::from_str("state_getMetadata"));
    out.push(String::from_str("state_subscribeRuntimeVersion"));
    out.push(String::from_str("state_subscribeStorage"));
    out.push(String::from_str("state_getRuntimeVersion"));
    out.push(String::from_str("system_chain"));
    out.push(String::from_str("system_chainType"));
    out.push(String::from_str("system_health"));
    out.push(String::from_str("system_name"));
    out.push(String::from_str("system_properties"));
    out.push(String::from_str("system_version"));
    proof {
        assert(out@.map_values(|s: String| s@) =~= spec_method_names());
    }
    out
}

} // verus!
