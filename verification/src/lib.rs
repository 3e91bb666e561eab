//! Core of a JSON-RPC chain-introspection front end: typed method calls, a
//! read-only chain snapshot with its query functions, a subscription registry
//! keyed by a monotonically increasing allocator, and the event-dispatch
//! logic that routes transport events to handlers and retires a connection's
//! subscriptions when it closes.
pub mod bytes;
pub mod hexstr;
pub mod laws;
pub mod methods;
pub mod numfmt;
pub mod registry;
pub mod server;
pub mod snapshot;
