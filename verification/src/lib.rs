//! Core library for a JSON-RPC gateway: a namespaced key-value persistence
//! model, the `Application` / `RpcKey` entity model built on it, and the
//! gateway's request pipeline (credential extraction, key resolution, quota
//! enforcement, and the forwarding decision).

pub mod hexnum;
pub mod model;
pub mod codec;
pub mod store;
pub mod errors;
pub mod registry;
pub mod gate;
pub mod gateway;
pub mod mgmt;
pub mod formatter;
