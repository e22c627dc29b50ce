//! Admission-control and provider-failover core for a pair of upstream
//! services: a blockchain JSON-RPC network and a game-economy REST API.
//!
//! The crate owns the request-rate governor ([`rate_limiter`]), endpoint
//! discovery and the rotating provider pool ([`starknet_client`]), the two
//! client facades ([`starknet_client`], [`influence_api`]) with their error
//! taxonomy ([`errors`]), a recipe graph ([`supply_chain`]) and a small
//! symmetric-encryption vault ([`vault`]).
//!
//! Network transport, clocks and process environment stay outside: callers
//! perform the exchange and hand the outcome back in as plain values, so
//! every decision the crate makes is a verified function of those values.

pub mod errors;
pub mod influence_api;
pub mod rate_limiter;
pub mod starknet_client;
pub mod supply_chain;
pub mod vault;
