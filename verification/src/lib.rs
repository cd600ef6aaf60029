//! The coordinator of a multi-chain EVM wallet.
//!
//! Everything the wallet decides is here: how a send is planned, what each
//! reply of a dependency leads to, how balances and prices are gathered and
//! joined, and where an answer waits until its caller collects it. Outbound
//! calls, files and the clock stay with the host.

pub mod address;
pub mod amount;
pub mod backend;
pub mod backend_laws;
pub mod balance_laws;
pub mod balances;
pub mod config;
pub mod flow;
pub mod flow_laws;
pub mod interface;
pub mod job_laws;
pub mod jobs;
pub mod json;
pub mod json_laws;
pub mod market;
pub mod market_flow;
pub mod market_laws;
pub mod methods;
pub mod plans;
pub mod poll_laws;
pub mod send;
pub mod send_laws;
pub mod state_laws;
pub mod status;
pub mod store;
pub mod strmap;
pub mod text;
pub mod value_laws;
pub mod view_laws;
mod words;
