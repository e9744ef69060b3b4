//! Connection registry and targeted broadcast engine for payment-status
//! notifications: webhook signature verification, event classification,
//! ledger-backed target resolution, and selective fan-out to subscribed
//! socket connections.

pub mod dispatch;
pub mod events;
pub mod idgen;
pub mod json;
pub mod laws;
pub mod ledger;
pub mod messages;
pub mod registry;
pub mod session;
pub mod text;
pub mod webhook;
