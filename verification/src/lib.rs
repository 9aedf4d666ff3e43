//! Verified core of a payments platform: on-chain contract state machines
//! (loyalty points, payment insurance) and the decision logic of the
//! backend services (compliance screening, reconciliation, webhooks, audit,
//! payouts, analytics, currencies).

pub mod contract_env;
pub mod table;
pub mod loyalty;
pub mod insurance;
pub mod text;
pub mod api_error;
pub mod webhook;
pub mod compliance;
pub mod currency;
pub mod reconciliation;
pub mod audit;
pub mod payout;
pub mod analytics;
