//! Subscription-gated onboarding core for a chat bot: event routing,
//! tri-state membership classification, short-circuiting subscription
//! verification, reply selection, and the configuration parsing that
//! feeds them.

pub mod config;
pub mod envfile;
pub mod messages;
pub mod orchestrator;
pub mod outcome;
pub mod reply;
pub mod router;
pub mod text;
pub mod verify;
