//! Disposable database fixtures for integration tests.
//!
//! The library holds the decisions of a fixture's life: the grammar of the
//! test attribute, the resolution of migration sources into ordered units,
//! the connection retry policy, the container handle's release discipline and
//! the lifecycle state machine that sequences provisioning, connecting,
//! migrating, running the test body and tearing down. A driver outside the
//! library performs the actions that the state machine asks for and reports
//! what happened as events.
pub mod attributes;
pub mod source;
pub mod fixture;
