//! Matrix notification service: the decisions, formats and digests behind the
//! HTTP API, verified. Network, database and SDK calls are made by the program
//! around this library, which hands the outcomes back as plain values.

pub mod access_laws;
pub mod attachment;
pub mod attachment_laws;
pub mod auth;
pub mod bootstrap;
pub mod bootstrap_laws;
pub mod config;
pub mod content;
pub mod content_laws;
pub mod delivery;
pub mod delivery_laws;
pub mod digest;
pub mod error;
pub mod idempotency;
pub mod identifier;
pub mod identity_laws;
pub mod instance_laws;
pub mod layout;
pub mod layout_laws;
pub mod markup;
pub mod markup_laws;
pub mod message;
pub mod migration_laws;
pub mod migration_run;
pub mod migrations;
pub mod monitor;
pub mod plan_laws;
pub mod record_laws;
pub mod room_laws;
pub mod room_setup;
pub mod schema_laws;
pub mod setup;
pub mod setup_laws;
pub mod step_laws;
pub mod table_laws;
pub mod text;
pub mod verification;
pub mod view_laws;
