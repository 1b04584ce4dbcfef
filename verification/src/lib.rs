//! Trust boundary and serving/ingestion gateway for a federated
//! social-network backend: request authentication, cursor-paginated
//! feed-skeleton serving with visitor telemetry, ingestion and
//! subscription-cursor checkpointing across a split read/write store, and
//! scoped account-action token issuance.

pub mod account;
pub mod auth;
pub mod checkpoint;
pub mod codec;
pub mod feed;
pub mod gateway;
pub mod ingest;
pub mod shaping;
pub mod telemetry;
pub mod well_known;
