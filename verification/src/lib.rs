//! The decisions of a service that resolves Spotify tracks.
//!
//! A request names a track. The service looks it up in a legacy database and in a
//! catalogue of its own; a track that neither has is queued. A worker takes the queued
//! tracks one by one, fetches each from Spotify and enters it into the catalogue.
//!
//! What the service decides stands here: which id a request names ([`ids`]), how a
//! request is answered ([`resolve`]), how the queue is worked through ([`queue`],
//! [`worker`]) and how a track is entered ([`save`]). Databases, network and timers are
//! outside: a state says what is to be done next, and a step takes what came of it.

pub mod catalog;
pub mod catalog_sql;
pub mod catalogue_laws;
pub mod catalogue_model;
mod clock;
pub mod ids;
pub mod queue;
pub mod queue_laws;
pub mod queue_model;
pub mod resolve;
pub mod resolve_laws;
pub mod round_laws;
pub mod save;
pub mod save_laws;
pub mod schema;
pub mod sql;
pub mod tables;
pub mod worker;
pub mod worker_laws;
