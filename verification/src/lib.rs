//! A telemetry bridge for one device: each tick it takes what the device's
//! HTTP endpoint answered, checks the reading against a JSON Schema, and
//! decides what is published where: the unchanged reading on the data topic,
//! or a structured alert on the error topic.
//!
//! The decisions are verified; fetching, sleeping and the broker session are
//! left to the program that drives this library.
//!
//! - [`poller`]: the cycle of fetch, publish, listen and sleep.
//! - [`tick`]: one tick, from the response to the dispatch.
//! - [`schema`]: the schema, compiled once, and the violations of a reading.
//! - [`references`]: whether following a schema's references comes to an end.
//! - [`alert`]: the alert, its codes, its message and its JSON.
//! - [`publisher`]: the delivery task, the broker session's settings, and how
//!   long a publish attempt listens to the session.
//! - [`json`], [`clock`], [`text`]: documents, instants and joined texts.
//! - [`config`]: what the program reads from its environment.
//! - [`discovery`]: which devices a discovery round reports.

pub mod alert;
pub mod clock;
pub mod config;
pub mod discovery;
pub mod json;
pub mod poller;
pub mod publisher;
pub mod references;
pub mod schema;
pub mod text;
pub mod tick;
