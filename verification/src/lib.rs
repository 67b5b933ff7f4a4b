//! The decisions of an OCI registry's HTTP server, stated and proved.
//!
//! [`app`] says which operation a path names, [`auth`] who may perform it,
//! [`handlers`] what is asked of the registry and what is answered, [`error`]
//! how a failure is told, [`config`] what the server runs under and [`banner`]
//! what it prints once it does. [`backend`] holds what the store-backed registry
//! decides between the calls it makes; [`seam`] is the vocabulary the two sides
//! share.

pub mod app;
pub mod auth;
pub mod backend;
pub mod banner;
pub mod calendar;
pub mod config;
pub mod counters;
pub mod error;
pub mod handlers;
pub mod json;
pub mod pagination;
pub mod query;
pub mod random;
pub mod reference;
pub mod seam;
pub mod text;
pub mod wire;
