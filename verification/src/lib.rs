//! The decisions of the KernelSU web panel daemon.
//!
//! The panel is a small HTTP service on 127.0.0.1. Everything that it decides
//! stands here: what it reads of a request, which token it asks for, what it
//! answers, and in which order it reads, writes, binds and forks. What has to
//! touch the machine is left to the caller. Each course of events is a function
//! from what is pending and its outcome to what is pending next.

pub mod connection;
pub mod daemon;
pub mod failure;
pub mod feature;
pub mod json;
pub mod laws;
pub mod number;
pub mod panel;
pub mod query;
pub mod request;
pub mod response;
pub mod status;
pub mod text;
pub mod token;
