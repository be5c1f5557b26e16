//! A bridge between a host that speaks length-prefixed UTF-16 strings and a
//! relational store: the host's batch of queries comes in as text, each
//! query's rows go back as JSON in the shape its request asked for, and every
//! failure is reported in a fixed wire form, per request or for the batch.

pub mod api;
pub mod convert;
pub mod db;
pub mod error;
pub mod json;
pub mod numeric;
pub mod ordered;
pub mod pack;
pub mod utf16;
pub mod vba_str_io;
