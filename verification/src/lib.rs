//! Core of a structured, span-based diagnostic instrumentation framework.
//!
//! Instrumentation sites emit spans and point events, each described by static
//! [`metadata::Metadata`] and decorated with typed fields. This crate holds the
//! runtime substrate behind them: callsite interest caching, dispatcher
//! routing, span identifiers and their lifecycle, the shared span registry,
//! layer composition and reloadable filters, together with what a few
//! exporters make of spans and events: folded stacks for flamegraphs, syslog
//! records, the names of rolling log files and the span data that is handed
//! to OpenTelemetry.
//!
//! Nothing here reads a clock, opens a file or takes a lock: times come in as
//! numbers, and what is to be written goes out as text.
pub mod text;
pub mod metadata;
pub mod field;
pub mod span;
pub mod event;
pub mod collect;
pub mod callsite;
pub mod instrument;
pub mod registry;
pub mod dispatch;
pub mod layer;
pub mod filter;
pub mod flame;
pub mod rolling;
pub mod syslog;
pub mod error;
pub mod otel;
