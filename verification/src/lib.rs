//! Asynchronous operation dispatcher and engine-access scheduler for an
//! embedded single-threaded script engine.
//!
//! Scripts running in an engine instance start timers and network fetches.
//! Each request gets a correlation identifier and a promise on the script
//! side, and a pending operation on the native side. When the native work is
//! done the payload crosses back into the engine, under the engine's locker,
//! and settles the promise exactly once.
//!
//! The library decides and keeps the books; it starts no timer and opens no
//! connection. The embedder runs the native work, reports each task's end
//! with [`isolate::Isolate::complete`], drives the worker with
//! [`event_loop::Worker::poll`], and performs what the poll hands back:
//! callbacks to invoke, bodies to deliver, timers to start.
//!
//! - [`locker`]: mutual exclusion for entry into an engine instance
//! - [`pending`]: the set of operations in flight
//! - [`script`]: the promise table and the timer table
//! - [`fetch`]: from transport result to payload
//! - [`isolate`]: an engine instance and the dispatch bridge
//! - [`event_loop`]: the worker
//! - [`v8`]: opaque handles to engine values
//! - [`dex`], [`v8_jni`], [`ndk_graphics`]: planning of calls into the
//!   managed host runtime
//! - [`text`]: decoding of byte buffers

pub mod locker;
pub mod pending;
pub mod v8;
pub mod script;
pub mod fetch;
pub mod text;
pub mod v8_jni;
pub mod isolate;
pub mod event_loop;
pub mod dex;
pub mod ndk_graphics;
