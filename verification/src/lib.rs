//! The core of a streaming chat-completion client: the wire types, the
//! encoding of requests, the decoding of answers, the framing of streamed
//! events, and the bridge between the task that receives and the user
//! interface that shows. Every function states what it returns, and Verus
//! proves it.
//!
//! Nothing here does I/O. A caller posts what [`Client`] builds, hands the
//! buffers of the reply to a [`Worker`], queues what it returns, and on each
//! tick hands what the queue holds to a [`Bridge`].

pub mod bridge;
pub mod client;
pub mod display;
pub mod error;
pub mod framer;
pub mod framing;
pub mod framing_laws;
pub mod json;
pub mod reading;
pub mod reassembly;
pub mod reassembly_laws;
pub mod request;
pub mod response;
pub mod stream_laws;
pub mod streaming;
pub mod tags;
pub mod wire_laws;
pub mod worker;

pub use bridge::Bridge;
pub use client::Client;
pub use error::{DecodeError, RequestError, SessionError};
pub use framer::Framer;
pub use request::{ChatCompletionRequest, Message};
pub use response::Response;
pub use tags::{FinishReason, Model, Role};
pub use worker::{ReceivedDelta, Worker};
