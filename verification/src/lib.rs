//! Support for serving Twirp APIs: remote procedure calls whose messages travel over HTTP as
//! JSON or Protocol Buffers.
//!
//! The [`server`] takes requests through their exchanges, [`error`] tells clients what went
//! wrong, [`timings`] says how long the phases of an exchange took, and [`codegen`] generates the
//! code of services. [`haberdasher`] is a small service with middleware around it.
//!
//! What comes from outside crates is stated where it is called, in [`clock`], [`extensions`],
//! [`headers`], [`json`] and [`haberdasher`], and is not proved.
pub mod clock;
pub mod codegen;
pub mod context;
pub mod decimal;
pub mod error;
pub mod extensions;
pub mod haberdasher;
pub mod headers;
pub mod json;
pub mod readings;
pub mod reply;
pub mod server;
pub mod timings;

pub use codegen::{service_generator, ServiceGenerator};
pub use context::Context;
pub use error::{
    bad_route, internal, invalid_argument, malformed, unknown, TwirpErrorCode, TwirpErrorResponse,
};
