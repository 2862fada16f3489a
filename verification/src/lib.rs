//! A typed, safe property-access layer over a host engine's native object
//! representation.
//!
//! The engine's call surface is modelled by [`engine::Engine`], whose entry
//! points keep the native ABI's shape: a raw success flag plus an
//! out-parameter.  On top of it, two backend modules offer one uniform set of
//! typed operations:
//!
//! * [`legacy`] — the older ABI, which passes raw words only;
//! * [`modern`] — the newer ABI, which threads an execution-context token
//!   through every text-keyed write.
//!
//! Each backend exposes the same three capabilities: `PropertyKey` (a typed
//! key that can address a property slot), `Object` (typed get / set /
//! enumerate / attribute query), and `This` (conversion of a raw receiver
//! into its typed wrapper).  The only failure channel is [`types::Throw`],
//! the pending-exception sentinel: it carries no payload, because the thrown
//! value stays recorded in the engine itself.

pub mod context;
pub mod engine;
pub mod laws;
pub mod legacy;
pub mod model;
pub mod modern;
pub mod types;
