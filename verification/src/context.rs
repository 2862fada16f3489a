//! The execution context a call runs in.
//!
//! A [`Cx`] owns the engine state for the duration of a call chain and
//! carries the raw environment token that the newer ABI demands.  The
//! older ABI's operations reach only the engine inside it; the token is
//! reachable solely through [`Cx::env`], which the newer backend's
//! text-keyed write path calls.

use vstd::prelude::*;

use crate::engine::Engine;

verus! {

/// The execution-context token of the newer ABI: a raw environment word.
#[derive(Clone, Copy)]
pub struct Env {
    pub raw: usize,
}

impl Env {
    pub fn to_raw(&self) -> (r: usize)
        ensures
            r == self.raw,
    {
        self.raw
    }
}

/// The current call's execution context: the engine it runs against, and
/// the environment token of the newer ABI.
pub struct Cx {
    pub eng: Engine,
    pub env: Env,
}

impl Cx {
    pub fn new(eng: Engine, env: Env) -> (cx: Cx)
        ensures
            cx.eng == eng,
            cx.env == env,
    {
        Cx { eng, env }
    }

    /// The newer ABI's accessor for the live environment token.
    pub fn env(&self) -> (e: Env)
        ensures
            e == self.env,
    {
        self.env
    }
}

} // verus!
