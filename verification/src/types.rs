//! The typed wrappers around raw engine words, and the shared plumbing
//! that turns the native ABI's boolean-plus-out-parameter signalling into a
//! structured result.

use vstd::prelude::*;

use crate::model::{mask_configurable, mask_enumerable, mask_writable};

verus! {

/// The pending-exception sentinel: the engine has already recorded a
/// thrown exception; propagate, do not inspect.
#[derive(Clone, Copy, PartialEq, Eq, Structural, Debug)]
pub struct Throw;

/// The capability of every typed wrapper around a raw engine value word.
pub trait Value: Sized {
    /// The raw word the wrapper stands for.
    spec fn raw_model(&self) -> usize;

    fn to_raw(&self) -> (r: usize)
        ensures
            r == self.raw_model(),
    ;

    fn from_raw(raw: usize) -> (r: Self)
        ensures
            r.raw_model() == raw,
    ;
}

/// A value of any engine type.
#[derive(Clone, Copy)]
pub struct JsValue {
    pub raw: usize,
}

impl Value for JsValue {
    open spec fn raw_model(&self) -> usize {
        self.raw
    }

    fn to_raw(&self) -> usize {
        self.raw
    }

    fn from_raw(raw: usize) -> Self {
        JsValue { raw }
    }
}

/// An object value.
#[derive(Clone, Copy)]
pub struct JsObject {
    pub raw: usize,
}

impl Value for JsObject {
    open spec fn raw_model(&self) -> usize {
        self.raw
    }

    fn to_raw(&self) -> usize {
        self.raw
    }

    fn from_raw(raw: usize) -> Self {
        JsObject { raw }
    }
}

/// An array value, as the enumeration calls hand it out.
#[derive(Clone, Copy)]
pub struct JsArray {
    pub raw: usize,
}

impl Value for JsArray {
    open spec fn raw_model(&self) -> usize {
        self.raw
    }

    fn to_raw(&self) -> usize {
        self.raw
    }

    fn from_raw(raw: usize) -> Self {
        JsArray { raw }
    }
}

/// A scope-bound reference to a typed engine value.  The scope mechanism
/// itself lives outside this layer; here a handle is the typed view of one
/// raw word.
pub struct Handle<T> {
    pub value: T,
}

impl<T: Value> Handle<T> {
    pub open spec fn raw_model(&self) -> usize {
        self.value.raw_model()
    }

    pub fn new(value: T) -> (h: Self)
        ensures
            h.value == value,
    {
        Handle { value }
    }

    pub fn to_raw(&self) -> (r: usize)
        ensures
            r == self.raw_model(),
    {
        self.value.to_raw()
    }
}

/// The shared out-parameter conversion: a raw success flag plus a filled
/// out-slot become a typed result, `false` becoming the pending-exception
/// sentinel.
pub fn build_value(ok: bool, out: usize) -> (r: Result<Handle<JsValue>, Throw>)
    ensures
        ok == (r is Ok),
        ok ==> r == Ok::<Handle<JsValue>, Throw>(Handle { value: JsValue { raw: out } }),
        !ok ==> r == Err::<Handle<JsValue>, Throw>(Throw),
{
    if ok {
        Ok(Handle::new(JsValue::from_raw(out)))
    } else {
        Err(Throw)
    }
}

/// The same conversion for the enumeration calls, whose out-slot holds an
/// array word.
pub fn build_array(ok: bool, out: usize) -> (r: Result<Handle<JsArray>, Throw>)
    ensures
        ok == (r is Ok),
        ok ==> r == Ok::<Handle<JsArray>, Throw>(Handle { value: JsArray { raw: out } }),
        !ok ==> r == Err::<Handle<JsArray>, Throw>(Throw),
{
    if ok {
        Ok(Handle::new(JsArray::from_raw(out)))
    } else {
        Err(Throw)
    }
}

/// The bitmask an attribute query yields, read-only.
#[derive(Clone, Copy)]
pub struct PropertyAttributes {
    pub attribs: u32,
}

impl PropertyAttributes {
    pub fn writable(&self) -> (r: bool)
        ensures
            r == mask_writable(self.attribs),
    {
        self.attribs & crate::model::ATTR_WRITABLE != 0
    }

    pub fn enumerable(&self) -> (r: bool)
        ensures
            r == mask_enumerable(self.attribs),
    {
        self.attribs & crate::model::ATTR_ENUMERABLE != 0
    }

    pub fn configurable(&self) -> (r: bool)
        ensures
            r == mask_configurable(self.attribs),
    {
        self.attribs & crate::model::ATTR_CONFIGURABLE != 0
    }
}

} // verus!
