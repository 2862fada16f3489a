//! The older ABI's typed capabilities.
//!
//! Every native call of this backend passes raw words only; no execution
//! context token exists anywhere in it.  A property key reaches the engine
//! directly, so the key capability here takes the engine itself, and the
//! object capability threads it out of the call's context.

use vstd::prelude::*;

use crate::context::Cx;
use crate::engine::Engine;
use crate::model::KeyModel;
use crate::types::{build_array, build_value, Handle, JsArray, JsObject, JsValue, PropertyAttributes, Throw, Value};

verus! {

/// A property key in an engine object: it can read and write the slot it
/// addresses, returning the raw ABI success flag.
pub trait PropertyKey: Sized {
    /// The key as the engine model sees it.
    spec fn key_model(&self) -> KeyModel;

    fn get_from(self, eng: &mut Engine, out: &mut usize, obj: usize) -> (ok: bool)
        requires
            old(eng)@.wf(),
            old(eng)@.obj_ok(obj),
        ensures
            final(eng)@.wf(),
            ok == old(eng)@.read_ok(obj, self.key_model()),
            ok ==> *final(eng) == *old(eng) && *final(out) == old(eng)@.read_value(
                obj,
                self.key_model(),
            ),
            !ok ==> final(eng)@ == old(eng)@.failed(),
    ;

    fn set_from(self, eng: &mut Engine, out: &mut bool, obj: usize, val: usize) -> (ok: bool)
        requires
            old(eng)@.wf(),
            old(eng)@.obj_ok(obj),
            old(eng)@.room_for(obj, self.key_model()),
        ensures
            final(eng)@.wf(),
            final(eng)@ == old(eng)@.write_result(obj, self.key_model(), val),
            ok == old(eng)@.write_ok(obj, self.key_model()),
            ok ==> *final(out) == old(eng)@.write_wrote(obj, self.key_model()),
    ;
}

impl PropertyKey for u32 {
    open spec fn key_model(&self) -> KeyModel {
        KeyModel::Index(*self)
    }

    fn get_from(self, eng: &mut Engine, out: &mut usize, obj: usize) -> (ok: bool) {
        eng.get_index(out, obj, self)
    }

    fn set_from(self, eng: &mut Engine, out: &mut bool, obj: usize, val: usize) -> (ok: bool) {
        eng.set_index(out, obj, self, val)
    }
}

impl<K: Value> PropertyKey for Handle<K> {
    open spec fn key_model(&self) -> KeyModel {
        KeyModel::Keyed(self.raw_model())
    }

    fn get_from(self, eng: &mut Engine, out: &mut usize, obj: usize) -> (ok: bool) {
        eng.get(out, obj, self.to_raw())
    }

    fn set_from(self, eng: &mut Engine, out: &mut bool, obj: usize, val: usize) -> (ok: bool) {
        eng.set(out, obj, self.to_raw(), val)
    }
}

impl<'a> PropertyKey for &'a str {
    open spec fn key_model(&self) -> KeyModel {
        KeyModel::Text(self@)
    }

    fn get_from(self, eng: &mut Engine, out: &mut usize, obj: usize) -> (ok: bool) {
        eng.get_string(out, obj, self)
    }

    fn set_from(self, eng: &mut Engine, out: &mut bool, obj: usize, val: usize) -> (ok: bool) {
        eng.set_string(out, obj, self, val)
    }
}

/// The capability of every object type: uniform typed property access.
pub trait Object: Value {
    /// Fetch the property at `key`; the pending-exception sentinel comes
    /// back exactly when the native read reports failure.
    fn get<K: PropertyKey>(self, cx: &mut Cx, key: K) -> (r: Result<Handle<JsValue>, Throw>)
        requires
            old(cx).eng@.wf(),
            old(cx).eng@.obj_ok(self.raw_model()),
        ensures
            final(cx).env == old(cx).env,
            final(cx).eng@.wf(),
            (r is Ok) == old(cx).eng@.read_ok(self.raw_model(), key.key_model()),
            r matches Ok(h) ==> final(cx).eng == old(cx).eng && h.raw_model() == old(
                cx,
            ).eng@.read_value(self.raw_model(), key.key_model()),
            r is Err ==> final(cx).eng@ == old(cx).eng@.failed(),
    {
        let mut slot: usize = 0;
        let ok = key.get_from(&mut cx.eng, &mut slot, self.to_raw());
        build_value(ok, slot)
    }

    /// Write `val` at `key`.  On native success the flag says whether the
    /// write took effect; a refused write is `Ok(false)`, never an error.
    fn set<K: PropertyKey, W: Value>(self, cx: &mut Cx, key: K, val: Handle<W>) -> (r: Result<
        bool,
        Throw,
    >)
        requires
            old(cx).eng@.wf(),
            old(cx).eng@.obj_ok(self.raw_model()),
            old(cx).eng@.room_for(self.raw_model(), key.key_model()),
        ensures
            final(cx).env == old(cx).env,
            final(cx).eng@.wf(),
            final(cx).eng@ == old(cx).eng@.write_result(
                self.raw_model(),
                key.key_model(),
                val.raw_model(),
            ),
            (r is Ok) == old(cx).eng@.write_ok(self.raw_model(), key.key_model()),
            r matches Ok(wrote) ==> wrote == old(cx).eng@.write_wrote(
                self.raw_model(),
                key.key_model(),
            ),
            r is Err ==> r == Err::<bool, Throw>(Throw),
    {
        let mut result = false;
        if key.set_from(&mut cx.eng, &mut result, self.to_raw(), val.to_raw()) {
            Ok(result)
        } else {
            Err(Throw)
        }
    }

    /// Enumerate all enumerable properties, own and inherited, into a
    /// fresh list object, in the engine's order.
    fn get_property_names(self, cx: &mut Cx) -> (r: Result<Handle<JsArray>, Throw>)
        requires
            old(cx).eng@.wf(),
            old(cx).eng@.obj_ok(self.raw_model()),
            old(cx).eng@.enum_budget(self.raw_model()),
        ensures
            final(cx).env == old(cx).env,
            final(cx).eng@.wf(),
            final(cx).eng@ == old(cx).eng@.published(old(cx).eng@.all_keys(self.raw_model())),
            r matches Ok(h) && h.raw_model() == old(cx).eng@.objects.len(),
    {
        let mut slot: usize = 0;
        let ok = cx.eng.get_property_names(&mut slot, self.to_raw());
        build_array(ok, slot)
    }

    /// Enumerate the object's own enumerable properties into a fresh list
    /// object, in the engine's order.
    fn get_own_property_names(self, cx: &mut Cx) -> (r: Result<Handle<JsArray>, Throw>)
        requires
            old(cx).eng@.wf(),
            old(cx).eng@.obj_ok(self.raw_model()),
        ensures
            final(cx).env == old(cx).env,
            final(cx).eng@.wf(),
            final(cx).eng@ == old(cx).eng@.published(old(cx).eng@.own_keys(self.raw_model())),
            r matches Ok(h) && h.raw_model() == old(cx).eng@.objects.len(),
    {
        let mut slot: usize = 0;
        let ok = cx.eng.get_own_property_names(&mut slot, self.to_raw());
        build_array(ok, slot)
    }

    /// Query the attribute bitmask of the property at a value key; never
    /// fails on a live reference.
    fn get_property_attributes<K: Value>(self, cx: &mut Cx, key: Handle<K>) -> (r:
        PropertyAttributes)
        requires
            old(cx).eng@.wf(),
            old(cx).eng@.obj_ok(self.raw_model()),
        ensures
            *final(cx) == *old(cx),
            r.attribs == old(cx).eng@.attr_mask(
                self.raw_model(),
                KeyModel::Keyed(key.raw_model()),
            ),
    {
        let attribs = cx.eng.get_property_attributes(self.to_raw(), key.to_raw());
        PropertyAttributes { attribs }
    }
}

impl Object for JsObject {
}

impl Object for JsArray {
}

/// The capability of types that can serve as a call's receiver.  The
/// caller has already validated the runtime type; the conversion itself
/// cannot fail.
pub trait This: Value {
    fn as_this(h: usize) -> (r: Self)
        ensures
            r.raw_model() == h,
    {
        Self::from_raw(h)
    }
}

impl This for JsValue {
}

impl This for JsObject {
}

} // verus!
