//! The newer ABI's typed capabilities.
//!
//! The same logical operations as [`crate::legacy`], against the ABI that
//! threads an execution-context token.  Every key operation takes the
//! call's context; only the text-keyed write actually extracts the token
//! and passes it into the native call — reading a text key, and both
//! directions of index and value keys, never need it.  The attribute query
//! and the inherited-name enumeration have no native entry point in this
//! ABI, so the object capability does not offer them.

use vstd::prelude::*;

use crate::context::Cx;
use crate::model::KeyModel;
use crate::types::{build_array, build_value, Handle, JsArray, JsObject, JsValue, Throw, Value};

verus! {

/// A property key in an engine object: it can read and write the slot it
/// addresses through the call's context, returning the raw ABI success
/// flag.
pub trait PropertyKey: Sized {
    /// The key as the engine model sees it.
    spec fn key_model(&self) -> KeyModel;

    fn get_from(self, cx: &mut Cx, out: &mut usize, obj: usize) -> (ok: bool)
        requires
            old(cx).eng@.wf(),
            old(cx).eng@.obj_ok(obj),
        ensures
            final(cx).env == old(cx).env,
            final(cx).eng@.wf(),
            ok == old(cx).eng@.read_ok(obj, self.key_model()),
            ok ==> final(cx).eng == old(cx).eng && *final(out) == old(cx).eng@.read_value(
                obj,
                self.key_model(),
            ),
            !ok ==> final(cx).eng@ == old(cx).eng@.failed(),
    ;

    fn set_from(self, cx: &mut Cx, out: &mut bool, obj: usize, val: usize) -> (ok: bool)
        requires
            old(cx).eng@.wf(),
            old(cx).eng@.obj_ok(obj),
            old(cx).eng@.room_for(obj, self.key_model()),
        ensures
            final(cx).env == old(cx).env,
            final(cx).eng@.wf(),
            final(cx).eng@ == old(cx).eng@.write_result(obj, self.key_model(), val),
            ok == old(cx).eng@.write_ok(obj, self.key_model()),
            ok ==> *final(out) == old(cx).eng@.write_wrote(obj, self.key_model()),
    ;
}

impl PropertyKey for u32 {
    open spec fn key_model(&self) -> KeyModel {
        KeyModel::Index(*self)
    }

    fn get_from(self, cx: &mut Cx, out: &mut usize, obj: usize) -> (ok: bool) {
        cx.eng.get_index(out, obj, self)
    }

    fn set_from(self, cx: &mut Cx, out: &mut bool, obj: usize, val: usize) -> (ok: bool) {
        cx.eng.set_index(out, obj, self, val)
    }
}

impl<K: Value> PropertyKey for Handle<K> {
    open spec fn key_model(&self) -> KeyModel {
        KeyModel::Keyed(self.raw_model())
    }

    fn get_from(self, cx: &mut Cx, out: &mut usize, obj: usize) -> (ok: bool) {
        cx.eng.get(out, obj, self.to_raw())
    }

    fn set_from(self, cx: &mut Cx, out: &mut bool, obj: usize, val: usize) -> (ok: bool) {
        cx.eng.set(out, obj, self.to_raw(), val)
    }
}

impl<'a> PropertyKey for &'a str {
    open spec fn key_model(&self) -> KeyModel {
        KeyModel::Text(self@)
    }

    fn get_from(self, cx: &mut Cx, out: &mut usize, obj: usize) -> (ok: bool) {
        cx.eng.get_string(out, obj, self)
    }

    fn set_from(self, cx: &mut Cx, out: &mut bool, obj: usize, val: usize) -> (ok: bool) {
        let env = cx.env();
        cx.eng.set_string_env(env.to_raw(), out, obj, self, val)
    }
}

/// The capability of every object type: uniform typed property access.
pub trait Object: Value {
    /// Fetch the property at `key`; the pending-exception sentinel comes
    /// back exactly when the native read reports failure.
    fn get<K: PropertyKey>(self, cx: &mut Cx, key: K) -> (r: Result<Handle<JsValue>, Throw>)
        requires
            old(cx).eng@.wf(),
            old(cx).eng@.obj_ok(self.raw_model()),
        ensures
            final(cx).env == old(cx).env,
            final(cx).eng@.wf(),
            (r is Ok) == old(cx).eng@.read_ok(self.raw_model(), key.key_model()),
            r matches Ok(h) ==> final(cx).eng == old(cx).eng && h.raw_model() == old(
                cx,
            ).eng@.read_value(self.raw_model(), key.key_model()),
            r is Err ==> final(cx).eng@ == old(cx).eng@.failed(),
    {
        let mut slot: usize = 0;
        let ok = key.get_from(cx, &mut slot, self.to_raw());
        build_value(ok, slot)
    }

    /// Enumerate the object's own enumerable properties into a fresh list
    /// object, in the engine's order.
    fn get_own_property_names(self, cx: &mut Cx) -> (r: Result<Handle<JsArray>, Throw>)
        requires
            old(cx).eng@.wf(),
            old(cx).eng@.obj_ok(self.raw_model()),
        ensures
            final(cx).env == old(cx).env,
            final(cx).eng@.wf(),
            final(cx).eng@ == old(cx).eng@.published(old(cx).eng@.own_keys(self.raw_model())),
            r matches Ok(h) && h.raw_model() == old(cx).eng@.objects.len(),
    {
        let mut slot: usize = 0;
        let ok = cx.eng.get_own_property_names(&mut slot, self.to_raw());
        build_array(ok, slot)
    }

    /// Write `val` at `key`.  On native success the flag says whether the
    /// write took effect; a refused write is `Ok(false)`, never an error.
    fn set<K: PropertyKey, W: Value>(self, cx: &mut Cx, key: K, val: Handle<W>) -> (r: Result<
        bool,
        Throw,
    >)
        requires
            old(cx).eng@.wf(),
            old(cx).eng@.obj_ok(self.raw_model()),
            old(cx).eng@.room_for(self.raw_model(), key.key_model()),
        ensures
            final(cx).env == old(cx).env,
            final(cx).eng@.wf(),
            final(cx).eng@ == old(cx).eng@.write_result(
                self.raw_model(),
                key.key_model(),
                val.raw_model(),
            ),
            (r is Ok) == old(cx).eng@.write_ok(self.raw_model(), key.key_model()),
            r matches Ok(wrote) ==> wrote == old(cx).eng@.write_wrote(
                self.raw_model(),
                key.key_model(),
            ),
            r is Err ==> r == Err::<bool, Throw>(Throw),
    {
        let mut result = false;
        if key.set_from(cx, &mut result, self.to_raw(), val.to_raw()) {
            Ok(result)
        } else {
            Err(Throw)
        }
    }
}

impl Object for JsObject {
}

impl Object for JsArray {
}

/// The capability of types that can serve as a call's receiver.  In this
/// ABI the conversion also takes the live environment token, so the typed
/// wrapper is tied to the call's environment; it cannot fail.
pub trait This: Value {
    fn as_this(env: crate::context::Env, h: usize) -> (r: Self)
        ensures
            r.raw_model() == h,
    {
        let _ = env;
        Self::from_raw(h)
    }
}

impl This for JsValue {
}

impl This for JsObject {
}

} // verus!
