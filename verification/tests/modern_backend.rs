use hostobj::context::{Cx, Env};
use hostobj::engine::{Engine, PropKey, Property};
use hostobj::modern::Object;
use hostobj::modern::PropertyKey;
use hostobj::modern::This;
use hostobj::types::{Handle, JsArray, JsObject, JsValue, Value};

fn fresh_cx() -> (Cx, usize) {
    let mut eng = Engine::new();
    let w = eng.new_object(true, None);
    (Cx::new(eng, Env { raw: 40 }), w)
}

#[test]
fn modern_text_write_goes_through_context_token() {
    // the newer ABI's text-keyed write cannot even be called without a
    // context: the key capability takes the context itself
    let (mut cx, w) = fresh_cx();
    let obj = JsObject::from_raw(w);
    let wrote = obj.set(&mut cx, "name", Handle::new(JsValue::from_raw(17))).unwrap();
    assert!(wrote);
    let got = obj.get(&mut cx, "name").unwrap();
    assert_eq!(got.to_raw(), 17);
}

#[test]
fn modern_index_and_value_keys() {
    let (mut cx, w) = fresh_cx();
    let obj = JsObject::from_raw(w);
    let wrote = obj.set(&mut cx, 4u32, Handle::new(JsValue::from_raw(8))).unwrap();
    assert!(wrote);
    let got = obj.get(&mut cx, 4u32).unwrap();
    assert_eq!(got.to_raw(), 8);
    let key: Handle<JsValue> = Handle::new(JsValue::from_raw(300));
    let wrote2 = obj.set(&mut cx, key, Handle::new(JsValue::from_raw(9))).unwrap();
    assert!(wrote2);
    let key_again: Handle<JsValue> = Handle::new(JsValue::from_raw(300));
    let got2 = obj.get(&mut cx, key_again).unwrap();
    assert_eq!(got2.to_raw(), 9);
}

#[test]
fn modern_nonwritable_set_refused() {
    let mut eng = Engine::new();
    let w = eng.new_object(true, None);
    eng.define_property(
        w,
        Property {
            key: PropKey::Text(String::from("fixed")),
            value: 5,
            writable: false,
            enumerable: true,
            configurable: true,
            get_throws: false,
            set_throws: false,
        },
    );
    let mut cx = Cx::new(eng, Env { raw: 40 });
    let obj = JsObject::from_raw(w);
    let wrote = obj.set(&mut cx, "fixed", Handle::new(JsValue::from_raw(6))).unwrap();
    assert!(!wrote);
    let got = obj.get(&mut cx, "fixed").unwrap();
    assert_eq!(got.to_raw(), 5);
}

#[test]
fn modern_own_names_enumeration() {
    let mut eng = Engine::new();
    let w = eng.new_object(true, None);
    eng.define_property(
        w,
        Property {
            key: PropKey::Index(0),
            value: 1,
            writable: true,
            enumerable: true,
            configurable: true,
            get_throws: false,
            set_throws: false,
        },
    );
    eng.define_property(
        w,
        Property {
            key: PropKey::Index(1),
            value: 2,
            writable: true,
            enumerable: false,
            configurable: true,
            get_throws: false,
            set_throws: false,
        },
    );
    let mut cx = Cx::new(eng, Env { raw: 40 });
    let obj = JsObject::from_raw(w);
    let base = cx.eng.names_len();
    let arr = obj.get_own_property_names(&mut cx).unwrap();
    let count = cx.eng.names_len() - base;
    // only the enumerable slot is listed
    assert_eq!(count, 1);
    let list = JsArray::from_raw(arr.to_raw());
    let word = list.get(&mut cx, 0u32).unwrap().to_raw();
    let name = cx.eng.name_at(word).clone();
    assert!(matches!(name, PropKey::Index(0)));
}

#[test]
fn modern_receiver_conversion_takes_token() {
    let env = Env { raw: 41 };
    let obj = <JsObject as This>::as_this(env, 33);
    assert_eq!(obj.to_raw(), 33);
    let val = <JsValue as This>::as_this(env, 34);
    assert_eq!(val.to_raw(), 34);
}

#[test]
fn modern_get_needs_no_token_value() {
    // reading a text key is backend-symmetric: the token is threaded but
    // never extracted, so its value cannot matter
    let mut eng = Engine::new();
    let w = eng.new_object(true, None);
    eng.define_property(
        w,
        Property {
            key: PropKey::Text(String::from("k")),
            value: 12,
            writable: true,
            enumerable: true,
            configurable: true,
            get_throws: false,
            set_throws: false,
        },
    );
    let mut cx = Cx::new(eng, Env { raw: 0 });
    let obj = JsObject::from_raw(w);
    let mut slot: usize = 0;
    let ok = "k".get_from(&mut cx, &mut slot, w);
    assert!(ok);
    assert_eq!(slot, 12);
}
