use hostobj::context::{Cx, Env};
use hostobj::engine::{key_eq, Engine, PropKey, Property};
use hostobj::legacy::Object;
use hostobj::legacy::PropertyKey;
use hostobj::legacy::This;
use hostobj::model::{ATTR_CONFIGURABLE, ATTR_ENUMERABLE, ATTR_WRITABLE, UNDEFINED};
use hostobj::types::{Handle, JsArray, JsObject, JsValue, Value};

fn plain(key: PropKey, value: usize) -> Property {
    Property {
        key,
        value,
        writable: true,
        enumerable: true,
        configurable: true,
        get_throws: false,
        set_throws: false,
    }
}

fn object_value(raw: usize) -> Handle<JsValue> {
    Handle::new(JsValue::from_raw(raw))
}

#[test]
fn set_then_get_returns_written_value() {
    let mut eng = Engine::new();
    let w = eng.new_object(true, None);
    let mut cx = Cx::new(eng, Env { raw: 1 });
    let obj = JsObject::from_raw(w);
    let wrote = obj.set(&mut cx, "answer", object_value(42)).unwrap();
    assert!(wrote);
    let got = obj.get(&mut cx, "answer").unwrap();
    assert_eq!(got.to_raw(), 42);
}

#[test]
fn set_then_get_with_value_key() {
    let mut eng = Engine::new();
    let w = eng.new_object(true, None);
    let mut cx = Cx::new(eng, Env { raw: 1 });
    let obj = JsObject::from_raw(w);
    let key: Handle<JsValue> = object_value(77);
    let wrote = obj.set(&mut cx, key, object_value(5)).unwrap();
    assert!(wrote);
    let key_again: Handle<JsValue> = object_value(77);
    let got = obj.get(&mut cx, key_again).unwrap();
    assert_eq!(got.to_raw(), 5);
}

#[test]
fn nonwritable_set_refused_without_exception() {
    let mut eng = Engine::new();
    let w = eng.new_object(true, None);
    eng.define_property(
        w,
        Property {
            key: PropKey::Text(String::from("fixed")),
            value: 3,
            writable: false,
            enumerable: true,
            configurable: false,
            get_throws: false,
            set_throws: false,
        },
    );
    let mut cx = Cx::new(eng, Env { raw: 1 });
    let obj = JsObject::from_raw(w);
    let wrote = obj.set(&mut cx, "fixed", object_value(8)).unwrap();
    assert!(!wrote);
    assert!(!cx.eng.has_pending());
    let got = obj.get(&mut cx, "fixed").unwrap();
    assert_eq!(got.to_raw(), 3);
}

#[test]
fn throwing_getter_yields_sentinel() {
    let mut eng = Engine::new();
    let w = eng.new_object(true, None);
    eng.define_property(
        w,
        Property {
            key: PropKey::Text(String::from("trap")),
            value: 0,
            writable: true,
            enumerable: true,
            configurable: true,
            get_throws: true,
            set_throws: false,
        },
    );
    let mut cx = Cx::new(eng, Env { raw: 1 });
    let obj = JsObject::from_raw(w);
    let r = obj.get(&mut cx, "trap");
    assert!(r.is_err());
    assert!(cx.eng.has_pending());
}

#[test]
fn throwing_setter_yields_sentinel() {
    let mut eng = Engine::new();
    let w = eng.new_object(true, None);
    eng.define_property(
        w,
        Property {
            key: PropKey::Text(String::from("trap")),
            value: 0,
            writable: true,
            enumerable: true,
            configurable: true,
            get_throws: false,
            set_throws: true,
        },
    );
    let mut cx = Cx::new(eng, Env { raw: 1 });
    let obj = JsObject::from_raw(w);
    let r = obj.set(&mut cx, "trap", object_value(1));
    assert!(r.is_err());
    assert!(cx.eng.has_pending());
}

#[test]
fn absent_property_reads_undefined() {
    let mut eng = Engine::new();
    let w = eng.new_object(true, None);
    let mut cx = Cx::new(eng, Env { raw: 1 });
    let obj = JsObject::from_raw(w);
    let got = obj.get(&mut cx, "missing").unwrap();
    assert_eq!(got.to_raw(), UNDEFINED);
}

#[test]
fn own_names_are_subset_of_all_names() {
    let mut eng = Engine::new();
    let proto = eng.new_object(true, None);
    eng.define_property(proto, plain(PropKey::Text(String::from("inherited")), 1));
    eng.define_property(
        proto,
        Property {
            key: PropKey::Text(String::from("hidden")),
            value: 2,
            writable: true,
            enumerable: false,
            configurable: true,
            get_throws: false,
            set_throws: false,
        },
    );
    eng.define_property(proto, plain(PropKey::Text(String::from("shadowed")), 3));
    let w = eng.new_object(true, Some(proto));
    eng.define_property(w, plain(PropKey::Text(String::from("shadowed")), 4));
    eng.define_property(w, plain(PropKey::Index(0), 5));
    let mut cx = Cx::new(eng, Env { raw: 1 });
    let obj = JsObject::from_raw(w);

    let own_base = cx.eng.names_len();
    let own_arr = obj.get_own_property_names(&mut cx).unwrap();
    let own_count = cx.eng.names_len() - own_base;
    let all_base = cx.eng.names_len();
    let all_arr = obj.get_property_names(&mut cx).unwrap();
    let all_count = cx.eng.names_len() - all_base;

    assert_eq!(own_count, 2);
    assert_eq!(all_count, 3);
    assert!(own_count <= all_count);

    let own_list = JsArray::from_raw(own_arr.to_raw());
    let all_list = JsArray::from_raw(all_arr.to_raw());
    for j in 0..own_count {
        let own_word = own_list.get(&mut cx, j as u32).unwrap().to_raw();
        let mut found = false;
        for j2 in 0..all_count {
            let all_word = all_list.get(&mut cx, j2 as u32).unwrap().to_raw();
            let same = {
                let a = cx.eng.name_at(own_word).clone();
                let b = cx.eng.name_at(all_word).clone();
                key_eq(&a, &b)
            };
            if same {
                found = true;
            }
            if j2 == j {
                // own names come first, in the same order
                assert!(same);
            }
        }
        assert!(found);
    }
}

#[test]
fn attribute_mask_reports_descriptor_flags() {
    let mut eng = Engine::new();
    let w = eng.new_object(true, None);
    eng.define_property(
        w,
        Property {
            key: PropKey::Keyed(123),
            value: 9,
            writable: true,
            enumerable: false,
            configurable: true,
            get_throws: false,
            set_throws: false,
        },
    );
    let mut cx = Cx::new(eng, Env { raw: 1 });
    let obj = JsObject::from_raw(w);
    let key: Handle<JsValue> = object_value(123);
    let attrs = obj.get_property_attributes(&mut cx, key);
    assert_eq!(attrs.attribs, ATTR_WRITABLE | ATTR_CONFIGURABLE);
    assert!(attrs.writable());
    assert!(!attrs.enumerable());
    assert!(attrs.configurable());
    let missing: Handle<JsValue> = object_value(999);
    let none = obj.get_property_attributes(&mut cx, missing);
    assert_eq!(none.attribs, 0);
    assert_eq!(ATTR_ENUMERABLE, 2);
}

#[test]
fn scenario_plain_object_write() {
    // object {a: 1}, property writable, enumerable, configurable
    let mut eng = Engine::new();
    let w = eng.new_object(true, None);
    eng.define_property(w, plain(PropKey::Text(String::from("a")), 1));
    let mut cx = Cx::new(eng, Env { raw: 1 });
    let obj = JsObject::from_raw(w);
    let wrote = obj.set(&mut cx, "a", object_value(2)).unwrap();
    assert!(wrote);
    let got = obj.get(&mut cx, "a").unwrap();
    assert_eq!(got.to_raw(), 2);
}

#[test]
fn scenario_frozen_object_refuses_write() {
    // a frozen object with a single property b
    let mut eng = Engine::new();
    let w = eng.new_object(false, None);
    eng.define_property(
        w,
        Property {
            key: PropKey::Text(String::from("b")),
            value: 4,
            writable: false,
            enumerable: true,
            configurable: false,
            get_throws: false,
            set_throws: false,
        },
    );
    let mut cx = Cx::new(eng, Env { raw: 1 });
    let obj = JsObject::from_raw(w);
    let wrote = obj.set(&mut cx, "b", object_value(9)).unwrap();
    assert!(!wrote);
    let got = obj.get(&mut cx, "b").unwrap();
    assert_eq!(got.to_raw(), 4);
    // a fresh property is refused as well: the object is not extensible
    let wrote2 = obj.set(&mut cx, "c", object_value(1)).unwrap();
    assert!(!wrote2);
    let got2 = obj.get(&mut cx, "c").unwrap();
    assert_eq!(got2.to_raw(), UNDEFINED);
}

#[test]
fn scenario_index_keys_on_array() {
    // array [10, 20, 30]
    let mut eng = Engine::new();
    let w = eng.new_object(true, None);
    eng.define_property(w, plain(PropKey::Index(0), 10));
    eng.define_property(w, plain(PropKey::Index(1), 20));
    eng.define_property(w, plain(PropKey::Index(2), 30));
    let mut cx = Cx::new(eng, Env { raw: 1 });
    let arr = JsArray::from_raw(w);
    let got = arr.get(&mut cx, 0u32).unwrap();
    assert_eq!(got.to_raw(), 10);
    let wrote = arr.set(&mut cx, 0u32, object_value(99)).unwrap();
    assert!(wrote);
    let got2 = arr.get(&mut cx, 0u32).unwrap();
    assert_eq!(got2.to_raw(), 99);
    let got3 = arr.get(&mut cx, 2u32).unwrap();
    assert_eq!(got3.to_raw(), 30);
}

#[test]
fn inherited_property_read_through_prototype() {
    let mut eng = Engine::new();
    let proto = eng.new_object(true, None);
    eng.define_property(proto, plain(PropKey::Text(String::from("up")), 6));
    let w = eng.new_object(true, Some(proto));
    let mut cx = Cx::new(eng, Env { raw: 1 });
    let obj = JsObject::from_raw(w);
    let got = obj.get(&mut cx, "up").unwrap();
    assert_eq!(got.to_raw(), 6);
}

#[test]
fn legacy_text_write_needs_no_context() {
    // the older ABI's key capability reaches the engine alone; no
    // execution-context token exists anywhere in this test
    let mut eng = Engine::new();
    let w = eng.new_object(true, None);
    let mut wrote = false;
    let ok = "direct".set_from(&mut eng, &mut wrote, w, 11);
    assert!(ok);
    assert!(wrote);
    let mut slot: usize = 0;
    let ok2 = "direct".get_from(&mut eng, &mut slot, w);
    assert!(ok2);
    assert_eq!(slot, 11);
}

#[test]
fn legacy_receiver_conversion() {
    let obj = <JsObject as This>::as_this(21);
    assert_eq!(obj.to_raw(), 21);
    let val = <JsValue as This>::as_this(22);
    assert_eq!(val.to_raw(), 22);
}
