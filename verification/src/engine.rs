//! The native call surface, as an explicit state value.
//!
//! [`Engine`] holds the object graph that the native calls operate on, and
//! each entry point keeps the ABI's shape — a raw boolean success flag plus
//! an out-parameter — while stating its effect on the [`crate::model`]
//! view.  Raw words are `usize`: an object word indexes the object heap, a
//! name word indexes the heap of handed-out key names, and any other word
//! is opaque to this layer.

use vstd::prelude::*;

use crate::model::{
    has_key, key_index, keys_unique, prop_at, EngineModel, KeyModel, ObjectModel, PropModel,
    UNDEFINED,
};

verus! {

/// A property key in its executable form.
pub enum PropKey {
    Index(u32),
    Text(String),
    Keyed(usize),
}

impl View for PropKey {
    type V = KeyModel;

    open spec fn view(&self) -> KeyModel {
        match self {
            PropKey::Index(i) => KeyModel::Index(*i),
            PropKey::Text(s) => KeyModel::Text(s@),
            PropKey::Keyed(w) => KeyModel::Keyed(*w),
        }
    }
}

impl Clone for PropKey {
    fn clone(&self) -> (r: Self)
        ensures
            r == *self,
    {
        match self {
            PropKey::Index(i) => PropKey::Index(*i),
            PropKey::Text(s) => PropKey::Text(s.clone()),
            PropKey::Keyed(w) => PropKey::Keyed(*w),
        }
    }
}

/// Whether two keys address the same property slot.
pub fn key_eq(a: &PropKey, b: &PropKey) -> (r: bool)
    ensures
        r == (a@ == b@),
{
    match (a, b) {
        (PropKey::Index(x), PropKey::Index(y)) => x == y,
        (PropKey::Text(x), PropKey::Text(y)) => x.eq(y),
        (PropKey::Keyed(x), PropKey::Keyed(y)) => x == y,
        _ => false,
    }
}

/// One property slot of an object.
pub struct Property {
    pub key: PropKey,
    pub value: usize,
    pub writable: bool,
    pub enumerable: bool,
    pub configurable: bool,
    pub get_throws: bool,
    pub set_throws: bool,
}

impl View for Property {
    type V = PropModel;

    open spec fn view(&self) -> PropModel {
        PropModel {
            key: self.key@,
            value: self.value,
            writable: self.writable,
            enumerable: self.enumerable,
            configurable: self.configurable,
            get_throws: self.get_throws,
            set_throws: self.set_throws,
        }
    }
}

/// The model of a property list.
pub open spec fn props_model(props: Seq<Property>) -> Seq<PropModel> {
    props.map_values(|p: Property| p@)
}

/// One engine-native object.
pub struct ObjectRec {
    pub extensible: bool,
    pub proto: Option<usize>,
    pub props: Vec<Property>,
}

impl View for ObjectRec {
    type V = ObjectModel;

    open spec fn view(&self) -> ObjectModel {
        ObjectModel {
            extensible: self.extensible,
            proto: self.proto,
            props: props_model(self.props@),
        }
    }
}

/// The engine state: the object heap, the heap of handed-out key names,
/// and the pending-exception flag.
pub struct Engine {
    pub objects: Vec<ObjectRec>,
    pub names: Vec<PropKey>,
    pub pending: bool,
}

impl View for Engine {
    type V = EngineModel;

    open spec fn view(&self) -> EngineModel {
        EngineModel {
            objects: self.objects@.map_values(|o: ObjectRec| o@),
            names: self.names@.map_values(|k: PropKey| k@),
            pending: self.pending,
        }
    }
}

/// The first slot keyed `key`, which under unique keys is the only one.
fn find_prop(props: &Vec<Property>, key: &PropKey) -> (r: Option<usize>)
    requires
        keys_unique(props_model(props@)),
    ensures
        match r {
            Some(i) => {
                &&& (i as int) < props@.len()
                &&& has_key(props_model(props@), key@)
                &&& key_index(props_model(props@), key@) == i as int
                &&& prop_at(props_model(props@), key@) == props_model(props@)[i as int]
            },
            None => !has_key(props_model(props@), key@),
        },
{
    let ghost pm = props_model(props@);
    let mut i: usize = 0;
    while i < props.len()
        invariant
            i <= props@.len(),
            pm == props_model(props@),
            keys_unique(pm),
            forall|j: int| 0 <= j < i ==> (#[trigger] pm[j].key) != key@,
        decreases props@.len() - i,
    {
        if key_eq(&props[i].key, key) {
            proof {
                assert(pm[i as int].key == key@);
                assert(has_key(pm, key@));
                let j = key_index(pm, key@);
                assert(0 <= j < pm.len() && pm[j].key == key@);
                assert(j == i as int);
            }
            return Some(i);
        }
        i += 1;
    }
    None
}

/// Taking an element out and putting another back in its place is an update.
proof fn lemma_remove_insert_update<A>(s: Seq<A>, i: int, x: A)
    requires
        0 <= i < s.len(),
    ensures
        s.remove(i).insert(i, x) =~= s.update(i, x),
{
    let lhs = s.remove(i).insert(i, x);
    let rhs = s.update(i, x);
    assert forall|j: int| 0 <= j < rhs.len() implies lhs[j] == rhs[j] by {
        if j < i {
            assert(s.remove(i)[j] == s[j]);
        } else if j > i {
            assert(s.remove(i)[j - 1] == s[j]);
        }
    }
}

impl Engine {
    /// The slot a read on `obj` reaches, as (throws-on-read, value word).
    fn search_exec(&self, obj: usize, key: &PropKey) -> (r: Option<(bool, usize)>)
        requires
            self@.wf(),
            self@.obj_ok(obj),
        ensures
            self@.search(obj, key@) matches Some(p) ==> r == Some((p.get_throws, p.value)),
            self@.search(obj, key@) is None ==> r is None,
    {
        match find_prop(&self.objects[obj].props, key) {
            Some(i) => {
                let p = &self.objects[obj].props[i];
                Some((p.get_throws, p.value))
            },
            None => {
                match self.objects[obj].proto {
                    Some(pw) => {
                        match find_prop(&self.objects[pw].props, key) {
                            Some(j) => {
                                let p = &self.objects[pw].props[j];
                                Some((p.get_throws, p.value))
                            },
                            None => None,
                        }
                    },
                    None => None,
                }
            },
        }
    }

    /// The shared read path behind the three get entry points.
    fn read_keyed(&mut self, out: &mut usize, obj: usize, key: &PropKey) -> (ok: bool)
        requires
            old(self)@.wf(),
            old(self)@.obj_ok(obj),
        ensures
            final(self)@.wf(),
            ok == old(self)@.read_ok(obj, key@),
            ok ==> *final(self) == *old(self) && *final(out) == old(self)@.read_value(obj, key@),
            !ok ==> final(self)@ == old(self)@.failed(),
    {
        match self.search_exec(obj, key) {
            Some(found) => {
                let (throws, value) = found;
                if throws {
                    self.pending = true;
                    proof {
                        assert(self@ =~= old(self)@.failed());
                    }
                    false
                } else {
                    *out = value;
                    true
                }
            },
            None => {
                *out = UNDEFINED;
                true
            },
        }
    }

    /// The shared write path behind the three set entry points.
    fn write_keyed(&mut self, out: &mut bool, obj: usize, key: &PropKey, val: usize) -> (ok: bool)
        requires
            old(self)@.wf(),
            old(self)@.obj_ok(obj),
            old(self)@.room_for(obj, key@),
        ensures
            final(self)@.wf(),
            final(self)@ == old(self)@.write_result(obj, key@, val),
            ok == old(self)@.write_ok(obj, key@),
            ok ==> *final(out) == old(self)@.write_wrote(obj, key@),
    {
        proof {
            crate::model::lemma_write_result_wf(old(self)@, obj, key@, val);
        }
        let ghost objects0 = self.objects@;
        let found = find_prop(&self.objects[obj].props, key);
        match found {
            Some(i) => {
                if self.objects[obj].props[i].set_throws {
                    self.pending = true;
                    proof {
                        assert(self@ =~= old(self)@.failed());
                    }
                    false
                } else if !self.objects[obj].props[i].writable {
                    *out = false;
                    true
                } else {
                    let ghost props0 = self.objects@[obj as int].props@;
                    let mut rec = self.objects.remove(obj);
                    let mut slot = rec.props.remove(i);
                    slot.value = val;
                    rec.props.insert(i, slot);
                    self.objects.insert(obj, rec);
                    *out = true;
                    proof {
                        lemma_remove_insert_update(props0, i as int, slot);
                        lemma_remove_insert_update(objects0, obj as int, rec);
                        assert(props_model(props0.update(i as int, slot)) =~= props_model(
                            props0,
                        ).update(i as int, slot@));
                        assert(self.objects@.map_values(|o: ObjectRec| o@) =~= objects0.map_values(
                            |o: ObjectRec| o@,
                        ).update(obj as int, rec@));
                        assert(self@ =~= old(self)@.write_result(obj, key@, val));
                    }
                    true
                }
            },
            None => {
                if !self.objects[obj].extensible {
                    *out = false;
                    true
                } else {
                    let ghost props0 = self.objects@[obj as int].props@;
                    let mut rec = self.objects.remove(obj);
                    rec.props.push(
                        Property {
                            key: key.clone(),
                            value: val,
                            writable: true,
                            enumerable: true,
                            configurable: true,
                            get_throws: false,
                            set_throws: false,
                        },
                    );
                    self.objects.insert(obj, rec);
                    *out = true;
                    proof {
                        lemma_remove_insert_update(objects0, obj as int, rec);
                        assert(props_model(rec.props@) =~= props_model(props0).push(
                            PropModel::fresh(key@, val),
                        ));
                        assert(self.objects@.map_values(|o: ObjectRec| o@) =~= objects0.map_values(
                            |o: ObjectRec| o@,
                        ).update(obj as int, rec@));
                        assert(self@ =~= old(self)@.write_result(obj, key@, val));
                    }
                    true
                }
            },
        }
    }

    /// Native entry point: read the property at an index key.
    pub fn get_index(&mut self, out: &mut usize, obj: usize, index: u32) -> (ok: bool)
        requires
            old(self)@.wf(),
            old(self)@.obj_ok(obj),
        ensures
            final(self)@.wf(),
            ok == old(self)@.read_ok(obj, KeyModel::Index(index)),
            ok ==> *final(self) == *old(self) && *final(out) == old(self)@.read_value(
                obj,
                KeyModel::Index(index),
            ),
            !ok ==> final(self)@ == old(self)@.failed(),
    {
        let k = PropKey::Index(index);
        self.read_keyed(out, obj, &k)
    }

    /// Native entry point: read the property at a value-word key.
    pub fn get(&mut self, out: &mut usize, obj: usize, key: usize) -> (ok: bool)
        requires
            old(self)@.wf(),
            old(self)@.obj_ok(obj),
        ensures
            final(self)@.wf(),
            ok == old(self)@.read_ok(obj, KeyModel::Keyed(key)),
            ok ==> *final(self) == *old(self) && *final(out) == old(self)@.read_value(
                obj,
                KeyModel::Keyed(key),
            ),
            !ok ==> final(self)@ == old(self)@.failed(),
    {
        let k = PropKey::Keyed(key);
        self.read_keyed(out, obj, &k)
    }

    /// Native entry point: read the property at a text key.
    pub fn get_string(&mut self, out: &mut usize, obj: usize, name: &str) -> (ok: bool)
        requires
            old(self)@.wf(),
            old(self)@.obj_ok(obj),
        ensures
            final(self)@.wf(),
            ok == old(self)@.read_ok(obj, KeyModel::Text(name@)),
            ok ==> *final(self) == *old(self) && *final(out) == old(self)@.read_value(
                obj,
                KeyModel::Text(name@),
            ),
            !ok ==> final(self)@ == old(self)@.failed(),
    {
        let k = PropKey::Text(name.to_owned());
        self.read_keyed(out, obj, &k)
    }

    /// Native entry point: write the property at an index key.
    pub fn set_index(&mut self, out: &mut bool, obj: usize, index: u32, val: usize) -> (ok: bool)
        requires
            old(self)@.wf(),
            old(self)@.obj_ok(obj),
            old(self)@.room_for(obj, KeyModel::Index(index)),
        ensures
            final(self)@.wf(),
            final(self)@ == old(self)@.write_result(obj, KeyModel::Index(index), val),
            ok == old(self)@.write_ok(obj, KeyModel::Index(index)),
            ok ==> *final(out) == old(self)@.write_wrote(obj, KeyModel::Index(index)),
    {
        let k = PropKey::Index(index);
        self.write_keyed(out, obj, &k, val)
    }

    /// Native entry point: write the property at a value-word key.
    pub fn set(&mut self, out: &mut bool, obj: usize, key: usize, val: usize) -> (ok: bool)
        requires
            old(self)@.wf(),
            old(self)@.obj_ok(obj),
            old(self)@.room_for(obj, KeyModel::Keyed(key)),
        ensures
            final(self)@.wf(),
            final(self)@ == old(self)@.write_result(obj, KeyModel::Keyed(key), val),
            ok == old(self)@.write_ok(obj, KeyModel::Keyed(key)),
            ok ==> *final(out) == old(self)@.write_wrote(obj, KeyModel::Keyed(key)),
    {
        let k = PropKey::Keyed(key);
        self.write_keyed(out, obj, &k, val)
    }

    /// Native entry point of the older ABI: write the property at a text
    /// key.  No context token exists in that ABI.
    pub fn set_string(&mut self, out: &mut bool, obj: usize, name: &str, val: usize) -> (ok: bool)
        requires
            old(self)@.wf(),
            old(self)@.obj_ok(obj),
            old(self)@.room_for(obj, KeyModel::Text(name@)),
        ensures
            final(self)@.wf(),
            final(self)@ == old(self)@.write_result(obj, KeyModel::Text(name@), val),
            ok == old(self)@.write_ok(obj, KeyModel::Text(name@)),
            ok ==> *final(out) == old(self)@.write_wrote(obj, KeyModel::Text(name@)),
    {
        let k = PropKey::Text(name.to_owned());
        self.write_keyed(out, obj, &k, val)
    }

    /// Native entry point of the newer ABI: write the property at a text
    /// key.  The call demands the raw execution-context token; the token
    /// does not change what the write does.
    pub fn set_string_env(
        &mut self,
        env: usize,
        out: &mut bool,
        obj: usize,
        name: &str,
        val: usize,
    ) -> (ok: bool)
        requires
            old(self)@.wf(),
            old(self)@.obj_ok(obj),
            old(self)@.room_for(obj, KeyModel::Text(name@)),
        ensures
            final(self)@.wf(),
            final(self)@ == old(self)@.write_result(obj, KeyModel::Text(name@), val),
            ok == old(self)@.write_ok(obj, KeyModel::Text(name@)),
            ok ==> *final(out) == old(self)@.write_wrote(obj, KeyModel::Text(name@)),
    {
        let _ = env;
        let k = PropKey::Text(name.to_owned());
        self.write_keyed(out, obj, &k, val)
    }

    /// Native entry point: query the attribute bitmask at a value-word
    /// key.  Infallible: an attribute query on a live reference never
    /// leaves an exception behind.
    pub fn get_property_attributes(&self, obj: usize, key: usize) -> (m: u32)
        requires
            self@.wf(),
            self@.obj_ok(obj),
        ensures
            m == self@.attr_mask(obj, KeyModel::Keyed(key)),
    {
        let k = PropKey::Keyed(key);
        proof {
            assert(self@.objects[obj as int].wf_in(self@.objects.len() as int));
        }
        match find_prop(&self.objects[obj].props, &k) {
            Some(i) => attr_word(&self.objects[obj].props[i]),
            None => {
                match self.objects[obj].proto {
                    Some(pw) => {
                        proof {
                            assert(self@.objects[pw as int].wf_in(self@.objects.len() as int));
                        }
                        match find_prop(&self.objects[pw].props, &k) {
                            Some(j) => attr_word(&self.objects[pw].props[j]),
                            None => 0,
                        }
                    },
                    None => 0,
                }
            },
        }
    }
}

impl Engine {
    /// The shared enumeration path: hand out the own names of `obj`, or
    /// the own names followed by the unshadowed prototype names.
    fn publish_names(&mut self, out: &mut usize, obj: usize, own_only: bool) -> (ok: bool)
        requires
            old(self)@.wf(),
            old(self)@.obj_ok(obj),
            !own_only ==> old(self)@.enum_budget(obj),
        ensures
            final(self)@.wf(),
            ok,
            final(self)@ == old(self)@.published(
                if own_only {
                    old(self)@.own_keys(obj)
                } else {
                    old(self)@.all_keys(obj)
                },
            ),
            *final(out) == old(self)@.objects.len(),
    {
        let ghost m0 = self@;
        let ghost ownm = m0.objects[obj as int].props;
        let ghost names0 = m0.names;
        let base = self.names.len();
        let mut list: Vec<Property> = Vec::new();
        let n = self.objects[obj].props.len();
        proof {
            assert(m0.objects[obj as int].wf_in(m0.objects.len() as int));
            assert(ownm.take(0) =~= Seq::<PropModel>::empty());
            assert(props_model(list@) =~= crate::model::name_list(
                crate::model::enum_keys(ownm.take(0)),
                base as int,
            ).props);
        }
        let mut i: usize = 0;
        while i < n
            invariant
                m0 == old(self)@,
                m0.wf(),
                i <= n,
                n == ownm.len(),
                ownm == m0.objects[obj as int].props,
                (obj as int) < m0.objects.len(),
                ownm.len() <= u32::MAX,
                base == names0.len(),
                self.objects == old(self).objects,
                self.pending == old(self).pending,
                self@.names == names0 + crate::model::enum_keys(ownm.take(i as int)),
                props_model(list@) == crate::model::name_list(
                    crate::model::enum_keys(ownm.take(i as int)),
                    base as int,
                ).props,
            decreases n - i,
        {
            let ghost built = crate::model::enum_keys(ownm.take(i as int));
            let ghost names_pre = self@.names;
            let ghost list_pre = props_model(list@);
            proof {
                crate::model::lemma_enum_keys_len(ownm.take(i as int));
                assert(ownm[i as int] == self.objects@[obj as int].props@[i as int]@);
                assert(built.len() <= i);
            }
            if self.objects[obj].props[i].enumerable {
                let word = self.names.len();
                proof {
                    assert(names_pre.len() == self.names@.len());
                    assert(names_pre.len() == names0.len() + built.len());
                    assert(word as int == base as int + built.len());
                    assert(list_pre.len() == built.len());
                    assert(list@.len() == list_pre.len());
                }
                let key = self.objects[obj].props[i].key.clone();
                self.names.push(key);
                let slot = list.len() as u32;
                list.push(
                    Property {
                        key: PropKey::Index(slot),
                        value: word,
                        writable: true,
                        enumerable: true,
                        configurable: true,
                        get_throws: false,
                        set_throws: false,
                    },
                );
                proof {
                    assert(self@.names =~= names_pre.push(ownm[i as int].key));
                    assert(props_model(list@) =~= list_pre.push(
                        PropModel::fresh(
                            KeyModel::Index(built.len() as u32),
                            (base + built.len()) as usize,
                        ),
                    ));
                }
            }
            i += 1;
            proof {
                assert(ownm.take(i as int).drop_last() =~= ownm.take(i as int - 1));
                assert(ownm.take(i as int).last() == ownm[i as int - 1]);
                let built2 = crate::model::enum_keys(ownm.take(i as int));
                if ownm[i as int - 1].enumerable {
                    assert(built2 == built.push(ownm[i as int - 1].key));
                    assert(names0 + built2 =~= (names0 + built).push(ownm[i as int - 1].key));
                    assert(self@.names == names0 + built2);
                    assert(props_model(list@) =~= crate::model::name_list(
                        built2,
                        base as int,
                    ).props);
                } else {
                    assert(built2 == built);
                }
            }
        }
        proof {
            assert(ownm.take(n as int) =~= ownm);
        }
        if !own_only {
            let proto = self.objects[obj].proto;
            if let Some(pw) = proto {
                proof {
                    assert(m0.objects[obj as int].wf_in(m0.objects.len() as int));
                }
                let ghost protom = m0.objects[pw as int].props;
                let ghost head = crate::model::enum_keys(ownm);
                let pn = self.objects[pw].props.len();
                proof {
                    crate::model::lemma_enum_keys_len(ownm);
                    assert(m0.objects[pw as int].wf_in(m0.objects.len() as int));
                    assert(protom.take(0) =~= Seq::<PropModel>::empty());
                    assert(head + crate::model::inherited_keys(ownm, protom.take(0)) =~= head);
                }
                let mut j: usize = 0;
                while j < pn
                    invariant
                        m0 == old(self)@,
                        m0.wf(),
                        j <= pn,
                        pn == protom.len(),
                        ownm == m0.objects[obj as int].props,
                        head == crate::model::enum_keys(ownm),
                        head.len() <= ownm.len(),
                        (obj as int) < m0.objects.len(),
                        (pw as int) < m0.objects.len(),
                        protom == m0.objects[pw as int].props,
                        ownm.len() + protom.len() <= u32::MAX,
                        base == names0.len(),
                        self.objects == old(self).objects,
                        self.pending == old(self).pending,
                        self@.names == names0 + (head + crate::model::inherited_keys(
                            ownm,
                            protom.take(j as int),
                        )),
                        props_model(list@) == crate::model::name_list(
                            head + crate::model::inherited_keys(ownm, protom.take(j as int)),
                            base as int,
                        ).props,
                    decreases pn - j,
                {
                    let ghost inh = crate::model::inherited_keys(ownm, protom.take(j as int));
                    let ghost built = head + inh;
                    let ghost names_pre = self@.names;
                    let ghost list_pre = props_model(list@);
                    proof {
                        crate::model::lemma_inherited_keys_len(ownm, protom.take(j as int));
                        assert(protom[j as int] == self.objects@[pw as int].props@[j as int]@);
                        assert(built.len() <= ownm.len() + j);
                        assert(keys_unique(ownm));
                    }
                    if self.objects[pw].props[j].enumerable && find_prop(
                        &self.objects[obj].props,
                        &self.objects[pw].props[j].key,
                    ).is_none() {
                        let word = self.names.len();
                        proof {
                            assert(names_pre.len() == self.names@.len());
                            assert(names_pre.len() == names0.len() + built.len());
                            assert(word as int == base as int + built.len());
                            assert(list_pre.len() == built.len());
                            assert(list@.len() == list_pre.len());
                        }
                        let key = self.objects[pw].props[j].key.clone();
                        self.names.push(key);
                        let slot = list.len() as u32;
                        list.push(
                            Property {
                                key: PropKey::Index(slot),
                                value: word,
                                writable: true,
                                enumerable: true,
                                configurable: true,
                                get_throws: false,
                                set_throws: false,
                            },
                        );
                        proof {
                            assert(self@.names =~= names_pre.push(protom[j as int].key));
                            assert(props_model(list@) =~= list_pre.push(
                                PropModel::fresh(
                                    KeyModel::Index(built.len() as u32),
                                    (base + built.len()) as usize,
                                ),
                            ));
                        }
                    }
                    j += 1;
                    proof {
                        assert(protom.take(j as int).drop_last() =~= protom.take(j as int - 1));
                        assert(protom.take(j as int).last() == protom[j as int - 1]);
                        let inh2 = crate::model::inherited_keys(ownm, protom.take(j as int));
                        if protom[j as int - 1].enumerable && !has_key(
                            ownm,
                            protom[j as int - 1].key,
                        ) {
                            assert(inh2 == inh.push(protom[j as int - 1].key));
                            assert(names0 + (head + inh2) =~= (names0 + (head + inh)).push(
                                protom[j as int - 1].key,
                            ));
                            assert(self@.names == names0 + (head + inh2));
                            assert(head + inh2 =~= (head + inh).push(protom[j as int - 1].key));
                            assert(props_model(list@) =~= crate::model::name_list(
                                head + inh2,
                                base as int,
                            ).props);
                        } else {
                            assert(inh2 == inh);
                            assert(head + inh2 =~= head + inh);
                        }
                    }
                }
                proof {
                    assert(protom.take(pn as int) =~= protom);
                }
            } else {
                proof {
                    assert(crate::model::enum_keys(ownm) + Seq::<KeyModel>::empty()
                        =~= crate::model::enum_keys(ownm));
                }
            }
        }
        let ghost keys = if own_only {
            m0.own_keys(obj)
        } else {
            m0.all_keys(obj)
        };
        let ghost objects1 = self.objects@;
        let word_obj = self.objects.len();
        let rec = ObjectRec { extensible: true, proto: None, props: list };
        self.objects.push(rec);
        *out = word_obj;
        proof {
            assert(rec@ =~= crate::model::name_list(keys, base as int));
            assert(self.objects@.map_values(|o: ObjectRec| o@) =~= objects1.map_values(
                |o: ObjectRec| o@,
            ).push(rec@));
            assert(self@ =~= m0.published(keys));
            crate::model::lemma_enum_keys_len(ownm);
            if !own_only {
                if m0.objects[obj as int].proto is Some {
                    let pw2 = m0.objects[obj as int].proto->0;
                    crate::model::lemma_inherited_keys_len(ownm, m0.objects[pw2 as int].props);
                }
            }
            crate::model::lemma_published_wf(m0, keys);
        }
        true
    }

    /// Native entry point: enumerate the own properties of `obj` into a
    /// fresh list object.
    pub fn get_own_property_names(&mut self, out: &mut usize, obj: usize) -> (ok: bool)
        requires
            old(self)@.wf(),
            old(self)@.obj_ok(obj),
        ensures
            final(self)@.wf(),
            ok,
            final(self)@ == old(self)@.published(old(self)@.own_keys(obj)),
            *final(out) == old(self)@.objects.len(),
    {
        self.publish_names(out, obj, true)
    }

    /// Native entry point: enumerate the own and inherited properties of
    /// `obj` into a fresh list object.
    pub fn get_property_names(&mut self, out: &mut usize, obj: usize) -> (ok: bool)
        requires
            old(self)@.wf(),
            old(self)@.obj_ok(obj),
            old(self)@.enum_budget(obj),
        ensures
            final(self)@.wf(),
            ok,
            final(self)@ == old(self)@.published(old(self)@.all_keys(obj)),
            *final(out) == old(self)@.objects.len(),
    {
        self.publish_names(out, obj, false)
    }
}

impl Engine {
    /// An engine with an empty object graph and no exception pending.
    pub fn new() -> (e: Engine)
        ensures
            e@.wf(),
            e@.objects.len() == 0,
            e@.names.len() == 0,
            !e@.pending,
    {
        let e = Engine { objects: Vec::new(), names: Vec::new(), pending: false };
        proof {
            assert(e@.objects =~= Seq::<ObjectModel>::empty());
            assert(e@.names =~= Seq::<KeyModel>::empty());
        }
        e
    }

    /// Allocate a fresh object with no properties yet.
    pub fn new_object(&mut self, extensible: bool, proto: Option<usize>) -> (w: usize)
        requires
            old(self)@.wf(),
            proto matches Some(p) ==> (p as int) < old(self)@.objects.len(),
        ensures
            final(self)@.wf(),
            w == old(self)@.objects.len(),
            final(self)@.objects == old(self)@.objects.push(
                ObjectModel { extensible, proto, props: Seq::empty() },
            ),
            final(self)@.names == old(self)@.names,
            final(self)@.pending == old(self)@.pending,
    {
        let ghost m0 = self@;
        let w = self.objects.len();
        self.objects.push(ObjectRec { extensible, proto, props: Vec::new() });
        proof {
            let fresh = ObjectModel { extensible, proto, props: Seq::empty() };
            assert(props_model(Seq::<Property>::empty()) =~= Seq::<PropModel>::empty());
            assert(self@.objects =~= m0.objects.push(fresh));
            assert forall|j: int| 0 <= j < self@.objects.len() implies (
            #[trigger] self@.objects[j]).wf_in(self@.objects.len() as int) by {
                if j < m0.objects.len() {
                    assert(self@.objects[j] == m0.objects[j]);
                    assert(m0.objects[j].wf_in(m0.objects.len() as int));
                } else {
                    assert(self@.objects[j] == fresh);
                }
            }
        }
        w
    }

    /// Install one property slot, descriptor flags and traps included.
    /// This is the harness the engine's own object literals stand on; the
    /// ordinary write path never creates anything but plain data slots.
    pub fn define_property(&mut self, obj: usize, prop: Property)
        requires
            old(self)@.wf(),
            old(self)@.obj_ok(obj),
            !has_key(old(self)@.objects[obj as int].props, prop@.key),
            old(self)@.objects[obj as int].props.len() < u32::MAX,
        ensures
            final(self)@.wf(),
            final(self)@ == old(self)@.with_object(
                obj,
                ObjectModel {
                    props: old(self)@.objects[obj as int].props.push(prop@),
                    ..old(self)@.objects[obj as int]
                },
            ),
    {
        let ghost m0 = self@;
        let ghost objects0 = self.objects@;
        let ghost propm = prop@;
        let mut rec = self.objects.remove(obj);
        rec.props.push(prop);
        self.objects.insert(obj, rec);
        proof {
            let o0 = m0.objects[obj as int];
            let o2 = ObjectModel { props: o0.props.push(propm), ..o0 };
            lemma_remove_insert_update(objects0, obj as int, rec);
            assert(props_model(rec.props@) =~= o0.props.push(propm));
            assert(self.objects@.map_values(|o: ObjectRec| o@) =~= objects0.map_values(
                |o: ObjectRec| o@,
            ).update(obj as int, rec@));
            assert(self@ =~= m0.with_object(obj, o2));
            assert(o0.wf_in(m0.objects.len() as int));
            assert(keys_unique(o2.props)) by {
                assert(forall|j: int|
                    0 <= j < o0.props.len() ==> (#[trigger] o2.props[j]).key == o0.props[j].key);
                assert(forall|j: int|
                    0 <= j < o0.props.len() ==> (#[trigger] o0.props[j]).key != propm.key);
            }
            assert(o2.wf_in(m0.objects.len() as int));
            assert forall|j: int| 0 <= j < self@.objects.len() implies (
            #[trigger] self@.objects[j]).wf_in(self@.objects.len() as int) by {
                if j != obj as int {
                    assert(self@.objects[j] == m0.objects[j]);
                }
            }
        }
    }

    /// The key a handed-out name word stands for.
    pub fn name_at(&self, word: usize) -> (k: &PropKey)
        requires
            (word as int) < self@.names.len(),
        ensures
            k@ == self@.names[word as int],
    {
        &self.names[word]
    }

    /// How many name words the engine has handed out.
    pub fn names_len(&self) -> (n: usize)
        ensures
            n == self@.names.len(),
    {
        self.names.len()
    }

    /// Whether an exception is recorded as pending.
    pub fn has_pending(&self) -> (b: bool)
        ensures
            b == self@.pending,
    {
        self.pending
    }
}

/// The attribute bitmask of one slot, in executable form.
fn attr_word(p: &Property) -> (m: u32)
    ensures
        m == crate::model::attr_bits(p@),
{
    (if p.writable {
        crate::model::ATTR_WRITABLE
    } else {
        0
    }) | (if p.enumerable {
        crate::model::ATTR_ENUMERABLE
    } else {
        0
    }) | (if p.configurable {
        crate::model::ATTR_CONFIGURABLE
    } else {
        0
    })
}

} // verus!
