//! The mathematical model of the engine's object graph.
//!
//! Every native entry point of [`crate::engine::Engine`] states its effect
//! as a transition on [`EngineModel`]; the typed capabilities in
//! [`crate::legacy`] and [`crate::modern`] inherit those statements.  The
//! model keeps exactly what the property operations can observe: per object
//! a property list (key, value word, the three descriptor flags, and whether
//! an accessor trap throws on read or on write), an extensibility flag and
//! an optional prototype link; besides the objects, the heap of key names
//! handed out by the enumeration calls, and the pending-exception flag.

use vstd::prelude::*;

verus! {

/// The word an absent property reads as.
pub const UNDEFINED: usize = usize::MAX;

/// Attribute-mask bit: the property's value can be replaced.
pub const ATTR_WRITABLE: u32 = 1;

/// Attribute-mask bit: the property shows up in enumeration.
pub const ATTR_ENUMERABLE: u32 = 2;

/// Attribute-mask bit: the property's descriptor can be changed.
pub const ATTR_CONFIGURABLE: u32 = 4;

/// A property key as the engine sees it: an unsigned 32-bit index, a text
/// name, or an arbitrary value word used as a key.
#[verifier::ext_equal]
pub enum KeyModel {
    Index(u32),
    Text(Seq<char>),
    Keyed(usize),
}

/// One property slot of an object.
#[verifier::ext_equal]
pub struct PropModel {
    pub key: KeyModel,
    pub value: usize,
    pub writable: bool,
    pub enumerable: bool,
    pub configurable: bool,
    /// A getter or proxy trap on this slot throws when the slot is read.
    pub get_throws: bool,
    /// A setter or proxy trap on this slot throws when the slot is written.
    pub set_throws: bool,
}

impl PropModel {
    /// The slot an ordinary write creates: a plain data property.
    pub open spec fn fresh(key: KeyModel, value: usize) -> PropModel {
        PropModel {
            key,
            value,
            writable: true,
            enumerable: true,
            configurable: true,
            get_throws: false,
            set_throws: false,
        }
    }
}

/// One engine-native object.
#[verifier::ext_equal]
pub struct ObjectModel {
    pub extensible: bool,
    pub proto: Option<usize>,
    pub props: Seq<PropModel>,
}

/// Whether a property list holds `k`.
pub open spec fn has_key(props: Seq<PropModel>, k: KeyModel) -> bool {
    exists|i: int| 0 <= i < props.len() && props[i].key == k
}

/// The index of the property keyed `k`; meaningful only under `has_key`
/// and unique keys.
pub open spec fn key_index(props: Seq<PropModel>, k: KeyModel) -> int {
    choose|i: int| 0 <= i < props.len() && props[i].key == k
}

/// The property keyed `k`; meaningful only under `has_key`.
pub open spec fn prop_at(props: Seq<PropModel>, k: KeyModel) -> PropModel {
    props[key_index(props, k)]
}

/// No two slots share a key.
pub open spec fn keys_unique(props: Seq<PropModel>) -> bool {
    forall|i: int, j: int|
        #![trigger props[i].key, props[j].key]
        0 <= i < j < props.len() ==> props[i].key != props[j].key
}

impl ObjectModel {
    /// Well-formed against a heap of `n_objects` objects: unique keys, a
    /// property count whose indices fit an unsigned 32-bit word, and a
    /// prototype link that stays on the heap.
    pub open spec fn wf_in(self, n_objects: int) -> bool {
        &&& keys_unique(self.props)
        &&& self.props.len() <= u32::MAX
        &&& match self.proto {
            Some(p) => (p as int) < n_objects,
            None => true,
        }
    }
}

/// The whole engine state.
#[verifier::ext_equal]
pub struct EngineModel {
    pub objects: Seq<ObjectModel>,
    /// The heap of key names handed out by the enumeration calls; a name
    /// word indexes into it.
    pub names: Seq<KeyModel>,
    /// The engine has recorded a thrown exception.
    pub pending: bool,
}

impl EngineModel {
    pub open spec fn wf(self) -> bool {
        forall|i: int|
            0 <= i < self.objects.len() ==> (#[trigger] self.objects[i]).wf_in(
                self.objects.len() as int,
            )
    }

    /// `obj` is a live object word.
    pub open spec fn obj_ok(self, obj: usize) -> bool {
        (obj as int) < self.objects.len()
    }

    /// The state after a native call reported failure: the exception is
    /// recorded, nothing else moves.
    pub open spec fn failed(self) -> EngineModel {
        EngineModel { pending: true, ..self }
    }

    pub open spec fn with_object(self, obj: usize, o: ObjectModel) -> EngineModel {
        EngineModel { objects: self.objects.update(obj as int, o), ..self }
    }

    /// The slot a read of `k` on `obj` reaches: the own slot when there is
    /// one, else the prototype's.
    pub open spec fn search(self, obj: usize, k: KeyModel) -> Option<PropModel> {
        let o = self.objects[obj as int];
        if has_key(o.props, k) {
            Some(prop_at(o.props, k))
        } else {
            match o.proto {
                Some(p) => {
                    let q = self.objects[p as int];
                    if has_key(q.props, k) {
                        Some(prop_at(q.props, k))
                    } else {
                        None
                    }
                },
                None => None,
            }
        }
    }

    /// A read of `k` on `obj` succeeds at the ABI level; it fails exactly
    /// when the slot it reaches throws on read.
    pub open spec fn read_ok(self, obj: usize, k: KeyModel) -> bool {
        match self.search(obj, k) {
            Some(p) => !p.get_throws,
            None => true,
        }
    }

    /// The word a successful read of `k` on `obj` yields.
    pub open spec fn read_value(self, obj: usize, k: KeyModel) -> usize {
        match self.search(obj, k) {
            Some(p) => p.value,
            None => UNDEFINED,
        }
    }

    /// A write of `k` on `obj` succeeds at the ABI level; it fails exactly
    /// when the own slot throws on write.
    pub open spec fn write_ok(self, obj: usize, k: KeyModel) -> bool {
        let o = self.objects[obj as int];
        !(has_key(o.props, k) && prop_at(o.props, k).set_throws)
    }

    /// A successful write of `k` on `obj` takes effect; a non-writable slot
    /// or a sealed object refuses it silently.
    pub open spec fn write_wrote(self, obj: usize, k: KeyModel) -> bool {
        let o = self.objects[obj as int];
        if has_key(o.props, k) {
            prop_at(o.props, k).writable
        } else {
            o.extensible
        }
    }

    /// There is room to write `k` on `obj`: either the slot exists, or one
    /// more slot still keeps the property count within its bound.
    pub open spec fn room_for(self, obj: usize, k: KeyModel) -> bool {
        let o = self.objects[obj as int];
        has_key(o.props, k) || o.props.len() < u32::MAX
    }

    /// The state after a write of `value` at `k` on `obj`.
    pub open spec fn write_result(self, obj: usize, k: KeyModel, value: usize) -> EngineModel {
        let o = self.objects[obj as int];
        if has_key(o.props, k) {
            let i = key_index(o.props, k);
            let p = o.props[i];
            if p.set_throws {
                self.failed()
            } else if p.writable {
                self.with_object(
                    obj,
                    ObjectModel { props: o.props.update(i, PropModel { value, ..p }), ..o },
                )
            } else {
                self
            }
        } else if o.extensible {
            self.with_object(
                obj,
                ObjectModel { props: o.props.push(PropModel::fresh(k, value)), ..o },
            )
        } else {
            self
        }
    }

    /// The attribute bitmask a query of `k` on `obj` yields; an absent
    /// property reads as the empty mask.
    pub open spec fn attr_mask(self, obj: usize, k: KeyModel) -> u32 {
        match self.search(obj, k) {
            Some(p) => attr_bits(p),
            None => 0,
        }
    }
}

/// The keys of the enumerable slots of a property list, in list order.
pub open spec fn enum_keys(props: Seq<PropModel>) -> Seq<KeyModel>
    decreases props.len(),
{
    if props.len() == 0 {
        Seq::empty()
    } else {
        let rest = enum_keys(props.drop_last());
        if props.last().enumerable {
            rest.push(props.last().key)
        } else {
            rest
        }
    }
}

/// The keys of the enumerable prototype slots that no own slot shadows,
/// in list order.
pub open spec fn inherited_keys(own: Seq<PropModel>, proto: Seq<PropModel>) -> Seq<KeyModel>
    decreases proto.len(),
{
    if proto.len() == 0 {
        Seq::empty()
    } else {
        let rest = inherited_keys(own, proto.drop_last());
        if proto.last().enumerable && !has_key(own, proto.last().key) {
            rest.push(proto.last().key)
        } else {
            rest
        }
    }
}

pub proof fn lemma_enum_keys_len(props: Seq<PropModel>)
    ensures
        enum_keys(props).len() <= props.len(),
    decreases props.len(),
{
    if props.len() > 0 {
        lemma_enum_keys_len(props.drop_last());
    }
}

pub proof fn lemma_inherited_keys_len(own: Seq<PropModel>, proto: Seq<PropModel>)
    ensures
        inherited_keys(own, proto).len() <= proto.len(),
    decreases proto.len(),
{
    if proto.len() > 0 {
        lemma_inherited_keys_len(own, proto.drop_last());
    }
}

/// The fresh object an enumeration call hands out: slot `j` holds, under
/// the index key `j`, the name word for the `j`-th enumerated key.
pub open spec fn name_list(keys: Seq<KeyModel>, base: int) -> ObjectModel {
    ObjectModel {
        extensible: true,
        proto: None,
        props: Seq::new(
            keys.len(),
            |j: int| PropModel::fresh(KeyModel::Index(j as u32), (base + j) as usize),
        ),
    }
}

impl EngineModel {
    /// The names an own-property enumeration of `obj` yields.
    pub open spec fn own_keys(self, obj: usize) -> Seq<KeyModel> {
        enum_keys(self.objects[obj as int].props)
    }

    /// The names a full enumeration of `obj` yields: the own enumerable
    /// keys, then the unshadowed enumerable keys of the prototype, in the
    /// engine's order.
    pub open spec fn all_keys(self, obj: usize) -> Seq<KeyModel> {
        let o = self.objects[obj as int];
        self.own_keys(obj) + match o.proto {
            Some(p) => inherited_keys(o.props, self.objects[p as int].props),
            None => Seq::empty(),
        }
    }

    /// A merged enumeration of `obj` still fits the index-key space.
    pub open spec fn enum_budget(self, obj: usize) -> bool {
        let o = self.objects[obj as int];
        match o.proto {
            Some(p) => o.props.len() + self.objects[p as int].props.len() <= u32::MAX,
            None => true,
        }
    }

    /// The state after an enumeration call handed out `keys`: the name
    /// heap grows by them, and a fresh list object points at them.
    pub open spec fn published(self, keys: Seq<KeyModel>) -> EngineModel {
        EngineModel {
            objects: self.objects.push(name_list(keys, self.names.len() as int)),
            names: self.names + keys,
            pending: self.pending,
        }
    }
}

/// Handing out a name list leaves the engine well-formed.
pub proof fn lemma_published_wf(m: EngineModel, keys: Seq<KeyModel>)
    requires
        m.wf(),
        keys.len() <= u32::MAX,
    ensures
        m.published(keys).wf(),
{
    let post = m.published(keys);
    let fresh = name_list(keys, m.names.len() as int);
    assert(keys_unique(fresh.props)) by {
        assert forall|i: int, j: int|
            #![trigger fresh.props[i].key, fresh.props[j].key]
            0 <= i < j < fresh.props.len() implies fresh.props[i].key != fresh.props[j].key by {
            assert(fresh.props[i].key == KeyModel::Index(i as u32));
            assert(fresh.props[j].key == KeyModel::Index(j as u32));
            assert((i as u32) as int == i && (j as u32) as int == j);
        }
    }
    assert(fresh.wf_in(post.objects.len() as int));
    assert forall|j: int| 0 <= j < post.objects.len() implies (#[trigger] post.objects[j]).wf_in(
        post.objects.len() as int,
    ) by {
        if j < m.objects.len() {
            assert(post.objects[j] == m.objects[j]);
            assert(m.objects[j].wf_in(m.objects.len() as int));
        } else {
            assert(post.objects[j] == fresh);
        }
    }
}

/// A write leaves the engine well-formed.
pub proof fn lemma_write_result_wf(m: EngineModel, obj: usize, k: KeyModel, value: usize)
    requires
        m.wf(),
        m.obj_ok(obj),
        m.room_for(obj, k),
    ensures
        m.write_result(obj, k, value).wf(),
        m.write_result(obj, k, value).objects.len() == m.objects.len(),
{
    let post = m.write_result(obj, k, value);
    let o = m.objects[obj as int];
    assert(o.wf_in(m.objects.len() as int));
    if has_key(o.props, k) {
        let i = key_index(o.props, k);
        assert(0 <= i < o.props.len() && o.props[i].key == k);
        let p = o.props[i];
        if !p.set_throws && p.writable {
            let o2 = ObjectModel { props: o.props.update(i, PropModel { value, ..p }), ..o };
            assert(keys_unique(o2.props)) by {
                assert(forall|j: int|
                    0 <= j < o2.props.len() ==> (#[trigger] o2.props[j].key) == o.props[j].key);
            }
            assert(o2.wf_in(m.objects.len() as int));
            assert forall|j: int| 0 <= j < post.objects.len() implies (#[trigger] post.objects[j]).wf_in(
                post.objects.len() as int,
            ) by {
                if j != obj as int {
                    assert(post.objects[j] == m.objects[j]);
                }
            }
        }
    } else if o.extensible {
        let o2 = ObjectModel { props: o.props.push(PropModel::fresh(k, value)), ..o };
        assert(keys_unique(o2.props)) by {
            assert(forall|j: int|
                0 <= j < o.props.len() ==> (#[trigger] o2.props[j].key) == o.props[j].key);
            assert(forall|j: int|
                0 <= j < o.props.len() ==> (#[trigger] o.props[j].key) != k);
        }
        assert(o2.wf_in(m.objects.len() as int));
        assert forall|j: int| 0 <= j < post.objects.len() implies (#[trigger] post.objects[j]).wf_in(
            post.objects.len() as int,
        ) by {
            if j != obj as int {
                assert(post.objects[j] == m.objects[j]);
            }
        }
    }
}

/// The attribute bitmask of one slot.
pub open spec fn attr_bits(p: PropModel) -> u32 {
    (if p.writable {
        ATTR_WRITABLE
    } else {
        0
    }) | (if p.enumerable {
        ATTR_ENUMERABLE
    } else {
        0
    }) | (if p.configurable {
        ATTR_CONFIGURABLE
    } else {
        0
    })
}

pub open spec fn mask_writable(m: u32) -> bool {
    m & ATTR_WRITABLE != 0
}

pub open spec fn mask_enumerable(m: u32) -> bool {
    m & ATTR_ENUMERABLE != 0
}

pub open spec fn mask_configurable(m: u32) -> bool {
    m & ATTR_CONFIGURABLE != 0
}

/// The attribute bitmask reports exactly the three flags of the slot.
pub proof fn lemma_attr_bits(p: PropModel)
    ensures
        mask_writable(attr_bits(p)) == p.writable,
        mask_enumerable(attr_bits(p)) == p.enumerable,
        mask_configurable(attr_bits(p)) == p.configurable,
{
    let w: u32 = if p.writable { ATTR_WRITABLE } else { 0 };
    let e: u32 = if p.enumerable { ATTR_ENUMERABLE } else { 0 };
    let c: u32 = if p.configurable { ATTR_CONFIGURABLE } else { 0 };
    assert(((w | e | c) & 1u32 != 0) == (w == 1u32) && ((w | e | c) & 2u32 != 0) == (e == 2u32)
        && ((w | e | c) & 4u32 != 0) == (c == 4u32)) by (bit_vector)
        requires
            w == 0u32 || w == 1u32,
            e == 0u32 || e == 2u32,
            c == 0u32 || c == 4u32,
    ;
}

} // verus!
