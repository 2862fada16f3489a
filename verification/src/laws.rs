//! The laws the property operations keep, stated over the engine model
//! and proved once for every backend: both backends' operations state
//! their effect as the same model transitions.

use vstd::prelude::*;

use crate::model::{has_key, key_index, prop_at, EngineModel, KeyModel, PropModel};

verus! {

/// A write followed by a read of the same key yields the written value,
/// provided the slot is writable (or is created on an extensible object)
/// and no accessor trap interferes on either side.
pub proof fn lemma_write_then_read(m: EngineModel, obj: usize, k: KeyModel, v: usize)
    requires
        m.wf(),
        m.obj_ok(obj),
        m.room_for(obj, k),
        has_key(m.objects[obj as int].props, k) ==> prop_at(m.objects[obj as int].props, k).writable,
        has_key(m.objects[obj as int].props, k) ==> !prop_at(
            m.objects[obj as int].props,
            k,
        ).set_throws,
        has_key(m.objects[obj as int].props, k) ==> !prop_at(
            m.objects[obj as int].props,
            k,
        ).get_throws,
        !has_key(m.objects[obj as int].props, k) ==> m.objects[obj as int].extensible,
    ensures
        m.write_ok(obj, k),
        m.write_wrote(obj, k),
        m.write_result(obj, k, v).wf(),
        m.write_result(obj, k, v).read_ok(obj, k),
        m.write_result(obj, k, v).read_value(obj, k) == v,
{
    crate::model::lemma_write_result_wf(m, obj, k, v);
    let post = m.write_result(obj, k, v);
    let o = m.objects[obj as int];
    assert(o.wf_in(m.objects.len() as int));
    if has_key(o.props, k) {
        let i = key_index(o.props, k);
        assert(0 <= i < o.props.len() && o.props[i].key == k);
        let p = o.props[i];
        let newprops = o.props.update(i, PropModel { value: v, ..p });
        assert(post.objects[obj as int].props == newprops);
        assert(newprops[i].key == k);
        assert(has_key(newprops, k));
        let i2 = key_index(newprops, k);
        assert(0 <= i2 < newprops.len() && newprops[i2].key == k);
        assert(forall|j: int|
            0 <= j < newprops.len() ==> (#[trigger] newprops[j]).key == o.props[j].key);
        assert(i2 == i);
        assert(prop_at(newprops, k) == newprops[i]);
    } else {
        let newprops = o.props.push(PropModel::fresh(k, v));
        assert(post.objects[obj as int].props == newprops);
        let last = o.props.len() as int;
        assert(newprops[last].key == k);
        assert(has_key(newprops, k));
        let i2 = key_index(newprops, k);
        assert(0 <= i2 < newprops.len() && newprops[i2].key == k);
        assert(forall|j: int| 0 <= j < last ==> (#[trigger] newprops[j]) == o.props[j]);
        assert(forall|j: int| 0 <= j < last ==> (#[trigger] o.props[j]).key != k);
        assert(i2 == last);
        assert(prop_at(newprops, k) == PropModel::fresh(k, v));
    }
}

/// A write at a non-writable slot whose trap does not throw is refused
/// silently: the ABI call succeeds, the did-write flag is false, and the
/// engine — the slot included — is left exactly as it was.  Mere
/// non-writability never raises the pending-exception signal.
pub proof fn lemma_nonwritable_write_refused(m: EngineModel, obj: usize, k: KeyModel, v: usize)
    requires
        m.wf(),
        m.obj_ok(obj),
        has_key(m.objects[obj as int].props, k),
        !prop_at(m.objects[obj as int].props, k).writable,
        !prop_at(m.objects[obj as int].props, k).set_throws,
    ensures
        m.write_ok(obj, k),
        !m.write_wrote(obj, k),
        m.write_result(obj, k, v) == m,
{
}

/// A read that reaches a slot whose getter or proxy trap throws fails at
/// the ABI level, so the layer yields the pending-exception sentinel and
/// no out-parameter value; the failed engine records the exception.
pub proof fn lemma_read_trap_throws(m: EngineModel, obj: usize, k: KeyModel)
    requires
        m.wf(),
        m.obj_ok(obj),
        has_key(m.objects[obj as int].props, k),
        prop_at(m.objects[obj as int].props, k).get_throws,
    ensures
        !m.read_ok(obj, k),
        m.failed().pending,
{
}

/// Own-property enumeration yields a prefix — hence a subset — of full
/// enumeration on the same object.
pub proof fn lemma_own_keys_within_all(m: EngineModel, obj: usize)
    requires
        m.wf(),
        m.obj_ok(obj),
    ensures
        m.own_keys(obj).len() <= m.all_keys(obj).len(),
        forall|i: int|
            0 <= i < m.own_keys(obj).len() ==> m.all_keys(obj)[i] == m.own_keys(obj)[i],
        forall|k: KeyModel| m.own_keys(obj).contains(k) ==> m.all_keys(obj).contains(k),
{
    let own = m.own_keys(obj);
    let all = m.all_keys(obj);
    assert(forall|i: int| 0 <= i < own.len() ==> all[i] == #[trigger] own[i]);
    assert forall|k: KeyModel| own.contains(k) implies all.contains(k) by {
        let i = choose|i: int| 0 <= i < own.len() && own[i] == k;
        assert(all[i] == k);
    }
}

} // verus!
