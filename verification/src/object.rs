use vstd::prelude::*;
use vstd::pervasive::unreached;
use crate::error::{ActionError, ActionErrorView};
use crate::field::{Argument, FieldType};
use crate::keys::{clone_keys, contains_key, distinct_keys, insert_key, key_set, remove_key};
use crate::model::Model;
use crate::stage::{Stage, StageView};
use crate::value::{Value, ValueView};
use crate::vmap::{distinct_entry_keys, map_get, map_view, remove_entry, upsert};

verus! {

/// The mathematical state of an entity: its field map, its lifecycle flags,
/// and its selection and dirty sets.
pub ghost struct ObjState {
    pub map: Map<Seq<char>, ValueView>,
    pub dirty: Set<Seq<char>>,
    pub selected: Set<Seq<char>>,
    pub is_initialized: bool,
    pub is_new: bool,
    pub is_modified: bool,
    pub is_partial: bool,
    pub is_deleted: bool,
}

/// A live, mutable representation of one persisted record, bound to its
/// compiled model metadata. Every field access is validated against the
/// metadata's key-role sets, and mutation flows through the field pipelines.
#[derive(Debug)]
pub struct Object {
    pub model: Model,
    pub is_initialized: bool,
    pub is_new: bool,
    pub is_modified: bool,
    pub is_partial: bool,
    pub is_deleted: bool,
    pub selected_fields: Vec<String>,
    pub modified_fields: Vec<String>,
    pub value_map: Vec<(String, Value)>,
}

impl View for Object {
    type V = ObjState;

    open spec fn view(&self) -> ObjState {
        ObjState {
            map: map_view(self.value_map@),
            dirty: key_set(self.modified_fields@),
            selected: key_set(self.selected_fields@),
            is_initialized: self.is_initialized,
            is_new: self.is_new,
            is_modified: self.is_modified,
            is_partial: self.is_partial,
            is_deleted: self.is_deleted,
        }
    }
}

/// The effect of one raw `set_value` write on an entity's state: a null
/// value unsets the key, any other value upserts it; on an entity that is
/// no longer new the key turns dirty and the entity counts as modified.
pub open spec fn step_set_value(s: ObjState, k: Seq<char>, v: ValueView) -> ObjState {
    ObjState {
        map: if v is Null {
            s.map.remove(k)
        } else {
            s.map.insert(k, v)
        },
        dirty: if !s.is_new {
            s.dirty.insert(k)
        } else {
            s.dirty
        },
        is_modified: s.is_modified || !s.is_new,
        ..s
    }
}

/// The outcome `get_value` owes for a key: an error outside the declared
/// field set, the stored value where one is stored, and "absent" otherwise.
pub open spec fn get_value_outcome(m: Model, s: ObjState, k: Seq<char>) -> Result<
    Option<ValueView>,
    ActionErrorView,
> {
    if !m.get_value_key_set().contains(k) {
        Err(ActionErrorView::KeysUnallowed)
    } else if s.map.contains_key(k) {
        Ok(Some(s.map[k]))
    } else {
        Ok(None)
    }
}

/// The view of a `get_value` result.
pub open spec fn get_result_view(r: Result<Option<Value>, ActionError>) -> Result<
    Option<ValueView>,
    ActionErrorView,
> {
    match r {
        Ok(None) => Ok(None),
        Ok(Some(v)) => Ok(Some(v@)),
        Err(e) => Err(e@),
    }
}

/// The serialized pairs owed for an output-key list over a field map: the
/// keys in declaration order, keeping exactly those whose stored value
/// exists and is not null.
pub open spec fn json_of(keys: Seq<String>, m: Map<Seq<char>, ValueView>) -> Seq<
    (Seq<char>, ValueView),
>
    decreases keys.len(),
{
    if keys.len() == 0 {
        Seq::empty()
    } else {
        json_of(keys.drop_last(), m) + if m.contains_key(keys.last()@) && !(m[keys.last()@]
            is Null) {
            seq![(keys.last()@, m[keys.last()@])]
        } else {
            Seq::empty()
        }
    }
}

/// The views of serialized pairs.
pub open spec fn pair_views(e: Seq<(String, Value)>) -> Seq<(Seq<char>, ValueView)> {
    e.map(|i: int, p: (String, Value)| (p.0@, p.1@))
}

/// Every serialized pair comes from the map and is not null.
pub proof fn lemma_json_of_sound(keys: Seq<String>, m: Map<Seq<char>, ValueView>)
    ensures
        forall|j: int|
            0 <= j < json_of(keys, m).len() ==> {
                &&& m.contains_key(#[trigger] json_of(keys, m)[j].0)
                &&& json_of(keys, m)[j].1 == m[json_of(keys, m)[j].0]
                &&& !(json_of(keys, m)[j].1 is Null)
            },
    decreases keys.len(),
{
    if keys.len() > 0 {
        lemma_json_of_sound(keys.drop_last(), m);
    }
}

impl Object {
    /// The entity's internal consistency: distinct map keys and set entries,
    /// and well-formed metadata.
    pub open spec fn inv(self) -> bool {
        &&& distinct_entry_keys(self.value_map@)
        &&& distinct_keys(self.selected_fields@)
        &&& distinct_keys(self.modified_fields@)
        &&& self.model.wf()
    }

    /// A fresh entity bound to its metadata: new, uninitialized, empty.
    pub fn new(model: Model) -> (r: Object)
        requires
            model.wf(),
        ensures
            r.inv(),
            r.model == model,
            r@ == (ObjState {
                map: Map::<Seq<char>, ValueView>::empty(),
                dirty: Set::<Seq<char>>::empty(),
                selected: Set::<Seq<char>>::empty(),
                is_initialized: false,
                is_new: true,
                is_modified: false,
                is_partial: false,
                is_deleted: false,
            }),
    {
        let r = Object {
            model,
            is_initialized: false,
            is_new: true,
            is_modified: false,
            is_partial: false,
            is_deleted: false,
            selected_fields: Vec::new(),
            modified_fields: Vec::new(),
            value_map: Vec::new(),
        };
        proof {
            assert(key_set(r.selected_fields@) =~= Set::<Seq<char>>::empty());
            assert(key_set(r.modified_fields@) =~= Set::<Seq<char>>::empty());
        }
        r
    }

    /// Writes one field without running any pipeline: the low-level
    /// primitive under JSON ingestion. Refused outside the save-key set; a
    /// null value unsets the key; on a non-new entity the key turns dirty.
    pub fn set_value(&mut self, key: &String, value: Value) -> (r: Result<(), ActionError>)
        requires
            old(self).inv(),
        ensures
            final(self).inv(),
            final(self).model == old(self).model,
            if old(self).model.save_key_set().contains(key@) {
                &&& r is Ok
                &&& final(self)@ == step_set_value(old(self)@, key@, value@)
            } else {
                &&& r matches Err(e) && e@ == ActionErrorView::KeysUnallowed
                &&& final(self)@ == old(self)@
            },
    {
        if !contains_key(&self.model.save_keys, key) {
            return Err(ActionError::keys_unallowed());
        }
        if value.is_null() {
            remove_entry(&mut self.value_map, key);
        } else {
            upsert(&mut self.value_map, key, value);
        }
        if !self.is_new {
            self.is_modified = true;
            insert_key(&mut self.modified_fields, key);
        }
        Ok(())
    }

    /// Reads one field: an error outside the declared field set, the stored
    /// value where one is stored, "absent" otherwise.
    pub fn get_value(&self, key: &String) -> (r: Result<Option<Value>, ActionError>)
        requires
            self.inv(),
        ensures
            get_result_view(r) == get_value_outcome(self.model, self@, key@),
    {
        if !contains_key(&self.model.get_value_keys, key) {
            return Err(ActionError::keys_unallowed());
        }
        match map_get(&self.value_map, key) {
            Some(v) => Ok(Some(v.clone())),
            None => Ok(None),
        }
    }

    /// Adds fields to the selection set used for partial exposure.
    pub fn select(&mut self, keys: Vec<String>) -> (r: Result<(), ActionError>)
        requires
            old(self).inv(),
        ensures
            final(self).inv(),
            final(self).model == old(self).model,
            r is Ok,
            final(self)@ == (ObjState { selected: old(self)@.selected + key_set(keys@), ..old(
                self,
            )@ }),
    {
        let mut i: usize = 0;
        while i < keys.len()
            invariant
                i <= keys@.len(),
                self.inv(),
                self.model == old(self).model,
                self.value_map@ == old(self).value_map@,
                self.modified_fields@ == old(self).modified_fields@,
                self.is_initialized == old(self).is_initialized,
                self.is_new == old(self).is_new,
                self.is_modified == old(self).is_modified,
                self.is_partial == old(self).is_partial,
                self.is_deleted == old(self).is_deleted,
                key_set(self.selected_fields@) == old(self)@.selected + key_set(
                    keys@.take(i as int),
                ),
            decreases keys@.len() - i,
        {
            insert_key(&mut self.selected_fields, &keys[i]);
            proof {
                let t1 = keys@.take(i + 1);
                assert(t1.drop_last() =~= keys@.take(i as int));
                assert(t1.last() == keys@[i as int]);
                assert(key_set(t1) =~= key_set(keys@.take(i as int)).insert(keys@[i as int]@))
                    by {
                    assert forall|x: Seq<char>| key_set(t1).contains(x) implies key_set(
                        keys@.take(i as int),
                    ).insert(keys@[i as int]@).contains(x) by {
                        let w = choose|w: int| 0 <= w < t1.len() && t1[w]@ == x;
                        if w < i {
                            assert(keys@.take(i as int)[w]@ == x);
                        }
                    }
                    assert forall|x: Seq<char>|
                        key_set(keys@.take(i as int)).insert(keys@[i as int]@).contains(x)
                        implies key_set(t1).contains(x) by {
                        if x == keys@[i as int]@ {
                            assert(t1[i as int]@ == x);
                        } else {
                            let w = choose|w: int|
                                0 <= w < i && keys@.take(i as int)[w]@ == x;
                            assert(t1[w]@ == x);
                        }
                    }
                }
                assert(key_set(self.selected_fields@) =~= old(self)@.selected + key_set(t1));
            }
            i = i + 1;
        }
        proof {
            assert(keys@.take(keys@.len() as int) =~= keys@);
        }
        Ok(())
    }

    /// Removes fields from the selection set; on first use the set is seeded
    /// with the full output-key set, so later removals act as a subtractive
    /// view.
    pub fn deselect(&mut self, keys: Vec<String>) -> (r: Result<(), ActionError>)
        requires
            old(self).inv(),
        ensures
            final(self).inv(),
            final(self).model == old(self).model,
            r is Ok,
            final(self)@ == (ObjState {
                selected: (if old(self).selected_fields@.len() == 0 {
                    key_set(old(self).model.output_keys@)
                } else {
                    old(self)@.selected
                }) - key_set(keys@),
                ..old(self)@
            }),
    {
        if self.selected_fields.len() == 0 {
            self.selected_fields = clone_keys(&self.model.output_keys);
        }
        let ghost seeded = key_set(self.selected_fields@);
        let mut i: usize = 0;
        while i < keys.len()
            invariant
                i <= keys@.len(),
                self.inv(),
                self.model == old(self).model,
                self.value_map@ == old(self).value_map@,
                self.modified_fields@ == old(self).modified_fields@,
                self.is_initialized == old(self).is_initialized,
                self.is_new == old(self).is_new,
                self.is_modified == old(self).is_modified,
                self.is_partial == old(self).is_partial,
                self.is_deleted == old(self).is_deleted,
                key_set(self.selected_fields@) == seeded - key_set(keys@.take(i as int)),
            decreases keys@.len() - i,
        {
            remove_key(&mut self.selected_fields, &keys[i]);
            proof {
                let t1 = keys@.take(i + 1);
                assert(t1.drop_last() =~= keys@.take(i as int));
                assert(t1.last() == keys@[i as int]);
                assert(key_set(self.selected_fields@) =~= seeded - key_set(t1)) by {
                    assert forall|x: Seq<char>| key_set(t1).contains(x) implies (key_set(
                        keys@.take(i as int),
                    ).contains(x) || x == keys@[i as int]@) by {
                        let w = choose|w: int| 0 <= w < t1.len() && t1[w]@ == x;
                        if w < i {
                            assert(keys@.take(i as int)[w]@ == x);
                        }
                    }
                    assert forall|x: Seq<char>| key_set(keys@.take(i as int)).contains(x)
                        implies key_set(t1).contains(x) by {
                        let w = choose|w: int| 0 <= w < i && keys@.take(i as int)[w]@ == x;
                        assert(t1[w]@ == x);
                    }
                    assert(key_set(t1).contains(keys@[i as int]@)) by {
                        assert(t1[i as int]@ == keys@[i as int]@);
                    }
                }
            }
            i = i + 1;
        }
        proof {
            assert(keys@.take(keys@.len() as int) =~= keys@);
        }
        Ok(())
    }

    /// Serializes exactly the output-key fields whose current value is
    /// non-null, in declaration order; absent and null fields are omitted,
    /// never emitted as explicit null. The pairs are the JSON object's
    /// members; the caller renders them.
    pub fn to_json(&self) -> (r: Vec<(String, Value)>)
        requires
            self.inv(),
        ensures
            pair_views(r@) == json_of(self.model.output_keys@, self@.map),
            forall|j: int|
                0 <= j < r@.len() ==> {
                    &&& !(#[trigger] r@[j].1@ is Null)
                    &&& self@.map.contains_key(r@[j].0@)
                    &&& r@[j].1@ == self@.map[r@[j].0@]
                },
    {
        let mut r: Vec<(String, Value)> = Vec::new();
        let mut i: usize = 0;
        while i < self.model.output_keys.len()
            invariant
                i <= self.model.output_keys@.len(),
                self.inv(),
                pair_views(r@) == json_of(self.model.output_keys@.take(i as int), self@.map),
            decreases self.model.output_keys@.len() - i,
        {
            let key = &self.model.output_keys[i];
            let ghost before = r@;
            match map_get(&self.value_map, key) {
                Some(v) => {
                    if !v.is_null() {
                        r.push((key.clone(), v.clone()));
                    }
                },
                None => {},
            }
            proof {
                let t1 = self.model.output_keys@.take(i + 1);
                assert(t1.drop_last() =~= self.model.output_keys@.take(i as int));
                assert(t1.last() == self.model.output_keys@[i as int]);
                assert forall|j: int| 0 <= j < pair_views(r@).len() implies pair_views(r@)[j]
                    == json_of(t1, self@.map)[j] by {
                    if j < before.len() {
                        assert(r@[j] == before[j]);
                        assert(pair_views(before)[j] == json_of(
                            self.model.output_keys@.take(i as int),
                            self@.map,
                        )[j]);
                    } else {
                        assert(r@[j] == r@.last());
                    }
                }
                assert(pair_views(r@) =~= json_of(t1, self@.map));
            }
            i = i + 1;
        }
        proof {
            assert(self.model.output_keys@.take(self.model.output_keys@.len() as int)
                =~= self.model.output_keys@);
            lemma_json_of_sound(self.model.output_keys@, self@.map);
            assert forall|j: int| 0 <= j < r@.len() implies {
                &&& !(#[trigger] r@[j].1@ is Null)
                &&& self@.map.contains_key(r@[j].0@)
                &&& r@[j].1@ == self@.map[r@[j].0@]
            } by {
                assert(pair_views(r@)[j] == (r@[j].0@, r@[j].1@));
                assert(json_of(self.model.output_keys@, self@.map)[j] == (r@[j].0@, r@[j].1@));
                assert(json_of(self.model.output_keys@, self@.map)[j].0 == r@[j].0@);
                assert(json_of(self.model.output_keys@, self@.map)[j].1 == r@[j].1@);
            }
        }
        r
    }

    /// The current value of the primary-key field. Metadata built from a
    /// schema always carries a primary key; the caller owes a stored value
    /// for it.
    pub fn identifier(&self) -> (r: Value)
        requires
            self.inv(),
            self.model.primary_field_index is Some,
            self@.map.contains_key(
                self.model.fields@[self.model.primary_field_index->0 as int].name@,
            ),
        ensures
            r@ == self@.map[self.model.fields@[self.model.primary_field_index->0 as int].name@],
    {
        match self.model.primary_field_index {
            Some(i) => {
                let name = &self.model.fields[i].name;
                match map_get(&self.value_map, name) {
                    Some(v) => v.clone(),
                    None => unreached(),
                }
            },
            None => unreached(),
        }
    }

    /// Whether the entity is an instance of the named entity type.
    pub fn is_instance_of(&self, model_name: &String) -> (r: bool)
        ensures
            r == (self.model.name@ == model_name@),
    {
        self.model.name == *model_name
    }
}

} // verus!

verus! {

/// The mutable portion of an entity a pipeline pass works on: the field
/// map, the dirty set, and the modified flag.
pub ghost struct PipelinePhase {
    pub map: Map<Seq<char>, ValueView>,
    pub dirty: Set<Seq<char>>,
    pub is_modified: bool,
}

/// The on-save pass over the persisted keys, from position `i` on: each key
/// whose field declares a non-empty on-save pipeline has its current value
/// (or null) threaded through it; a final `Invalid` stage stops the pass
/// with that key and message, any other final stage is written back and, on
/// a non-new entity, marks the key dirty.
pub open spec fn save_step(
    m: Model,
    keys: Seq<String>,
    i: int,
    st: PipelinePhase,
    is_new: bool,
) -> (PipelinePhase, Option<(Seq<char>, Seq<char>)>)
    decreases keys.len() - i,
{
    if i < 0 || i >= keys.len() {
        (st, None)
    } else {
        let k = keys[i]@;
        match m.spec_field(k) {
            None => save_step(m, keys, i + 1, st, is_new),
            Some(f) => if f.on_save_pipeline.modifiers@.len() > 0 {
                let init = StageView::Value(
                    if st.map.contains_key(k) {
                        st.map[k]
                    } else {
                        ValueView::Null
                    },
                );
                let res = f.on_save_pipeline.process_spec(init);
                match res.value() {
                    None => (st, Some((k, res->Invalid_0))),
                    Some(v) => save_step(
                        m,
                        keys,
                        i + 1,
                        PipelinePhase {
                            map: st.map.insert(k, v),
                            dirty: if !is_new {
                                st.dirty.insert(k)
                            } else {
                                st.dirty
                            },
                            is_modified: st.is_modified || !is_new,
                        },
                        is_new,
                    ),
                }
            } else {
                save_step(m, keys, i + 1, st, is_new)
            },
        }
    }
}

/// The storage backend capability: accepts an entity and performs the
/// physical save or delete. Implementations live with the caller; nothing
/// is assumed of them, and they must not flip entity flags — flag
/// transitions belong to the entity's own methods.
pub trait Connector {
    /// Physically persists the entity.
    fn save_object(&mut self, object: &Object) -> Result<(), ActionError>;

    /// Physically deletes the entity.
    fn delete_object(&mut self, object: &Object) -> Result<(), ActionError>;
}

impl Object {
    /// Runs every persisted field's on-save pipeline, writing each result
    /// back; a final `Invalid` stage aborts with a field-tagged error before
    /// any connector call. Only then is the connector invoked: on its
    /// success the entity is no longer new or modified and the dirty set is
    /// empty; on its failure the error is propagated unchanged and the
    /// in-memory state stays exactly as it was before the connector call.
    pub fn save<C: Connector>(&mut self, connector: &mut C) -> (r: Result<(), ActionError>)
        requires
            old(self).inv(),
        ensures
            final(self).inv(),
            final(self).model == old(self).model,
            ({
                let start = PipelinePhase {
                    map: old(self)@.map,
                    dirty: old(self)@.dirty,
                    is_modified: old(self)@.is_modified,
                };
                let folded = save_step(
                    old(self).model,
                    old(self).model.save_keys@,
                    0,
                    start,
                    old(self).is_new,
                );
                match folded.1 {
                    Some(err) => {
                        &&& r matches Err(e) && e@ == (ActionErrorView::InvalidInput {
                            key: err.0,
                            message: err.1,
                        })
                        &&& final(self)@ == (ObjState {
                            map: folded.0.map,
                            dirty: folded.0.dirty,
                            is_modified: folded.0.is_modified,
                            ..old(self)@
                        })
                    },
                    None => match r {
                        Ok(u) => final(self)@ == (ObjState {
                            map: folded.0.map,
                            dirty: Set::<Seq<char>>::empty(),
                            is_modified: false,
                            is_new: false,
                            ..old(self)@
                        }),
                        Err(e) => final(self)@ == (ObjState {
                            map: folded.0.map,
                            dirty: folded.0.dirty,
                            is_modified: folded.0.is_modified,
                            ..old(self)@
                        }),
                    },
                }
            }),
    {
        let ghost start = PipelinePhase {
            map: self@.map,
            dirty: self@.dirty,
            is_modified: self.is_modified,
        };
        let ghost keys = self.model.save_keys@;
        let mut i: usize = 0;
        while i < self.model.save_keys.len()
            invariant
                i <= keys.len(),
                self.inv(),
                self.model == old(self).model,
                keys == self.model.save_keys@,
                start == (PipelinePhase {
                    map: old(self)@.map,
                    dirty: old(self)@.dirty,
                    is_modified: old(self)@.is_modified,
                }),
                self.is_new == old(self).is_new,
                self.is_initialized == old(self).is_initialized,
                self.is_partial == old(self).is_partial,
                self.is_deleted == old(self).is_deleted,
                self.selected_fields@ == old(self).selected_fields@,
                save_step(self.model, keys, 0, start, self.is_new) == save_step(
                    self.model,
                    keys,
                    i as int,
                    PipelinePhase {
                        map: self@.map,
                        dirty: self@.dirty,
                        is_modified: self.is_modified,
                    },
                    self.is_new,
                ),
            decreases keys.len() - i,
        {
            let ghost st_i = PipelinePhase {
                map: self@.map,
                dirty: self@.dirty,
                is_modified: self.is_modified,
            };
            let key = self.model.save_keys[i].clone();
            proof {
                assert(key@ == keys[i as int]@);
                assert(self.model.has_field(keys[i as int]@));
            }
            let field = match self.model.field(&key) {
                Some(f) => f,
                None => unreached(),
            };
            if field.on_save_pipeline.has_any_modifier() {
                let current: Stage = match map_get(&self.value_map, &key) {
                    Some(v) => Stage::Value(v.clone()),
                    None => Stage::Value(Value::Null),
                };
                let stage = field.on_save_pipeline.process(current);
                match stage {
                    Stage::Invalid(s) => {
                        proof {
                            assert(save_step(self.model, keys, i as int, st_i, self.is_new)
                                == (st_i, Some((key@, s@))));
                            assert(save_step(
                                old(self).model,
                                old(self).model.save_keys@,
                                0,
                                start,
                                old(self).is_new,
                            ) == (st_i, Some((key@, s@))));
                            assert(self@ == (ObjState {
                                map: st_i.map,
                                dirty: st_i.dirty,
                                is_modified: st_i.is_modified,
                                ..old(self)@
                            }));
                        }
                        return Err(ActionError::invalid_input(key, s));
                    },
                    Stage::Value(v) | Stage::ConditionTrue(v) | Stage::ConditionFalse(v) => {
                        upsert(&mut self.value_map, &key, v);
                        if !self.is_new {
                            self.is_modified = true;
                            insert_key(&mut self.modified_fields, &key);
                        }
                    },
                }
            }
            proof {
                let st_next = PipelinePhase {
                    map: self@.map,
                    dirty: self@.dirty,
                    is_modified: self.is_modified,
                };
                assert(save_step(self.model, keys, i as int, st_i, self.is_new) == save_step(
                    self.model,
                    keys,
                    i + 1,
                    st_next,
                    self.is_new,
                ));
            }
            i = i + 1;
        }
        match connector.save_object(&*self) {
            Ok(_) => {
                self.is_new = false;
                self.is_modified = false;
                self.modified_fields = Vec::new();
                proof {
                    assert(key_set(self.modified_fields@) =~= Set::<Seq<char>>::empty());
                }
                Ok(())
            },
            Err(e) => Err(e),
        }
    }

    /// Hands the entity to the connector's delete capability; the outcome is
    /// the connector's alone, propagated unchanged, and the in-memory state
    /// is untouched.
    pub fn delete<C: Connector>(&self, connector: &mut C) -> Result<(), ActionError>
        requires
            self.inv(),
    {
        connector.delete_object(self)
    }
}

} // verus!

verus! {

/// The value the payload carries for a key, first occurrence winning.
pub open spec fn payload_lookup(p: Seq<(String, Value)>, k: Seq<char>) -> Option<ValueView>
    decreases p.len(),
{
    if p.len() == 0 {
        None
    } else if p[0].0@ == k {
        Some(p[0].1@)
    } else {
        payload_lookup(p.drop_first(), k)
    }
}

/// A scan that stops at the first match computes `payload_lookup`.
proof fn lemma_payload_lookup_at(p: Seq<(String, Value)>, i: int, k: Seq<char>)
    requires
        0 <= i < p.len(),
        forall|j: int| 0 <= j < i ==> p[j].0@ != k,
        p[i].0@ == k,
    ensures
        payload_lookup(p, k) == Some(p[i].1@),
    decreases i,
{
    if i > 0 {
        assert forall|j: int| 0 <= j < i - 1 implies p.drop_first()[j].0@ != k by {
            assert(p.drop_first()[j] == p[j + 1]);
        }
        assert(p.drop_first()[i - 1] == p[i]);
        lemma_payload_lookup_at(p.drop_first(), i - 1, k);
    }
}

/// A scan that finds nothing means the payload carries nothing.
proof fn lemma_payload_lookup_none(p: Seq<(String, Value)>, k: Seq<char>)
    requires
        forall|j: int| 0 <= j < p.len() ==> p[j].0@ != k,
    ensures
        payload_lookup(p, k) is None,
    decreases p.len(),
{
    if p.len() > 0 {
        assert forall|j: int| 0 <= j < p.len() - 1 implies p.drop_first()[j].0@ != k by {
            assert(p.drop_first()[j] == p[j + 1]);
        }
        lemma_payload_lookup_none(p.drop_first(), k);
    }
}

/// The typed value a raw payload value decodes to under a field's declared
/// type: null passes through, a scalar must match the declared type.
pub open spec fn decode_spec(t: FieldType, v: ValueView) -> Option<ValueView> {
    match v {
        ValueView::Null => Some(v),
        ValueView::Bool(_) => if t is Bool {
            Some(v)
        } else {
            None
        },
        ValueView::Int(_) => if t is Int {
            Some(v)
        } else {
            None
        },
        ValueView::Text(_) => if t is Text {
            Some(v)
        } else {
            None
        },
    }
}

/// Decodes a payload value against a declared field type.
fn decode_value(t: FieldType, v: &Value) -> (r: Option<Value>)
    ensures
        match r {
            Some(x) => decode_spec(t, v@) == Some(x@),
            None => decode_spec(t, v@) is None,
        },
{
    match v {
        Value::Null => Some(Value::Null),
        Value::Bool(b) => if matches!(t, FieldType::Bool) {
            Some(Value::Bool(*b))
        } else {
            None
        },
        Value::Int(i) => if matches!(t, FieldType::Int) {
            Some(Value::Int(*i))
        } else {
            None
        },
        Value::Text(s) => if matches!(t, FieldType::Text) {
            Some(Value::Text(s.clone()))
        } else {
            None
        },
    }
}

/// One committed field write during ingestion: a null result unsets the key
/// (on a non-new entity), any other result upserts it; on a non-new entity
/// the key turns dirty and the entity counts as modified.
pub open spec fn apply_write(
    st: PipelinePhase,
    k: Seq<char>,
    v: ValueView,
    is_new: bool,
) -> PipelinePhase {
    PipelinePhase {
        map: if v is Null {
            if !is_new {
                st.map.remove(k)
            } else {
                st.map
            }
        } else {
            st.map.insert(k, v)
        },
        dirty: if !is_new {
            st.dirty.insert(k)
        } else {
            st.dirty
        },
        is_modified: st.is_modified || !is_new,
    }
}

/// One ingestion step for a key. A present payload value is decoded against
/// the field's type (a mismatch is a field-tagged invalid input), threaded
/// through the field's on-set pipeline (a final `Invalid` stage likewise),
/// and committed. An absent value applies the field's default, if any: a
/// literal is inserted directly, a pipeline default is evaluated against a
/// null stage and its result inserted.
pub open spec fn ingest_step1(
    m: Model,
    k: Seq<char>,
    inc: Option<ValueView>,
    st: PipelinePhase,
    is_new: bool,
) -> (PipelinePhase, Option<(Seq<char>, Seq<char>)>) {
    match m.spec_field(k) {
        None => (st, None),
        Some(f) => match inc {
            Some(raw) => match decode_spec(f.field_type, raw) {
                None => (st, Some((k, "invalid value type"@))),
                Some(decoded) => {
                    let res = f.on_set_pipeline.process_spec(StageView::Value(decoded));
                    match res.value() {
                        None => (st, Some((k, res->Invalid_0))),
                        Some(v) => (apply_write(st, k, v, is_new), None),
                    }
                },
            },
            None => match f.default {
                None => (st, None),
                Some(Argument::ValueArgument(dv)) => (
                    (PipelinePhase { map: st.map.insert(k, dv@), ..st }),
                    None,
                ),
                Some(Argument::PipelineArgument(p)) => {
                    let res = p.process_spec(StageView::Value(ValueView::Null));
                    match res.value() {
                        None => (st, Some((k, res->Invalid_0))),
                        Some(v) => ((PipelinePhase { map: st.map.insert(k, v), ..st }), None),
                    }
                },
            },
        },
    }
}

/// The ingestion pass from step `i` on: steps run in order and the first
/// failing one stops the pass, leaving the writes of the earlier steps in
/// place.
pub open spec fn ingest_fold(
    m: Model,
    steps: Seq<(Seq<char>, Option<ValueView>)>,
    i: int,
    st: PipelinePhase,
    is_new: bool,
) -> (PipelinePhase, Option<(Seq<char>, Seq<char>)>)
    decreases steps.len() - i,
{
    if i < 0 || i >= steps.len() {
        (st, None)
    } else {
        let stepped = ingest_step1(m, steps[i].0, steps[i].1, st, is_new);
        if stepped.1 is Some {
            stepped
        } else {
            ingest_fold(m, steps, i + 1, stepped.0, is_new)
        }
    }
}

/// The key list an ingestion call checks the payload against: the input
/// role for creation, the persisted keys for the trusted update path.
pub open spec fn checked_keys(m: Model, use_input: bool) -> Seq<String> {
    if use_input {
        m.input_keys@
    } else {
        m.save_keys@
    }
}

/// Whether every payload key is inside the checked key list.
pub open spec fn payload_allowed(checked: Seq<String>, payload: Seq<(String, Value)>) -> bool {
    forall|i: int| 0 <= i < payload.len() ==> key_set(checked).contains(#[trigger] payload[i].0@)
}

/// The steps an ingestion call takes: once the entity is initialized,
/// exactly the payload's pairs in order; before that, every checked key in
/// declaration order, each taking the payload's value for it or, failing
/// that, its default.
pub open spec fn ingest_steps(
    m: Model,
    payload: Seq<(String, Value)>,
    initialized: bool,
    use_input: bool,
) -> Seq<(Seq<char>, Option<ValueView>)> {
    if initialized {
        payload.map(|i: int, p: (String, Value)| (p.0@, Some(p.1@)))
    } else {
        checked_keys(m, use_input).map(|i: int, k: String| (k@, payload_lookup(payload, k@)))
    }
}

/// The full contract of an ingestion call, relating the state before and
/// after to the payload, the key role and the result: a payload key outside
/// the checked set is refused whole, with nothing applied; otherwise the
/// steps run in order until the first failure, whose field-tagged error is
/// returned with the earlier writes kept; a full pass marks the entity
/// initialized.
pub open spec fn ingest_post(
    m: Model,
    pre: ObjState,
    post: ObjState,
    payload: Seq<(String, Value)>,
    use_input: bool,
    r: Result<(), ActionError>,
) -> bool {
    if !payload_allowed(checked_keys(m, use_input), payload) {
        &&& r matches Err(e) && e@ == ActionErrorView::KeysUnallowed
        &&& post == pre
    } else {
        let start = PipelinePhase { map: pre.map, dirty: pre.dirty, is_modified: pre.is_modified };
        let folded = ingest_fold(m, ingest_steps(m, payload, pre.is_initialized, use_input), 0, start, pre.is_new);
        match folded.1 {
            Some(err) => {
                &&& r matches Err(e) && e@ == (ActionErrorView::InvalidInput {
                    key: err.0,
                    message: err.1,
                })
                &&& post == (ObjState {
                    map: folded.0.map,
                    dirty: folded.0.dirty,
                    is_modified: folded.0.is_modified,
                    ..pre
                })
            },
            None => {
                &&& r is Ok
                &&& post == (ObjState {
                    map: folded.0.map,
                    dirty: folded.0.dirty,
                    is_modified: folded.0.is_modified,
                    is_initialized: true,
                    ..pre
                })
            },
        }
    }
}

/// Looks a key up in a payload, first occurrence winning.
fn payload_get<'a>(payload: &'a Vec<(String, Value)>, key: &String) -> (r: Option<&'a Value>)
    ensures
        match r {
            Some(v) => payload_lookup(payload@, key@) == Some(v@),
            None => payload_lookup(payload@, key@) is None,
        },
{
    let mut i: usize = 0;
    while i < payload.len()
        invariant
            i <= payload@.len(),
            forall|j: int| 0 <= j < i ==> payload@[j].0@ != key@,
        decreases payload@.len() - i,
    {
        if payload[i].0 == *key {
            proof {
                lemma_payload_lookup_at(payload@, i as int, key@);
            }
            return Some(&payload[i].1);
        }
        i = i + 1;
    }
    proof {
        lemma_payload_lookup_none(payload@, key@);
    }
    None
}

impl Object {
    /// Ingests one key: decode, on-set pipeline, commit — or the field's
    /// default where the payload carries nothing.
    fn apply_step(&mut self, key: String, incoming: Option<&Value>) -> (r: Result<
        (),
        ActionError,
    >)
        requires
            old(self).inv(),
            old(self).model.has_field(key@),
        ensures
            final(self).inv(),
            final(self).model == old(self).model,
            ({
                let st = PipelinePhase {
                    map: old(self)@.map,
                    dirty: old(self)@.dirty,
                    is_modified: old(self)@.is_modified,
                };
                let inc = match incoming {
                    Some(v) => Some(v@),
                    None => None::<ValueView>,
                };
                let stepped = ingest_step1(old(self).model, key@, inc, st, old(self).is_new);
                &&& final(self)@ == (ObjState {
                    map: stepped.0.map,
                    dirty: stepped.0.dirty,
                    is_modified: stepped.0.is_modified,
                    ..old(self)@
                })
                &&& match stepped.1 {
                    Some(err) => r matches Err(e) && e@ == (ActionErrorView::InvalidInput {
                        key: err.0,
                        message: err.1,
                    }),
                    None => r is Ok,
                }
            }),
    {
        let field = match self.model.field(&key) {
            Some(f) => f,
            None => unreached(),
        };
        match incoming {
            Some(raw) => {
                let decoded = match decode_value(field.field_type, raw) {
                    Some(d) => d,
                    None => {
                        return Err(ActionError::invalid_input(key, "invalid value type".to_owned()));
                    },
                };
                let stage = field.on_set_pipeline.process(Stage::Value(decoded));
                match stage {
                    Stage::Invalid(s) => Err(ActionError::invalid_input(key, s)),
                    Stage::Value(v) | Stage::ConditionTrue(v) | Stage::ConditionFalse(v) => {
                        if v.is_null() {
                            if !self.is_new {
                                remove_entry(&mut self.value_map, &key);
                            }
                        } else {
                            upsert(&mut self.value_map, &key, v);
                        }
                        if !self.is_new {
                            self.is_modified = true;
                            insert_key(&mut self.modified_fields, &key);
                        }
                        Ok(())
                    },
                }
            },
            None => {
                match &field.default {
                    None => Ok(()),
                    Some(Argument::ValueArgument(dv)) => {
                        let d = dv.clone();
                        upsert(&mut self.value_map, &key, d);
                        Ok(())
                    },
                    Some(Argument::PipelineArgument(p)) => {
                        let stage = p.process(Stage::Value(Value::Null));
                        match stage {
                            Stage::Invalid(s) => Err(ActionError::invalid_input(key, s)),
                            Stage::Value(v) | Stage::ConditionTrue(v) | Stage::ConditionFalse(
                                v,
                            ) => {
                                upsert(&mut self.value_map, &key, v);
                                Ok(())
                            },
                        }
                    },
                }
            },
        }
    }
}

} // verus!

verus! {

impl Object {
    /// The shared ingestion pass under `set_json` and `update_json`: checks
    /// every payload key against the role's key list before touching any
    /// state, then runs the steps of `ingest_steps` in order, and on a full
    /// pass marks the entity initialized.
    fn set_or_update_json(&mut self, payload: &Vec<(String, Value)>, use_input_keys: bool) -> (r:
        Result<(), ActionError>)
        requires
            old(self).inv(),
        ensures
            final(self).inv(),
            final(self).model == old(self).model,
            ingest_post(old(self).model, old(self)@, final(self)@, payload@, use_input_keys, r),
            !payload_allowed(checked_keys(old(self).model, use_input_keys), payload@)
                ==> *final(self) == *old(self),
    {
        let mut i: usize = 0;
        while i < payload.len()
            invariant
                i <= payload@.len(),
                *self == *old(self),
                self.inv(),
                forall|j: int|
                    0 <= j < i ==> key_set(
                        checked_keys(old(self).model, use_input_keys),
                    ).contains(#[trigger] payload@[j].0@),
            decreases payload@.len() - i,
        {
            let ok = if use_input_keys {
                contains_key(&self.model.input_keys, &payload[i].0)
            } else {
                contains_key(&self.model.save_keys, &payload[i].0)
            };
            if !ok {
                proof {
                    assert(!payload_allowed(
                        checked_keys(old(self).model, use_input_keys),
                        payload@,
                    ));
                }
                return Err(ActionError::keys_unallowed());
            }
            i = i + 1;
        }
        proof {
            assert(payload_allowed(checked_keys(old(self).model, use_input_keys), payload@));
        }
        let ghost steps = ingest_steps(
            self.model,
            payload@,
            self.is_initialized,
            use_input_keys,
        );
        let ghost start = PipelinePhase {
            map: self@.map,
            dirty: self@.dirty,
            is_modified: self.is_modified,
        };
        if self.is_initialized {
            let mut i: usize = 0;
            while i < payload.len()
                invariant
                    i <= payload@.len(),
                    self.inv(),
                    self.model == old(self).model,
                    self.is_new == old(self).is_new,
                    self.is_initialized == old(self).is_initialized,
                    old(self).is_initialized,
                    self.is_partial == old(self).is_partial,
                    self.is_deleted == old(self).is_deleted,
                    key_set(self.selected_fields@) == old(self)@.selected,
                    payload_allowed(checked_keys(old(self).model, use_input_keys), payload@),
                    steps == ingest_steps(
                        old(self).model,
                        payload@,
                        old(self).is_initialized,
                        use_input_keys,
                    ),
                    start == (PipelinePhase {
                        map: old(self)@.map,
                        dirty: old(self)@.dirty,
                        is_modified: old(self)@.is_modified,
                    }),
                    ingest_fold(old(self).model, steps, 0, start, old(self).is_new)
                        == ingest_fold(
                        old(self).model,
                        steps,
                        i as int,
                        PipelinePhase {
                            map: self@.map,
                            dirty: self@.dirty,
                            is_modified: self.is_modified,
                        },
                        old(self).is_new,
                    ),
                decreases payload@.len() - i,
            {
                let ghost st_i = PipelinePhase {
                    map: self@.map,
                    dirty: self@.dirty,
                    is_modified: self.is_modified,
                };
                let key = payload[i].0.clone();
                proof {
                    assert(steps[i as int] == (payload@[i as int].0@, Some(
                        payload@[i as int].1@,
                    )));
                    assert(key_set(checked_keys(old(self).model, use_input_keys)).contains(
                        payload@[i as int].0@,
                    ));
                    let ck = checked_keys(old(self).model, use_input_keys);
                    let w = choose|w: int| 0 <= w < ck.len() && ck[w]@ == key@;
                    assert(self.model.has_field(ck[w]@));
                }
                match self.apply_step(key, Some(&payload[i].1)) {
                    Ok(_) => {
                        proof {
                            let st_next = PipelinePhase {
                                map: self@.map,
                                dirty: self@.dirty,
                                is_modified: self.is_modified,
                            };
                            assert(ingest_fold(
                                old(self).model,
                                steps,
                                i as int,
                                st_i,
                                old(self).is_new,
                            ) == ingest_fold(
                                old(self).model,
                                steps,
                                i + 1,
                                st_next,
                                old(self).is_new,
                            ));
                        }
                    },
                    Err(e) => {
                        proof {
                            assert(ingest_fold(
                                old(self).model,
                                steps,
                                i as int,
                                st_i,
                                old(self).is_new,
                            ).1 is Some);
                        }
                        return Err(e);
                    },
                }
                i = i + 1;
            }
            self.is_initialized = true;
            Ok(())
        } else {
            let n = if use_input_keys {
                self.model.input_keys.len()
            } else {
                self.model.save_keys.len()
            };
            let mut i: usize = 0;
            while i < n
                invariant
                    i <= n,
                    n == checked_keys(old(self).model, use_input_keys).len(),
                    self.inv(),
                    self.model == old(self).model,
                    self.is_new == old(self).is_new,
                    self.is_initialized == old(self).is_initialized,
                    !old(self).is_initialized,
                    self.is_partial == old(self).is_partial,
                    self.is_deleted == old(self).is_deleted,
                    key_set(self.selected_fields@) == old(self)@.selected,
                    payload_allowed(checked_keys(old(self).model, use_input_keys), payload@),
                    steps == ingest_steps(
                        old(self).model,
                        payload@,
                        old(self).is_initialized,
                        use_input_keys,
                    ),
                    start == (PipelinePhase {
                        map: old(self)@.map,
                        dirty: old(self)@.dirty,
                        is_modified: old(self)@.is_modified,
                    }),
                    ingest_fold(old(self).model, steps, 0, start, old(self).is_new)
                        == ingest_fold(
                        old(self).model,
                        steps,
                        i as int,
                        PipelinePhase {
                            map: self@.map,
                            dirty: self@.dirty,
                            is_modified: self.is_modified,
                        },
                        old(self).is_new,
                    ),
                decreases n - i,
            {
                let ghost st_i = PipelinePhase {
                    map: self@.map,
                    dirty: self@.dirty,
                    is_modified: self.is_modified,
                };
                let key = if use_input_keys {
                    self.model.input_keys[i].clone()
                } else {
                    self.model.save_keys[i].clone()
                };
                proof {
                    let ck = checked_keys(old(self).model, use_input_keys);
                    assert(key@ == ck[i as int]@);
                    assert(steps[i as int] == (ck[i as int]@, payload_lookup(
                        payload@,
                        ck[i as int]@,
                    )));
                    assert(self.model.has_field(ck[i as int]@));
                }
                let incoming = payload_get(payload, &key);
                match self.apply_step(key, incoming) {
                    Ok(_) => {
                        proof {
                            let st_next = PipelinePhase {
                                map: self@.map,
                                dirty: self@.dirty,
                                is_modified: self.is_modified,
                            };
                            assert(ingest_fold(
                                old(self).model,
                                steps,
                                i as int,
                                st_i,
                                old(self).is_new,
                            ) == ingest_fold(
                                old(self).model,
                                steps,
                                i + 1,
                                st_next,
                                old(self).is_new,
                            ));
                        }
                    },
                    Err(e) => {
                        proof {
                            assert(ingest_fold(
                                old(self).model,
                                steps,
                                i as int,
                                st_i,
                                old(self).is_new,
                            ).1 is Some);
                        }
                        return Err(e);
                    },
                }
                i = i + 1;
            }
            self.is_initialized = true;
            Ok(())
        }
    }

    /// Ingests a JSON object through the input role: creation and full
    /// replacement. Every payload key must be writable through the input
    /// key set.
    pub fn set_json(&mut self, payload: &Vec<(String, Value)>) -> (r: Result<(), ActionError>)
        requires
            old(self).inv(),
        ensures
            final(self).inv(),
            final(self).model == old(self).model,
            ingest_post(old(self).model, old(self)@, final(self)@, payload@, true, r),
            !payload_allowed(old(self).model.input_keys@, payload@) ==> *final(self) == *old(
                self,
            ),
    {
        self.set_or_update_json(payload, true)
    }

    /// Ingests a JSON object through the trusted internal update path: keys
    /// are checked against the persisted (save) key set rather than the
    /// input role, deliberately bypassing writability-by-input-role
    /// restrictions.
    pub fn update_json(&mut self, payload: &Vec<(String, Value)>) -> (r: Result<(), ActionError>)
        requires
            old(self).inv(),
        ensures
            final(self).inv(),
            final(self).model == old(self).model,
            ingest_post(old(self).model, old(self)@, final(self)@, payload@, false, r),
            !payload_allowed(old(self).model.save_keys@, payload@) ==> *final(self) == *old(self),
    {
        self.set_or_update_json(payload, false)
    }
}

} // verus!

verus! {

/// A sequence of raw `set_value` writes, each applied only when its key is
/// in the allowed (save-key) set, as the entity applies them.
pub open spec fn apply_set_values(
    allowed: Set<Seq<char>>,
    s: ObjState,
    calls: Seq<(Seq<char>, ValueView)>,
) -> ObjState
    decreases calls.len(),
{
    if calls.len() == 0 {
        s
    } else {
        let s1 = if allowed.contains(calls[0].0) {
            step_set_value(s, calls[0].0, calls[0].1)
        } else {
            s
        };
        apply_set_values(allowed, s1, calls.drop_first())
    }
}

/// Once a key is dirty and the entity counts as modified, no later raw
/// write takes that back.
proof fn lemma_set_values_keep_dirty(
    allowed: Set<Seq<char>>,
    s: ObjState,
    calls: Seq<(Seq<char>, ValueView)>,
    k: Seq<char>,
)
    requires
        s.dirty.contains(k),
        s.is_modified,
    ensures
        apply_set_values(allowed, s, calls).dirty.contains(k),
        apply_set_values(allowed, s, calls).is_modified,
    decreases calls.len(),
{
    if calls.len() > 0 {
        let s1 = if allowed.contains(calls[0].0) {
            step_set_value(s, calls[0].0, calls[0].1)
        } else {
            s
        };
        lemma_set_values_keep_dirty(allowed, s1, calls.drop_first(), k);
    }
}

/// Dirty tracking: for any field in the allowed (save-key) set and any
/// sequence of raw `set_value` writes on an entity that is no longer new,
/// once the field is written the dirty set contains it and the entity
/// counts as modified, through the end of the sequence.
pub proof fn lemma_set_value_tracks_dirty(
    allowed: Set<Seq<char>>,
    s: ObjState,
    calls: Seq<(Seq<char>, ValueView)>,
    n: int,
)
    requires
        !s.is_new,
        0 <= n < calls.len(),
        allowed.contains(calls[n].0),
    ensures
        apply_set_values(allowed, s, calls).dirty.contains(calls[n].0),
        apply_set_values(allowed, s, calls).is_modified,
    decreases calls.len(),
{
    let s1 = if allowed.contains(calls[0].0) {
        step_set_value(s, calls[0].0, calls[0].1)
    } else {
        s
    };
    if n == 0 {
        lemma_set_values_keep_dirty(allowed, s1, calls.drop_first(), calls[0].0);
    } else {
        assert(calls.drop_first()[n - 1] == calls[n]);
        lemma_set_value_tracks_dirty(allowed, s1, calls.drop_first(), n - 1);
    }
}

/// Null unsets: writing the null value to a field removes it, so a
/// subsequent read of any declared field name returns "absent" — never an
/// error — for that key.
pub proof fn lemma_null_write_reads_absent(m: Model, s: ObjState, k: Seq<char>)
    requires
        m.get_value_key_set().contains(k),
    ensures
        get_value_outcome(m, step_set_value(s, k, ValueView::Null), k) == Ok::<
            Option<ValueView>,
            ActionErrorView,
        >(None),
{
}

} // verus!

verus! {

/// The entity's identity value: the stored value of the primary-marked
/// field, where the metadata declares one and the entity stores one.
pub open spec fn spec_identifier(o: Object) -> Option<ValueView> {
    match o.model.primary_field_index {
        Some(i) => if (i as int) < o.model.fields@.len() {
            payload_lookup(o.value_map@, o.model.fields@[i as int].name@)
        } else {
            None
        },
        None => None,
    }
}

impl vstd::std_specs::cmp::PartialEqSpecImpl for Object {
    open spec fn obeys_eq_spec() -> bool {
        true
    }

    open spec fn eq_spec(&self, other: &Object) -> bool {
        &&& self.model.name@ == other.model.name@
        &&& spec_identifier(*self) is Some
        &&& spec_identifier(*self) == spec_identifier(*other)
    }
}

impl PartialEq for Object {
    /// Two entities are equal exactly when they share their metadata
    /// identity (the model name) and their stored primary-key value — never
    /// by field-by-field comparison.
    fn eq(&self, other: &Object) -> (r: bool) {
        if !(self.model.name == other.model.name) {
            return false;
        }
        let mine = match self.model.primary_field_index {
            Some(i) if i < self.model.fields.len() => payload_get(
                &self.value_map,
                &self.model.fields[i].name,
            ),
            _ => None,
        };
        let theirs = match other.model.primary_field_index {
            Some(i) if i < other.model.fields.len() => payload_get(
                &other.value_map,
                &other.model.fields[i].name,
            ),
            _ => None,
        };
        match (mine, theirs) {
            (Some(a), Some(b)) => a.value_eq(b),
            _ => false,
        }
    }
}

} // verus!
