use vstd::prelude::*;
use crate::field::{Field, Sort};
use crate::keys::{distinct_keys, key_set};
use crate::pipeline::Pipeline;

verus! {

/// One API action an entity type can expose.
#[derive(Clone, Copy, Debug, PartialEq, Eq, Structural)]
pub enum ActionType {
    FindUnique,
    FindMany,
    Create,
    Update,
    Upsert,
    Delete,
    SignIn,
}

/// The actions a freshly declared entity type exposes: every data action,
/// and no sign-in.
pub fn default_actions() -> (r: Vec<ActionType>)
    ensures
        r@ =~= seq![
            ActionType::FindUnique,
            ActionType::FindMany,
            ActionType::Create,
            ActionType::Update,
            ActionType::Upsert,
            ActionType::Delete,
        ],
{
    let mut r: Vec<ActionType> = Vec::new();
    r.push(ActionType::FindUnique);
    r.push(ActionType::FindMany);
    r.push(ActionType::Create);
    r.push(ActionType::Update);
    r.push(ActionType::Upsert);
    r.push(ActionType::Delete);
    r
}

/// Whether the list holds the action.
pub fn action_contains(v: &Vec<ActionType>, a: ActionType) -> (r: bool)
    ensures
        r == v@.contains(a),
{
    let mut i: usize = 0;
    while i < v.len()
        invariant
            i <= v@.len(),
            forall|j: int| 0 <= j < i ==> v@[j] != a,
        decreases v@.len() - i,
    {
        if v[i] == a {
            assert(v@[i as int] == a);
            return true;
        }
        i = i + 1;
    }
    false
}

/// Adds the action unless it is already listed.
pub fn insert_action(v: &mut Vec<ActionType>, a: ActionType)
    ensures
        final(v)@ == if old(v)@.contains(a) {
            old(v)@
        } else {
            old(v)@.push(a)
        },
{
    if !action_contains(v, a) {
        v.push(a);
    }
}

/// Permission gates of an entity type; each gate is a pipeline probe.
#[derive(Debug)]
pub struct Permission {
    pub can_read: Option<Pipeline>,
    pub can_mutate: Option<Pipeline>,
}

/// The role of an index.
#[derive(Clone, Copy, Debug, PartialEq, Eq, Structural)]
pub enum ModelIndexType {
    Primary,
    Index,
    Unique,
}

/// One column of an index: a field name, a sort order, and an optional
/// prefix length.
#[derive(Debug)]
pub struct ModelIndexItem {
    pub field_name: String,
    pub sort: Sort,
    pub len: Option<u64>,
}

/// The mathematical content of a `ModelIndexItem`.
pub ghost struct ModelIndexItemView {
    pub field_name: Seq<char>,
    pub sort: Sort,
    pub len: Option<u64>,
}

impl View for ModelIndexItem {
    type V = ModelIndexItemView;

    open spec fn view(&self) -> ModelIndexItemView {
        ModelIndexItemView { field_name: self.field_name@, sort: self.sort, len: self.len }
    }
}

/// A named index over an ordered list of columns.
#[derive(Debug)]
pub struct ModelIndex {
    pub index_type: ModelIndexType,
    pub name: String,
    pub items: Vec<ModelIndexItem>,
}

/// The mathematical content of a `ModelIndex`.
pub ghost struct ModelIndexView {
    pub index_type: ModelIndexType,
    pub name: Seq<char>,
    pub items: Seq<ModelIndexItemView>,
}

/// The views of a list of index items, in order.
pub open spec fn item_views(items: Seq<ModelIndexItem>) -> Seq<ModelIndexItemView> {
    items.map(|i: int, it: ModelIndexItem| it@)
}

impl View for ModelIndex {
    type V = ModelIndexView;

    open spec fn view(&self) -> ModelIndexView {
        ModelIndexView {
            index_type: self.index_type,
            name: self.name@,
            items: item_views(self.items@),
        }
    }
}

/// Compiled, immutable schema facts for one entity type: the field list,
/// the four key-role projections, and the index definitions. Entities only
/// consult these sets; they never recompute them.
#[derive(Debug)]
pub struct Model {
    pub name: String,
    pub table_name: String,
    pub url_segment_name: String,
    pub localized_name: String,
    pub description: String,
    pub identity: bool,
    pub actions: Vec<ActionType>,
    pub permission: Option<Permission>,
    pub fields: Vec<Field>,
    pub primary: ModelIndex,
    pub indices: Vec<ModelIndex>,
    pub primary_field_index: Option<usize>,
    pub input_keys: Vec<String>,
    pub save_keys: Vec<String>,
    pub output_keys: Vec<String>,
    pub get_value_keys: Vec<String>,
    pub query_keys: Vec<String>,
    pub unique_query_keys: Vec<String>,
    pub auth_identity_keys: Vec<String>,
    pub auth_by_keys: Vec<String>,
    pub before_delete_pipeline: Pipeline,
}

impl Model {
    /// Whether some declared field carries this name.
    pub open spec fn has_field(self, k: Seq<char>) -> bool {
        exists|i: int| 0 <= i < self.fields@.len() && self.fields@[i].name@ == k
    }

    /// The position of the field carrying this name.
    pub open spec fn field_index_of(self, k: Seq<char>) -> int {
        choose|i: int| 0 <= i < self.fields@.len() && self.fields@[i].name@ == k
    }

    /// The declared field carrying this name, if any.
    pub open spec fn spec_field(self, k: Seq<char>) -> Option<Field> {
        if self.has_field(k) {
            Some(self.fields@[self.field_index_of(k)])
        } else {
            None
        }
    }

    /// Well-formedness the schema builder establishes: field names are
    /// distinct, every key-role entry names a declared field, and the
    /// primary-field position is sound.
    pub open spec fn wf(self) -> bool {
        &&& forall|i: int, j: int|
            0 <= i < j < self.fields@.len() ==> self.fields@[i].name@ != self.fields@[j].name@
        &&& forall|i: int|
            0 <= i < self.input_keys@.len() ==> self.has_field(#[trigger] self.input_keys@[i]@)
        &&& forall|i: int|
            0 <= i < self.save_keys@.len() ==> self.has_field(#[trigger] self.save_keys@[i]@)
        &&& forall|i: int|
            0 <= i < self.output_keys@.len() ==> self.has_field(
                #[trigger] self.output_keys@[i]@,
            )
        &&& forall|i: int|
            0 <= i < self.get_value_keys@.len() ==> self.has_field(
                #[trigger] self.get_value_keys@[i]@,
            )
        &&& distinct_keys(self.input_keys@)
        &&& distinct_keys(self.save_keys@)
        &&& distinct_keys(self.output_keys@)
        &&& distinct_keys(self.get_value_keys@)
        &&& match self.primary_field_index {
            Some(i) => i < self.fields@.len() && self.fields@[i as int].primary,
            None => true,
        }
    }

    /// Looks a field up by name.
    pub fn field(&self, key: &String) -> (r: Option<&Field>)
        requires
            self.wf(),
        ensures
            match r {
                Some(f) => self.spec_field(key@) == Some(*f),
                None => !self.has_field(key@),
            },
    {
        let mut i: usize = 0;
        while i < self.fields.len()
            invariant
                i <= self.fields@.len(),
                self.wf(),
                forall|j: int| 0 <= j < i ==> self.fields@[j].name@ != key@,
            decreases self.fields@.len() - i,
        {
            if self.fields[i].name == *key {
                proof {
                    assert(self.fields@[i as int].name@ == key@);
                    let w = self.field_index_of(key@);
                    assert(0 <= w < self.fields@.len() && self.fields@[w].name@ == key@);
                    assert(w == i as int);
                }
                return Some(&self.fields[i]);
            }
            i = i + 1;
        }
        None
    }

    /// The field marked primary, if one was declared.
    pub fn primary_field(&self) -> (r: Option<&Field>)
        requires
            self.wf(),
        ensures
            match self.primary_field_index {
                Some(i) => r == Some(&self.fields@[i as int]) && self.fields@[i as int].primary,
                None => r is None,
            },
    {
        match self.primary_field_index {
            Some(i) => Some(&self.fields[i]),
            None => None,
        }
    }

    /// Whether a key is permitted for raw value writes (the persisted set).
    pub open spec fn save_key_set(self) -> Set<Seq<char>> {
        key_set(self.save_keys@)
    }

    /// Whether a key is permitted for reads (all declared fields).
    pub open spec fn get_value_key_set(self) -> Set<Seq<char>> {
        key_set(self.get_value_keys@)
    }

    /// The keys the input role may write.
    pub open spec fn input_key_set(self) -> Set<Seq<char>> {
        key_set(self.input_keys@)
    }

    /// The keys serialization exposes.
    pub open spec fn output_key_set(self) -> Set<Seq<char>> {
        key_set(self.output_keys@)
    }
}

} // verus!
