use vstd::prelude::*;
use vstd::string::StringExecFns;
use crate::field::{Field, FieldIndex, IndexSettings, ReadRule, Sort, Store, WriteRule, QueryAbility};
use crate::keys::{distinct_keys, key_views};
use crate::model::{
    ActionType, Model, ModelIndex, ModelIndexItem, ModelIndexItemView, ModelIndexType,
    ModelIndexView, Permission, default_actions, insert_action, item_views,
};
use crate::pipeline::Pipeline;
use crate::text::{kebab_case, kebab_of, lower_of, lowercase, plural_of, pluralize};

verus! {

/// A schema-definition error; fatal at build time, never at request time.
#[derive(Clone, Copy, Debug, PartialEq, Eq, Structural)]
pub enum ModelError {
    /// No field is marked primary and no primary index was declared.
    MissingPrimary,
    /// Two declared fields share a name.
    DuplicateFieldName,
}

/// The four key-role projections and the auxiliary key lists are all
/// filters of the declared field list; the role picks the filter.
#[derive(Clone, Copy, Debug, PartialEq, Eq, Structural)]
pub enum KeyRole {
    Input,
    Save,
    Output,
    GetValue,
    Query,
    UniqueQuery,
    AuthIdentity,
    AuthBy,
}

/// Whether a field belongs to a key role.
pub open spec fn role_admits(role: KeyRole, f: Field) -> bool {
    match role {
        KeyRole::Input => !(f.write_rule is NoWrite),
        KeyRole::Save => !(f.store is Calculated) && !(f.store is Temp),
        KeyRole::Output => !(f.read_rule is NoRead),
        KeyRole::GetValue => true,
        KeyRole::Query => f.query_ability is Queryable,
        KeyRole::UniqueQuery => true,
        KeyRole::AuthIdentity => f.auth_identity,
        KeyRole::AuthBy => f.auth_by,
    }
}

/// The names of the fields a role admits, in declaration order.
pub open spec fn role_names(role: KeyRole, fields: Seq<Field>) -> Seq<Seq<char>>
    decreases fields.len(),
{
    if fields.len() == 0 {
        Seq::empty()
    } else {
        role_names(role, fields.drop_last()) + if role_admits(role, fields.last()) {
            seq![fields.last().name@]
        } else {
            Seq::empty()
        }
    }
}

/// Every name a role yields is the name of some declared field.
pub proof fn lemma_role_names_are_field_names(role: KeyRole, fields: Seq<Field>)
    ensures
        forall|j: int|
            0 <= j < role_names(role, fields).len() ==> exists|i: int|
                0 <= i < fields.len() && fields[i].name@ == #[trigger] role_names(
                    role,
                    fields,
                )[j],
    decreases fields.len(),
{
    if fields.len() > 0 {
        lemma_role_names_are_field_names(role, fields.drop_last());
        assert forall|j: int| 0 <= j < role_names(role, fields).len() implies exists|i: int|
            0 <= i < fields.len() && fields[i].name@ == #[trigger] role_names(role, fields)[j] by {
            let dl = fields.drop_last();
            if j < role_names(role, dl).len() {
                let w = choose|i: int|
                    0 <= i < dl.len() && dl[i].name@ == role_names(role, dl)[j];
                assert(fields[w] == dl[w]);
            } else {
                assert(fields[fields.len() - 1].name@ == role_names(role, fields)[j]);
            }
        }
    }
}

/// Distinct field names yield distinct role names.
pub proof fn lemma_role_names_distinct(role: KeyRole, fields: Seq<Field>)
    requires
        distinct_field_names(fields),
    ensures
        forall|a: int, b: int|
            0 <= a < b < role_names(role, fields).len() ==> role_names(role, fields)[a]
                != role_names(role, fields)[b],
    decreases fields.len(),
{
    if fields.len() > 0 {
        let dl = fields.drop_last();
        assert forall|i: int, j: int| 0 <= i < j < dl.len() implies dl[i].name@
            != dl[j].name@ by {
            assert(dl[i] == fields[i] && dl[j] == fields[j]);
        }
        lemma_role_names_distinct(role, dl);
        lemma_role_names_are_field_names(role, dl);
        assert forall|a: int, b: int|
            0 <= a < b < role_names(role, fields).len() implies role_names(role, fields)[a]
            != role_names(role, fields)[b] by {
            if b >= role_names(role, dl).len() {
                let w = choose|i: int|
                    0 <= i < dl.len() && dl[i].name@ == role_names(role, dl)[a];
                assert(fields[w] == dl[w]);
                assert(role_names(role, fields)[b] == fields.last().name@);
            }
        }
    }
}

/// The position of the last field marked primary, if any; a later
/// declaration overrides an earlier one.
pub open spec fn last_primary(fields: Seq<Field>) -> Option<int>
    decreases fields.len(),
{
    if fields.len() == 0 {
        None
    } else if fields.last().primary {
        Some(fields.len() - 1)
    } else {
        last_primary(fields.drop_last())
    }
}

/// `last_primary` points at a primary-marked field, and is `None` exactly
/// when no field is marked primary.
pub proof fn lemma_last_primary(fields: Seq<Field>)
    ensures
        match last_primary(fields) {
            Some(i) => 0 <= i < fields.len() && fields[i].primary,
            None => forall|i: int| 0 <= i < fields.len() ==> !fields[i].primary,
        },
    decreases fields.len(),
{
    if fields.len() > 0 && !fields.last().primary {
        lemma_last_primary(fields.drop_last());
        if last_primary(fields.drop_last()) is None {
            assert forall|i: int| 0 <= i < fields.len() implies !fields[i].primary by {
                if i < fields.len() - 1 {
                    assert(fields.drop_last()[i] == fields[i]);
                }
            }
        } else {
            let i = last_primary(fields.drop_last())->0;
            assert(fields.drop_last()[i] == fields[i]);
        }
    }
}

/// The secondary index a field's annotation contributes, if any.
pub open spec fn secondary_of(f: Field) -> Seq<ModelIndexView> {
    match f.index {
        FieldIndex::NoIndex => Seq::empty(),
        FieldIndex::Indexed(s) => seq![synthesized_index(ModelIndexType::Index, s, f)],
        FieldIndex::Unique(s) => seq![synthesized_index(ModelIndexType::Unique, s, f)],
    }
}

/// An index synthesized from a per-field annotation: named after the
/// settings, or after the column; one item, inheriting sort and length.
pub open spec fn synthesized_index(t: ModelIndexType, s: IndexSettings, f: Field) -> ModelIndexView {
    ModelIndexView {
        index_type: t,
        name: match s.name {
            Some(n) => n@,
            None => f.column_name@,
        },
        items: seq![
            ModelIndexItemView { field_name: f.column_name@, sort: s.sort, len: s.length },
        ],
    }
}

/// The secondary indices all field annotations contribute, in declaration
/// order.
pub open spec fn secondary_views(fields: Seq<Field>) -> Seq<ModelIndexView>
    decreases fields.len(),
{
    if fields.len() == 0 {
        Seq::empty()
    } else {
        secondary_views(fields.drop_last()) + secondary_of(fields.last())
    }
}

/// The views of a list of indices, in order.
pub open spec fn index_views(v: Seq<ModelIndex>) -> Seq<ModelIndexView> {
    v.map(|i: int, x: ModelIndex| x@)
}

/// The action list extended with sign-in when the type is an identity.
pub open spec fn with_sign_in(a: Seq<ActionType>, identity: bool) -> Seq<ActionType> {
    if identity && !a.contains(ActionType::SignIn) {
        a.push(ActionType::SignIn)
    } else {
        a
    }
}

/// The actions of `a` that are not listed in `d`, in order.
pub open spec fn minus_actions(a: Seq<ActionType>, d: Seq<ActionType>) -> Seq<ActionType>
    decreases a.len(),
{
    if a.len() == 0 {
        Seq::empty()
    } else {
        minus_actions(a.drop_last(), d) + if d.contains(a.last()) {
            Seq::empty()
        } else {
            seq![a.last()]
        }
    }
}

/// The parts joined with the separator between consecutive parts.
pub open spec fn join_of(parts: Seq<Seq<char>>, sep: Seq<char>) -> Seq<char>
    decreases parts.len(),
{
    if parts.len() == 0 {
        Seq::empty()
    } else if parts.len() == 1 {
        parts[0]
    } else {
        join_of(parts.drop_last(), sep) + sep + parts.last()
    }
}

/// The one-column-per-key items of an index declared by key list alone.
pub open spec fn items_of(ks: Seq<Seq<char>>) -> Seq<ModelIndexItemView> {
    ks.map(
        |i: int, k: Seq<char>| ModelIndexItemView { field_name: k, sort: Sort::Asc, len: None },
    )
}

/// No two declared fields share a name.
pub open spec fn distinct_field_names(fields: Seq<Field>) -> bool {
    forall|i: int, j: int| 0 <= i < j < fields.len() ==> fields[i].name@ != fields[j].name@
}

/// Whether building would find a primary key: a declared primary index, or
/// some field marked primary.
pub open spec fn has_primary(primary: Option<ModelIndex>, fields: Seq<Field>) -> bool {
    primary is Some || exists|i: int| 0 <= i < fields.len() && fields[i].primary
}

/// Collects the names the role admits, in declaration order.
fn collect_names(role: KeyRole, fields: &Vec<Field>) -> (r: Vec<String>)
    ensures
        key_views(r@) == role_names(role, fields@),
{
    let mut r: Vec<String> = Vec::new();
    let mut i: usize = 0;
    while i < fields.len()
        invariant
            i <= fields@.len(),
            key_views(r@) == role_names(role, fields@.take(i as int)),
        decreases fields@.len() - i,
    {
        let f = &fields[i];
        let picked: bool = match role {
            KeyRole::Input => !matches!(f.write_rule, WriteRule::NoWrite),
            KeyRole::Save => !matches!(f.store, Store::Calculated) && !matches!(
                f.store,
                Store::Temp,
            ),
            KeyRole::Output => !matches!(f.read_rule, ReadRule::NoRead),
            KeyRole::GetValue => true,
            KeyRole::Query => matches!(f.query_ability, QueryAbility::Queryable),
            KeyRole::UniqueQuery => true,
            KeyRole::AuthIdentity => f.auth_identity,
            KeyRole::AuthBy => f.auth_by,
        };
        proof {
            assert(picked == role_admits(role, fields@[i as int]));
        }
        let ghost before = r@;
        if picked {
            r.push(f.name.clone());
        }
        proof {
            let t1 = fields@.take(i + 1);
            assert(t1.drop_last() =~= fields@.take(i as int));
            assert(t1.last() == fields@[i as int]);
            assert(key_views(r@) =~= role_names(role, t1)) by {
                if picked {
                    assert(r@ == before.push(r@.last()));
                    assert(r@.last()@ == fields@[i as int].name@);
                }
            }
        }
        i = i + 1;
    }
    proof {
        assert(fields@.take(fields@.len() as int) =~= fields@);
    }
    r
}

/// Joins string keys with a separator.
fn join_keys(keys: &Vec<String>, sep: &str) -> (r: String)
    ensures
        r@ == join_of(key_views(keys@), sep@),
{
    let mut r = String::new();
    let mut i: usize = 0;
    while i < keys.len()
        invariant
            i <= keys@.len(),
            r@ == join_of(key_views(keys@.take(i as int)), sep@),
        decreases keys@.len() - i,
    {
        if i > 0 {
            r.append(sep);
        }
        r.append(keys[i].as_str());
        proof {
            let t1 = keys@.take(i + 1);
            assert(t1.drop_last() =~= keys@.take(i as int));
            assert(t1.last() == keys@[i as int]);
            assert(key_views(t1).drop_last() =~= key_views(keys@.take(i as int)));
            assert(r@ == join_of(key_views(t1), sep@));
        }
        i = i + 1;
    }
    proof {
        assert(keys@.take(keys@.len() as int) =~= keys@);
    }
    r
}

/// Builds the index a plain key list declares: ascending one-column items,
/// named by joining the keys with underscores.
fn index_from_keys(index_type: ModelIndexType, keys: Vec<String>) -> (r: ModelIndex)
    ensures
        r@ == (ModelIndexView {
            index_type,
            name: join_of(key_views(keys@), "_"@),
            items: items_of(key_views(keys@)),
        }),
{
    let name = join_keys(&keys, "_");
    let mut items: Vec<ModelIndexItem> = Vec::new();
    let mut i: usize = 0;
    while i < keys.len()
        invariant
            i <= keys@.len(),
            item_views(items@) =~= items_of(key_views(keys@.take(i as int))),
        decreases keys@.len() - i,
    {
        let ghost before = items@;
        items.push(ModelIndexItem { field_name: keys[i].clone(), sort: Sort::Asc, len: None });
        proof {
            let t1 = keys@.take(i + 1);
            assert(t1.drop_last() =~= keys@.take(i as int));
            assert(items_of(key_views(keys@.take(i as int))).len() == i as int);
            assert(before.len() == i as int);
            assert(items@.len() == i + 1);
            assert forall|j: int| 0 <= j < item_views(items@).len() implies item_views(
                items@,
            )[j] == items_of(key_views(t1))[j] by {
                assert(key_views(t1)[j] == t1[j]@);
                if j < i {
                    assert(items@[j] == before[j]);
                    assert(item_views(before)[j] == items_of(
                        key_views(keys@.take(i as int)),
                    )[j]);
                    assert(t1[j] == keys@[j]);
                } else {
                    assert(items@[j] == items@.last());
                    assert(t1[j] == keys@[i as int]);
                }
            }
            assert(item_views(items@) =~= items_of(key_views(t1)));
        }
        i = i + 1;
    }
    proof {
        assert(keys@.take(keys@.len() as int) =~= keys@);
        assert(items_of(key_views(keys@)) =~= item_views(items@));
    }
    ModelIndex { index_type, name, items }
}

} // verus!

verus! {

/// Appends one index, at the view level.
fn push_index(v: &mut Vec<ModelIndex>, ix: ModelIndex)
    ensures
        index_views(final(v)@) == index_views(old(v)@).push(ix@),
{
    let ghost vix = ix@;
    let ghost before = v@;
    v.push(ix);
    proof {
        assert forall|j: int| 0 <= j < index_views(v@).len() implies index_views(v@)[j]
            == index_views(before).push(vix)[j] by {
            if j < before.len() {
                assert(v@[j] == before[j]);
            } else {
                assert(v@[j] == v@.last());
            }
        }
        assert(index_views(v@) =~= index_views(before).push(vix));
    }
}

/// Accumulates one entity type's declaration and compiles it into `Model`
/// metadata. Schema-definition faults surface here, at build time, never at
/// request time.
#[derive(Debug)]
pub struct ModelBuilder {
    pub name: String,
    pub table_name: String,
    pub url_segment_name: String,
    pub localized_name: String,
    pub description: String,
    pub identity: bool,
    pub fields: Vec<Field>,
    pub actions: Vec<ActionType>,
    pub permission: Option<Permission>,
    pub primary: Option<ModelIndex>,
    pub indices: Vec<ModelIndex>,
}

impl ModelBuilder {
    /// A fresh declaration: no fields, the default action set, nothing named
    /// yet.
    pub fn new(name: String) -> (r: ModelBuilder)
        ensures
            r.name == name,
            r.table_name@.len() == 0,
            r.url_segment_name@.len() == 0,
            r.localized_name@.len() == 0,
            r.description@.len() == 0,
            !r.identity,
            r.fields@.len() == 0,
            r.actions@ =~= seq![
                ActionType::FindUnique,
                ActionType::FindMany,
                ActionType::Create,
                ActionType::Update,
                ActionType::Upsert,
                ActionType::Delete,
            ],
            r.permission is None,
            r.primary is None,
            r.indices@.len() == 0,
    {
        ModelBuilder {
            name,
            table_name: String::new(),
            url_segment_name: String::new(),
            localized_name: String::new(),
            description: String::new(),
            identity: false,
            fields: Vec::new(),
            actions: default_actions(),
            permission: None,
            primary: None,
            indices: Vec::new(),
        }
    }

    /// Sets the physical table name.
    pub fn table_name(&mut self, table_name: String) -> (r: &mut Self)
        ensures
            *r == (ModelBuilder { table_name, ..*old(self) }),
            *final(self) == *final(r),
    {
        self.table_name = table_name;
        self
    }

    /// Sets the URL path segment.
    pub fn url_segment_name(&mut self, url_segment_name: String) -> (r: &mut Self)
        ensures
            *r == (ModelBuilder { url_segment_name, ..*old(self) }),
            *final(self) == *final(r),
    {
        self.url_segment_name = url_segment_name;
        self
    }

    /// Sets the human-readable name.
    pub fn localized_name(&mut self, localized_name: String) -> (r: &mut Self)
        ensures
            *r == (ModelBuilder { localized_name, ..*old(self) }),
            *final(self) == *final(r),
    {
        self.localized_name = localized_name;
        self
    }

    /// Sets the description.
    pub fn description(&mut self, description: String) -> (r: &mut Self)
        ensures
            *r == (ModelBuilder { description, ..*old(self) }),
            *final(self) == *final(r),
    {
        self.description = description;
        self
    }

    /// Marks the type as an identity (sign-in capable) type.
    pub fn identity(&mut self) -> (r: &mut Self)
        ensures
            *r == (ModelBuilder { identity: true, actions: r.actions, ..*old(self) }),
            r.actions@ == with_sign_in(old(self).actions@, true),
            *final(self) == *final(r),
    {
        self.identity = true;
        insert_action(&mut self.actions, ActionType::SignIn);
        self
    }

    /// Declares one field.
    pub fn field(&mut self, f: Field) -> (r: &mut Self)
        ensures
            *r == (ModelBuilder { fields: r.fields, ..*old(self) }),
            r.fields@ == old(self).fields@.push(f),
            *final(self) == *final(r),
    {
        self.fields.push(f);
        self
    }

    /// Withdraws every exposed action.
    pub fn internal(&mut self) -> (r: &mut Self)
        ensures
            *r == (ModelBuilder { actions: r.actions, ..*old(self) }),
            r.actions@ == Seq::<ActionType>::empty(),
            *final(self) == *final(r),
    {
        self.actions = Vec::new();
        self
    }

    /// Replaces the exposed actions with the given ones; an identity type
    /// keeps sign-in.
    pub fn enable(&mut self, actions: Vec<ActionType>) -> (r: &mut Self)
        ensures
            *r == (ModelBuilder { actions: r.actions, ..*old(self) }),
            r.actions@ == with_sign_in(actions@, old(self).identity),
            *final(self) == *final(r),
    {
        self.actions = actions;
        if self.identity {
            insert_action(&mut self.actions, ActionType::SignIn);
        }
        self
    }

    /// Withdraws the given actions; an identity type keeps sign-in.
    pub fn disable(&mut self, disabled: Vec<ActionType>) -> (r: &mut Self)
        ensures
            *r == (ModelBuilder { actions: r.actions, ..*old(self) }),
            r.actions@ == with_sign_in(
                minus_actions(old(self).actions@, disabled@),
                old(self).identity,
            ),
            *final(self) == *final(r),
    {
        let mut kept: Vec<ActionType> = Vec::new();
        let mut i: usize = 0;
        while i < self.actions.len()
            invariant
                i <= self.actions@.len(),
                kept@ == minus_actions(self.actions@.take(i as int), disabled@),
            decreases self.actions@.len() - i,
        {
            let a = self.actions[i];
            if !crate::model::action_contains(&disabled, a) {
                kept.push(a);
            }
            proof {
                let t1 = self.actions@.take(i + 1);
                assert(t1.drop_last() =~= self.actions@.take(i as int));
                assert(t1.last() == self.actions@[i as int]);
                assert(kept@ =~= minus_actions(t1, disabled@));
            }
            i = i + 1;
        }
        proof {
            assert(self.actions@.take(self.actions@.len() as int) =~= self.actions@);
        }
        self.actions = kept;
        if self.identity {
            insert_action(&mut self.actions, ActionType::SignIn);
        }
        self
    }

    /// Sets the permission gates.
    pub fn permissions(&mut self, permission: Permission) -> (r: &mut Self)
        ensures
            *r == (ModelBuilder { permission: Some(permission), ..*old(self) }),
            *final(self) == *final(r),
    {
        self.permission = Some(permission);
        self
    }

    /// Declares the primary index over the given keys, ascending, named by
    /// joining them with underscores.
    pub fn primary(&mut self, keys: Vec<String>) -> (r: &mut Self)
        ensures
            *r == (ModelBuilder { primary: r.primary, ..*old(self) }),
            r.primary matches Some(ix) && ix@ == (ModelIndexView {
                index_type: ModelIndexType::Primary,
                name: join_of(key_views(keys@), "_"@),
                items: items_of(key_views(keys@)),
            }),
            *final(self) == *final(r),
    {
        let ix = index_from_keys(ModelIndexType::Primary, keys);
        self.primary = Some(ix);
        self
    }

    /// Declares the primary index with explicit name and items.
    pub fn primary_settings(&mut self, name: String, items: Vec<ModelIndexItem>) -> (r: &mut Self)
        ensures
            *r == (ModelBuilder { primary: r.primary, ..*old(self) }),
            r.primary matches Some(ix) && ix@ == (ModelIndexView {
                index_type: ModelIndexType::Primary,
                name: name@,
                items: item_views(items@),
            }),
            *final(self) == *final(r),
    {
        self.primary = Some(ModelIndex { index_type: ModelIndexType::Primary, name, items });
        self
    }

    /// Declares a plain index over the given keys.
    pub fn index(&mut self, keys: Vec<String>) -> (r: &mut Self)
        ensures
            *r == (ModelBuilder { indices: r.indices, ..*old(self) }),
            index_views(r.indices@) == index_views(old(self).indices@).push(
                ModelIndexView {
                    index_type: ModelIndexType::Index,
                    name: join_of(key_views(keys@), "_"@),
                    items: items_of(key_views(keys@)),
                },
            ),
            *final(self) == *final(r),
    {
        let ix = index_from_keys(ModelIndexType::Index, keys);
        push_index(&mut self.indices, ix);
        self
    }

    /// Declares a plain index with explicit name and items.
    pub fn index_settings(&mut self, name: String, items: Vec<ModelIndexItem>) -> (r: &mut Self)
        ensures
            *r == (ModelBuilder { indices: r.indices, ..*old(self) }),
            index_views(r.indices@) == index_views(old(self).indices@).push(
                ModelIndexView {
                    index_type: ModelIndexType::Index,
                    name: name@,
                    items: item_views(items@),
                },
            ),
            *final(self) == *final(r),
    {
        push_index(
            &mut self.indices,
            ModelIndex { index_type: ModelIndexType::Index, name, items },
        );
        self
    }

    /// Declares a unique index over the given keys.
    pub fn unique(&mut self, keys: Vec<String>) -> (r: &mut Self)
        ensures
            *r == (ModelBuilder { indices: r.indices, ..*old(self) }),
            index_views(r.indices@) == index_views(old(self).indices@).push(
                ModelIndexView {
                    index_type: ModelIndexType::Unique,
                    name: join_of(key_views(keys@), "_"@),
                    items: items_of(key_views(keys@)),
                },
            ),
            *final(self) == *final(r),
    {
        let ix = index_from_keys(ModelIndexType::Unique, keys);
        push_index(&mut self.indices, ix);
        self
    }

    /// Declares a unique index with explicit name and items.
    pub fn unique_settings(&mut self, name: String, items: Vec<ModelIndexItem>) -> (r: &mut Self)
        ensures
            *r == (ModelBuilder { indices: r.indices, ..*old(self) }),
            index_views(r.indices@) == index_views(old(self).indices@).push(
                ModelIndexView {
                    index_type: ModelIndexType::Unique,
                    name: name@,
                    items: item_views(items@),
                },
            ),
            *final(self) == *final(r),
    {
        push_index(
            &mut self.indices,
            ModelIndex { index_type: ModelIndexType::Unique, name, items },
        );
        self
    }

    /// The names writable through the input role.
    pub fn allowed_input_keys(&self) -> (r: Vec<String>)
        ensures
            key_views(r@) == role_names(KeyRole::Input, self.fields@),
    {
        collect_names(KeyRole::Input, &self.fields)
    }

    /// The names of persisted fields (calculated and temporary ones are
    /// excluded).
    pub fn allowed_save_keys(&self) -> (r: Vec<String>)
        ensures
            key_views(r@) == role_names(KeyRole::Save, self.fields@),
    {
        collect_names(KeyRole::Save, &self.fields)
    }

    /// The names readable through the output role.
    pub fn allowed_output_keys(&self) -> (r: Vec<String>)
        ensures
            key_views(r@) == role_names(KeyRole::Output, self.fields@),
    {
        collect_names(KeyRole::Output, &self.fields)
    }

    /// Every declared name.
    pub fn get_get_value_keys(&self) -> (r: Vec<String>)
        ensures
            key_views(r@) == role_names(KeyRole::GetValue, self.fields@),
    {
        collect_names(KeyRole::GetValue, &self.fields)
    }

    /// The names usable in queries.
    pub fn get_query_keys(&self) -> (r: Vec<String>)
        ensures
            key_views(r@) == role_names(KeyRole::Query, self.fields@),
    {
        collect_names(KeyRole::Query, &self.fields)
    }

    /// The names usable in unique queries.
    pub fn get_unique_query_keys(&self) -> (r: Vec<String>)
        ensures
            key_views(r@) == role_names(KeyRole::UniqueQuery, self.fields@),
    {
        collect_names(KeyRole::UniqueQuery, &self.fields)
    }

    /// The names of fields usable as authentication identities.
    pub fn get_auth_identity_keys(&self) -> (r: Vec<String>)
        ensures
            key_views(r@) == role_names(KeyRole::AuthIdentity, self.fields@),
    {
        collect_names(KeyRole::AuthIdentity, &self.fields)
    }

    /// The names of fields usable as authentication proofs.
    pub fn get_auth_by_keys(&self) -> (r: Vec<String>)
        ensures
            key_views(r@) == role_names(KeyRole::AuthBy, self.fields@),
    {
        collect_names(KeyRole::AuthBy, &self.fields)
    }
}

} // verus!

verus! {

/// Whether two declared fields share a name.
fn find_duplicate_name(fields: &Vec<Field>) -> (r: bool)
    ensures
        r == !distinct_field_names(fields@),
{
    let mut i: usize = 0;
    while i < fields.len()
        invariant
            i <= fields@.len(),
            forall|a: int, b: int| 0 <= a < b < i ==> fields@[a].name@ != fields@[b].name@,
        decreases fields@.len() - i,
    {
        let mut j: usize = 0;
        while j < i
            invariant
                j <= i < fields@.len(),
                forall|a: int, b: int| 0 <= a < b < i ==> fields@[a].name@ != fields@[b].name@,
                forall|a: int| 0 <= a < j ==> fields@[a].name@ != fields@[i as int].name@,
            decreases i - j,
        {
            if fields[j].name == fields[i].name {
                assert(fields@[j as int].name@ == fields@[i as int].name@);
                return true;
            }
            j = j + 1;
        }
        i = i + 1;
    }
    false
}

/// Builds the index a per-field annotation declares.
fn synth_index(t: ModelIndexType, s: &IndexSettings, f: &Field) -> (r: ModelIndex)
    ensures
        r@ == synthesized_index(t, *s, *f),
{
    let name = match &s.name {
        Some(n) => n.clone(),
        None => f.column_name.clone(),
    };
    let mut items: Vec<ModelIndexItem> = Vec::new();
    items.push(ModelIndexItem { field_name: f.column_name.clone(), sort: s.sort, len: s.length });
    proof {
        assert(item_views(items@) =~= synthesized_index(t, *s, *f).items);
    }
    ModelIndex { index_type: t, name, items }
}

impl ModelBuilder {
    /// Compiles the declaration into immutable model metadata.
    ///
    /// Key-role projections are filters of the field list; a field marked
    /// primary (the last such, if several) synthesizes the primary index and
    /// is recorded as the primary field; per-field index annotations add
    /// secondary indices; an empty table or URL-segment name is derived from
    /// the type name by inflection. A declaration without any primary key,
    /// or with two fields of one name, is refused here, at build time.
    pub fn build(self) -> (r: Result<Model, ModelError>)
        ensures
            r is Ok <==> distinct_field_names(self.fields@) && has_primary(
                self.primary,
                self.fields@,
            ),
            !distinct_field_names(self.fields@) ==> r == Err::<Model, ModelError>(
                ModelError::DuplicateFieldName,
            ),
            distinct_field_names(self.fields@) && !has_primary(self.primary, self.fields@)
                ==> r == Err::<Model, ModelError>(ModelError::MissingPrimary),
            r matches Ok(m) ==> {
                &&& m.wf()
                &&& m.name == self.name
                &&& m.table_name@ == (if self.table_name@.len() == 0 {
                    plural_of(lower_of(self.name@))
                } else {
                    self.table_name@
                })
                &&& m.url_segment_name@ == (if self.url_segment_name@.len() == 0 {
                    plural_of(kebab_of(self.name@))
                } else {
                    self.url_segment_name@
                })
                &&& m.localized_name == self.localized_name
                &&& m.description == self.description
                &&& m.identity == self.identity
                &&& m.actions == self.actions
                &&& m.permission == self.permission
                &&& m.fields == self.fields
                &&& key_views(m.input_keys@) == role_names(KeyRole::Input, self.fields@)
                &&& key_views(m.save_keys@) == role_names(KeyRole::Save, self.fields@)
                &&& key_views(m.output_keys@) == role_names(KeyRole::Output, self.fields@)
                &&& key_views(m.get_value_keys@) == role_names(KeyRole::GetValue, self.fields@)
                &&& key_views(m.query_keys@) == role_names(KeyRole::Query, self.fields@)
                &&& key_views(m.unique_query_keys@) == role_names(
                    KeyRole::UniqueQuery,
                    self.fields@,
                )
                &&& key_views(m.auth_identity_keys@) == role_names(
                    KeyRole::AuthIdentity,
                    self.fields@,
                )
                &&& key_views(m.auth_by_keys@) == role_names(KeyRole::AuthBy, self.fields@)
                &&& index_views(m.indices@) == index_views(self.indices@) + secondary_views(
                    self.fields@,
                )
                &&& match last_primary(self.fields@) {
                    Some(i) => {
                        &&& m.primary_field_index matches Some(u) && u as int == i
                        &&& m.primary@ == (ModelIndexView {
                            index_type: ModelIndexType::Primary,
                            name: Seq::empty(),
                            items: seq![
                                ModelIndexItemView {
                                    field_name: self.fields@[i].column_name@,
                                    sort: Sort::Asc,
                                    len: None,
                                },
                            ],
                        })
                    },
                    None => {
                        &&& m.primary_field_index is None
                        &&& self.primary matches Some(p) && m.primary@ == p@
                    },
                }
                &&& m.before_delete_pipeline.modifiers@.len() == 0
            },
    {
        let ModelBuilder {
            name,
            table_name,
            url_segment_name,
            localized_name,
            description,
            identity,
            fields,
            actions,
            permission,
            primary,
            indices,
        } = self;
        if find_duplicate_name(&fields) {
            return Err(ModelError::DuplicateFieldName);
        }
        let input_keys = collect_names(KeyRole::Input, &fields);
        let save_keys = collect_names(KeyRole::Save, &fields);
        let output_keys = collect_names(KeyRole::Output, &fields);
        let get_value_keys = collect_names(KeyRole::GetValue, &fields);
        let query_keys = collect_names(KeyRole::Query, &fields);
        let unique_query_keys = collect_names(KeyRole::UniqueQuery, &fields);
        let auth_identity_keys = collect_names(KeyRole::AuthIdentity, &fields);
        let auth_by_keys = collect_names(KeyRole::AuthBy, &fields);

        let mut primary_idx: Option<usize> = None;
        let mut all_indices = indices;
        let ghost orig_indices = all_indices@;
        let mut i: usize = 0;
        while i < fields.len()
            invariant
                i <= fields@.len(),
                match primary_idx {
                    Some(u) => last_primary(fields@.take(i as int)) == Some(u as int),
                    None => last_primary(fields@.take(i as int)) is None,
                },
                primary_idx matches Some(u) ==> u < i,
                index_views(all_indices@) == index_views(orig_indices) + secondary_views(
                    fields@.take(i as int),
                ),
            decreases fields@.len() - i,
        {
            let f = &fields[i];
            if f.primary {
                primary_idx = Some(i);
            }
            match &f.index {
                FieldIndex::NoIndex => {},
                FieldIndex::Indexed(s) => {
                    let ix = synth_index(ModelIndexType::Index, s, f);
                    push_index(&mut all_indices, ix);
                },
                FieldIndex::Unique(s) => {
                    let ix = synth_index(ModelIndexType::Unique, s, f);
                    push_index(&mut all_indices, ix);
                },
            }
            proof {
                let t1 = fields@.take(i + 1);
                assert(t1.drop_last() =~= fields@.take(i as int));
                assert(t1.last() == fields@[i as int]);
                assert(index_views(all_indices@) =~= index_views(orig_indices)
                    + secondary_views(t1));
            }
            i = i + 1;
        }
        proof {
            assert(fields@.take(fields@.len() as int) =~= fields@);
        }
        let pair = match primary_idx {
            Some(u) => {
                let mut items: Vec<ModelIndexItem> = Vec::new();
                items.push(
                    ModelIndexItem {
                        field_name: fields[u].column_name.clone(),
                        sort: Sort::Asc,
                        len: None,
                    },
                );
                let ix = ModelIndex {
                    index_type: ModelIndexType::Primary,
                    name: String::new(),
                    items,
                };
                proof {
                    assert(item_views(ix.items@) =~= seq![
                        ModelIndexItemView {
                            field_name: fields@[u as int].column_name@,
                            sort: Sort::Asc,
                            len: None,
                        },
                    ]);
                }
                (ix, Some(u))
            },
            None => {
                match primary {
                    Some(p) => (p, None),
                    None => {
                        proof {
                            lemma_last_primary(fields@);
                        }
                        return Err(ModelError::MissingPrimary);
                    },
                }
            },
        };
        let (primary_index, primary_field_index) = pair;
        let table_name = if table_name.as_str().is_empty() {
            let low = lowercase(name.as_str());
            pluralize(low.as_str())
        } else {
            table_name
        };
        let url_segment_name = if url_segment_name.as_str().is_empty() {
            let keb = kebab_case(name.as_str());
            pluralize(keb.as_str())
        } else {
            url_segment_name
        };
        let m = Model {
            name,
            table_name,
            url_segment_name,
            localized_name,
            description,
            identity,
            actions,
            permission,
            fields,
            primary: primary_index,
            indices: all_indices,
            primary_field_index,
            input_keys,
            save_keys,
            output_keys,
            get_value_keys,
            query_keys,
            unique_query_keys,
            auth_identity_keys,
            auth_by_keys,
            before_delete_pipeline: Pipeline { modifiers: Vec::new() },
        };
        proof {
            lemma_last_primary(m.fields@);
            lemma_role_names_distinct(KeyRole::Input, m.fields@);
            lemma_role_names_distinct(KeyRole::Save, m.fields@);
            lemma_role_names_distinct(KeyRole::Output, m.fields@);
            lemma_role_names_distinct(KeyRole::GetValue, m.fields@);
            assert(distinct_keys(m.input_keys@)) by {
                assert forall|a: int, b: int| 0 <= a < b < m.input_keys@.len() implies m.input_keys@[a]@ != m.input_keys@[b]@ by {
                    assert(key_views(m.input_keys@)[a] == m.input_keys@[a]@);
                    assert(key_views(m.input_keys@)[b] == m.input_keys@[b]@);
                }
            }
            assert(distinct_keys(m.save_keys@)) by {
                assert forall|a: int, b: int| 0 <= a < b < m.save_keys@.len() implies m.save_keys@[a]@ != m.save_keys@[b]@ by {
                    assert(key_views(m.save_keys@)[a] == m.save_keys@[a]@);
                    assert(key_views(m.save_keys@)[b] == m.save_keys@[b]@);
                }
            }
            assert(distinct_keys(m.output_keys@)) by {
                assert forall|a: int, b: int| 0 <= a < b < m.output_keys@.len() implies m.output_keys@[a]@ != m.output_keys@[b]@ by {
                    assert(key_views(m.output_keys@)[a] == m.output_keys@[a]@);
                    assert(key_views(m.output_keys@)[b] == m.output_keys@[b]@);
                }
            }
            assert(distinct_keys(m.get_value_keys@)) by {
                assert forall|a: int, b: int| 0 <= a < b < m.get_value_keys@.len() implies m.get_value_keys@[a]@ != m.get_value_keys@[b]@ by {
                    assert(key_views(m.get_value_keys@)[a] == m.get_value_keys@[a]@);
                    assert(key_views(m.get_value_keys@)[b] == m.get_value_keys@[b]@);
                }
            }
            lemma_role_names_are_field_names(KeyRole::Input, m.fields@);
            lemma_role_names_are_field_names(KeyRole::Save, m.fields@);
            lemma_role_names_are_field_names(KeyRole::Output, m.fields@);
            lemma_role_names_are_field_names(KeyRole::GetValue, m.fields@);
            assert forall|j: int| 0 <= j < m.input_keys@.len() implies m.has_field(
                #[trigger] m.input_keys@[j]@,
            ) by {
                assert(key_views(m.input_keys@)[j] == m.input_keys@[j]@);
            }
            assert forall|j: int| 0 <= j < m.save_keys@.len() implies m.has_field(
                #[trigger] m.save_keys@[j]@,
            ) by {
                assert(key_views(m.save_keys@)[j] == m.save_keys@[j]@);
            }
            assert forall|j: int| 0 <= j < m.output_keys@.len() implies m.has_field(
                #[trigger] m.output_keys@[j]@,
            ) by {
                assert(key_views(m.output_keys@)[j] == m.output_keys@[j]@);
            }
            assert forall|j: int| 0 <= j < m.get_value_keys@.len() implies m.has_field(
                #[trigger] m.get_value_keys@[j]@,
            ) by {
                assert(key_views(m.get_value_keys@)[j] == m.get_value_keys@[j]@);
            }
        }
        Ok(m)
    }
}

} // verus!
