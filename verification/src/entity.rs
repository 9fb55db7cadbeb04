use vstd::prelude::*;

use crate::actions::{ConstraintKind, ReferentialAction};
use crate::diagnostics::Span;

verus! {

/// How many values a field holds.
#[derive(Clone, Copy, PartialEq, Eq, Structural, Debug)]
pub enum FieldArity {
    Required,
    Optional,
    List,
}

/// The scalar type of a field.
#[derive(Clone, Copy, PartialEq, Eq, Structural, Debug)]
pub enum TypeIdentifier {
    Text,
    Int,
    BigInt,
    Decimal,
    Boolean,
    DateTime,
    Bytes,
    Json,
}

impl TypeIdentifier {
    pub open spec fn spec_is_numeric(self) -> bool {
        match self {
            TypeIdentifier::Int | TypeIdentifier::BigInt | TypeIdentifier::Decimal => true,
            _ => false,
        }
    }

    pub fn is_numeric(&self) -> (b: bool)
        ensures
            b == self.spec_is_numeric(),
    {
        match self {
            TypeIdentifier::Int | TypeIdentifier::BigInt | TypeIdentifier::Decimal => true,
            _ => false,
        }
    }
}

/// A field's declared default value.
#[derive(Clone, Debug)]
pub enum DefaultValue {
    IntValue(i64),
    TextValue(String),
    Autoincrement,
    Now,
}

/// An enum type declared in the schema that a field may draw its values
/// from.
#[derive(Clone, Debug)]
pub struct InternalEnum {
    pub name: String,
    pub values: Vec<String>,
}

/// A backend-native type annotation on a field.
#[derive(Clone, Debug)]
pub struct NativeTypeInstance {
    pub name: String,
    pub args: Vec<u64>,
}

/// Special engine-maintained behaviour of a scalar field.
#[derive(Debug, Clone, Copy, PartialEq, Eq, Structural, Hash)]
pub enum FieldBehaviour {
    CreatedAt,
    UpdatedAt,
    ScalarList { strategy: ScalarListStrategy },
}

#[derive(Debug, Clone, Copy, Eq, PartialEq, Structural, Hash)]
pub enum ScalarListStrategy {
    Embedded,
    Relation,
}

/// A scalar field of a model. The owning model is a non-owning
/// back-reference held as the model's stable id; looking it up again
/// after the model is gone is a programming error, which the lookup's
/// precondition rules out.
#[derive(Clone, Debug)]
pub struct ScalarField {
    pub name: String,
    pub type_identifier: TypeIdentifier,
    pub is_required: bool,
    pub is_list: bool,
    pub is_id: bool,
    pub is_auto_generated_int_id: bool,
    pub is_autoincrement: bool,
    pub internal_enum: Option<InternalEnum>,
    pub behaviour: Option<FieldBehaviour>,
    pub arity: FieldArity,
    pub db_name: Option<String>,
    pub default_value: Option<DefaultValue>,
    pub native_type: Option<NativeTypeInstance>,
    /// Stable id of the owning model.
    pub model_id: usize,
    pub is_unique: bool,
    /// Derived fact, precomputed when the entity model is built.
    pub read_only: bool,
}

/// A named relational entity: an ordered sequence of fields under a
/// stable integer id.
#[derive(Clone, Debug)]
pub struct Model {
    pub id: usize,
    pub name: String,
    pub span: Span,
    pub fields: Vec<ScalarField>,
}

/// The attribute that declared a constraint, with the spans a diagnostic
/// may point at.
#[derive(Clone, Debug)]
pub struct AttributeInfo {
    pub name: String,
    pub span: Span,
    pub map_arg_span: Option<Span>,
    pub name_arg_span: Option<Span>,
}

/// A named database object (index, unique, primary key, foreign key,
/// default) with its resolved final backend name.
#[derive(Clone, Debug)]
pub struct Constraint {
    pub model_id: usize,
    pub kind: ConstraintKind,
    /// The explicit name the user supplied through `map`/`name`, if any.
    pub mapped_name: Option<String>,
    /// The deterministic default derived from model and field names.
    pub default_name: String,
    /// The declaring attribute, when one exists in the source.
    pub attribute: Option<AttributeInfo>,
}

impl Constraint {
    /// The final backend name: the explicit `map` name when the user gave
    /// one, otherwise the derived default.
    pub open spec fn spec_final_name(self) -> Seq<char> {
        match self.mapped_name {
            Some(n) => n@,
            None => self.default_name@,
        }
    }

    pub fn final_database_name(&self) -> (r: &str)
        ensures
            r@ == self.spec_final_name(),
    {
        match &self.mapped_name {
            Some(n) => n.as_str(),
            None => self.default_name.as_str(),
        }
    }
}

/// One directed relation: the dependent (child) side holds the foreign
/// keys and references unique fields of the parent side.
#[derive(Clone, Debug)]
pub struct Relation {
    pub parent_model: usize,
    pub child_model: usize,
    /// Indices into the child model's fields: the foreign keys.
    pub fk_fields: Vec<usize>,
    /// Indices into the parent model's fields: the referenced fields.
    pub referenced_fields: Vec<usize>,
    /// Whether the relation is required on the child side.
    pub required: bool,
    /// The user-specified actions, when given.
    pub explicit_on_update: Option<ReferentialAction>,
    pub explicit_on_delete: Option<ReferentialAction>,
    /// The resolved actions, attached once at schema load and immutable
    /// afterward.
    pub on_update: ReferentialAction,
    pub on_delete: ReferentialAction,
    pub span: Span,
}

/// The entity model: every model, constraint and relation of one loaded
/// schema, addressed by stable integer ids. Built once per schema load
/// and immutable afterward.
#[derive(Clone, Debug)]
pub struct InternalDataModel {
    pub models: Vec<Model>,
    pub constraints: Vec<Constraint>,
    pub relations: Vec<Relation>,
}

impl InternalDataModel {
    /// Well-formedness: ids match positions, and every back-reference and
    /// field index points at an entity that exists.
    pub open spec fn wf(self) -> bool {
        &&& forall|i: int|
            0 <= i < self.models@.len() ==> (#[trigger] self.models@[i]).id == i
        &&& forall|i: int, j: int|
            0 <= i < self.models@.len() && 0 <= j < self.models@[i].fields@.len()
                ==> (#[trigger] self.models@[i].fields@[j]).model_id == i
        &&& forall|i: int|
            0 <= i < self.constraints@.len()
                ==> (#[trigger] self.constraints@[i]).model_id < self.models@.len()
        &&& forall|i: int| 0 <= i < self.relations@.len() ==> self.rel_wf(#[trigger] self.relations@[i])
    }

    /// Well-formedness of one relation: both endpoints exist, the foreign
    /// keys live on the child, the referenced fields on the parent, and
    /// there is at least one foreign-key field.
    pub open spec fn rel_wf(self, r: Relation) -> bool {
        &&& r.parent_model < self.models@.len()
        &&& r.child_model < self.models@.len()
        &&& r.fk_fields@.len() > 0
        &&& r.fk_fields@.len() == r.referenced_fields@.len()
        &&& forall|k: int|
            0 <= k < r.fk_fields@.len()
                ==> (#[trigger] r.fk_fields@[k]) < self.models@[r.child_model as int].fields@.len()
        &&& forall|k: int|
            0 <= k < r.referenced_fields@.len()
                ==> (#[trigger] r.referenced_fields@[k])
                    < self.models@[r.parent_model as int].fields@.len()
    }

    /// Walker: navigate from a stable model id to the model.
    pub fn model_by_id(&self, id: usize) -> (m: &Model)
        requires
            id < self.models@.len(),
        ensures
            m == self.models@[id as int],
    {
        &self.models[id]
    }

    /// Walker: navigate from a constraint id to the constraint.
    pub fn constraint_by_id(&self, id: usize) -> (c: &Constraint)
        requires
            id < self.constraints@.len(),
        ensures
            c == self.constraints@[id as int],
    {
        &self.constraints[id]
    }

    /// Walker: navigate from a relation id to the relation.
    pub fn relation_by_id(&self, id: usize) -> (r: &Relation)
        requires
            id < self.relations@.len(),
        ensures
            r == self.relations@[id as int],
    {
        &self.relations[id]
    }
}

impl ScalarField {
    /// Upgrade the non-owning back-reference to the owning model. The
    /// caller must still hold the entity model the field was built from;
    /// asking after the model is gone is a programming error ruled out by
    /// the precondition.
    pub fn model<'a>(&self, dm: &'a InternalDataModel) -> (m: &'a Model)
        requires
            self.model_id < dm.models@.len(),
        ensures
            m == dm.models@[self.model_id as int],
    {
        dm.model_by_id(self.model_id)
    }

    /// The entity model this field belongs to, reached through its owning
    /// model as the back-reference chain runs.
    pub fn internal_data_model<'a>(&self, dm: &'a InternalDataModel) -> (r: &'a InternalDataModel)
        requires
            self.model_id < dm.models@.len(),
        ensures
            r == dm,
    {
        let _owner = self.model(dm);
        dm
    }

    pub fn is_id(&self) -> (b: bool)
        ensures
            b == self.is_id,
    {
        self.is_id
    }

    pub open spec fn spec_is_created_at(self) -> bool {
        self.behaviour == Some(FieldBehaviour::CreatedAt)
    }

    pub fn is_created_at(&self) -> (b: bool)
        ensures
            b == self.spec_is_created_at(),
    {
        matches!(self.behaviour, Some(FieldBehaviour::CreatedAt))
    }

    pub open spec fn spec_is_updated_at(self) -> bool {
        self.behaviour == Some(FieldBehaviour::UpdatedAt)
    }

    pub fn is_updated_at(&self) -> (b: bool)
        ensures
            b == self.spec_is_updated_at(),
    {
        matches!(self.behaviour, Some(FieldBehaviour::UpdatedAt))
    }

    /// A field is unique if it carries a unique constraint or is the id.
    pub fn unique(&self) -> (b: bool)
        ensures
            b == (self.is_unique || self.is_id),
    {
        self.is_unique || self.is_id()
    }

    /// The name the backend knows the field by: the `db_name` override
    /// when present, otherwise the declared name.
    pub open spec fn spec_db_name(self) -> Seq<char> {
        match self.db_name {
            Some(n) => n@,
            None => self.name@,
        }
    }

    pub fn db_name(&self) -> (r: &str)
        ensures
            r@ == self.spec_db_name(),
    {
        match &self.db_name {
            Some(n) => n.as_str(),
            None => self.name.as_str(),
        }
    }

    pub fn type_identifier_with_arity(&self) -> (r: (TypeIdentifier, FieldArity))
        ensures
            r.0 == self.type_identifier,
            r.1 == self.arity,
    {
        (self.type_identifier, self.arity)
    }

    pub fn is_read_only(&self) -> (b: bool)
        ensures
            b == self.read_only,
    {
        self.read_only
    }

    pub fn is_numeric(&self) -> (b: bool)
        ensures
            b == self.type_identifier.spec_is_numeric(),
    {
        self.type_identifier.is_numeric()
    }

    /// Structural equality over the identity-bearing attributes, scoped
    /// to a single schema instance through the owning model's id.
    pub open spec fn spec_field_eq(self, other: ScalarField) -> bool {
        &&& self.name@ == other.name@
        &&& self.type_identifier == other.type_identifier
        &&& self.is_required == other.is_required
        &&& self.is_list == other.is_list
        &&& self.is_id == other.is_id
        &&& self.is_auto_generated_int_id == other.is_auto_generated_int_id
        &&& spec_opt_enum_eq(self.internal_enum, other.internal_enum)
        &&& self.behaviour == other.behaviour
        &&& spec_opt_default_eq(self.default_value, other.default_value)
        &&& self.is_unique == other.is_unique
        &&& self.model_id == other.model_id
        &&& self.arity == other.arity
        &&& spec_opt_string_eq(self.db_name, other.db_name)
    }
}

pub open spec fn spec_opt_string_eq(a: Option<String>, b: Option<String>) -> bool {
    match (a, b) {
        (Some(x), Some(y)) => x@ == y@,
        (None, None) => true,
        _ => false,
    }
}

pub open spec fn spec_default_eq(a: DefaultValue, b: DefaultValue) -> bool {
    match (a, b) {
        (DefaultValue::IntValue(x), DefaultValue::IntValue(y)) => x == y,
        (DefaultValue::TextValue(x), DefaultValue::TextValue(y)) => x@ == y@,
        (DefaultValue::Autoincrement, DefaultValue::Autoincrement) => true,
        (DefaultValue::Now, DefaultValue::Now) => true,
        _ => false,
    }
}

pub open spec fn spec_opt_default_eq(a: Option<DefaultValue>, b: Option<DefaultValue>) -> bool {
    match (a, b) {
        (Some(x), Some(y)) => spec_default_eq(x, y),
        (None, None) => true,
        _ => false,
    }
}

pub open spec fn spec_enum_eq(a: InternalEnum, b: InternalEnum) -> bool {
    &&& a.name@ == b.name@
    &&& a.values@.len() == b.values@.len()
    &&& forall|i: int| 0 <= i < a.values@.len() ==> a.values@[i]@ == #[trigger] b.values@[i]@
}

pub open spec fn spec_opt_enum_eq(a: Option<InternalEnum>, b: Option<InternalEnum>) -> bool {
    match (a, b) {
        (Some(x), Some(y)) => spec_enum_eq(x, y),
        (None, None) => true,
        _ => false,
    }
}

fn opt_string_eq(a: &Option<String>, b: &Option<String>) -> (r: bool)
    ensures
        r == spec_opt_string_eq(*a, *b),
{
    match (a, b) {
        (Some(x), Some(y)) => *x == *y,
        (None, None) => true,
        _ => false,
    }
}

fn default_eq(a: &DefaultValue, b: &DefaultValue) -> (r: bool)
    ensures
        r == spec_default_eq(*a, *b),
{
    match (a, b) {
        (DefaultValue::IntValue(x), DefaultValue::IntValue(y)) => *x == *y,
        (DefaultValue::TextValue(x), DefaultValue::TextValue(y)) => *x == *y,
        (DefaultValue::Autoincrement, DefaultValue::Autoincrement) => true,
        (DefaultValue::Now, DefaultValue::Now) => true,
        _ => false,
    }
}

fn opt_default_eq(a: &Option<DefaultValue>, b: &Option<DefaultValue>) -> (r: bool)
    ensures
        r == spec_opt_default_eq(*a, *b),
{
    match (a, b) {
        (Some(x), Some(y)) => default_eq(x, y),
        (None, None) => true,
        _ => false,
    }
}

fn enum_eq(a: &InternalEnum, b: &InternalEnum) -> (r: bool)
    ensures
        r == spec_enum_eq(*a, *b),
{
    if !(a.name == b.name) {
        return false;
    }
    if a.values.len() != b.values.len() {
        return false;
    }
    let mut i: usize = 0;
    while i < a.values.len()
        invariant
            i <= a.values@.len(),
            a.values@.len() == b.values@.len(),
            a.name@ == b.name@,
            forall|k: int| 0 <= k < i ==> a.values@[k]@ == #[trigger] b.values@[k]@,
        decreases a.values@.len() - i,
    {
        if !(a.values[i] == b.values[i]) {
            return false;
        }
        i += 1;
    }
    true
}

fn opt_enum_eq(a: &Option<InternalEnum>, b: &Option<InternalEnum>) -> (r: bool)
    ensures
        r == spec_opt_enum_eq(*a, *b),
{
    match (a, b) {
        (Some(x), Some(y)) => enum_eq(x, y),
        (None, None) => true,
        _ => false,
    }
}

impl PartialEq for ScalarField {
    /// Two fields are equal only when their identity-bearing attributes
    /// agree and they belong to the same model of the same schema.
    fn eq(&self, other: &Self) -> (r: bool) {
        self.name == other.name
            && self.type_identifier == other.type_identifier
            && self.is_required == other.is_required
            && self.is_list == other.is_list
            && self.is_id == other.is_id
            && self.is_auto_generated_int_id == other.is_auto_generated_int_id
            && opt_enum_eq(&self.internal_enum, &other.internal_enum)
            && self.behaviour == other.behaviour
            && opt_default_eq(&self.default_value, &other.default_value)
            && self.is_unique == other.is_unique
            && self.model_id == other.model_id
            && self.arity == other.arity
            && opt_string_eq(&self.db_name, &other.db_name)
    }
}

impl vstd::std_specs::cmp::PartialEqSpecImpl for ScalarField {
    open spec fn obeys_eq_spec() -> bool {
        true
    }

    open spec fn eq_spec(&self, other: &ScalarField) -> bool {
        self.spec_field_eq(*other)
    }
}

impl Eq for ScalarField {

}

} // verus!
