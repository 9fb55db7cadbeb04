use relcore::diagnostics::Span;
use relcore::entity::{
    FieldArity, FieldBehaviour, InternalDataModel, Model, ScalarField, ScalarListStrategy,
    TypeIdentifier,
};

fn base_field(model_id: usize) -> ScalarField {
    ScalarField {
        name: "title".to_string(),
        type_identifier: TypeIdentifier::Text,
        is_required: true,
        is_list: false,
        is_id: false,
        is_auto_generated_int_id: false,
        is_autoincrement: false,
        internal_enum: None,
        behaviour: None,
        arity: FieldArity::Required,
        db_name: None,
        default_value: None,
        native_type: None,
        model_id,
        is_unique: false,
        read_only: false,
    }
}

fn one_model_dm(field: ScalarField) -> InternalDataModel {
    InternalDataModel {
        models: vec![Model {
            id: 0,
            name: "Post".to_string(),
            span: Span { start: 0, end: 0 },
            fields: vec![field],
        }],
        constraints: vec![],
        relations: vec![],
    }
}

#[test]
fn db_name_falls_back_to_declared_name() {
    let mut f = base_field(0);
    assert_eq!(f.db_name(), "title");
    f.db_name = Some("title_column".to_string());
    assert_eq!(f.db_name(), "title_column");
}

#[test]
fn unique_holds_for_unique_or_id_fields() {
    let mut f = base_field(0);
    assert!(!f.unique());
    f.is_unique = true;
    assert!(f.unique());
    f.is_unique = false;
    f.is_id = true;
    assert!(f.is_id());
    assert!(f.unique());
}

#[test]
fn behaviour_flags_are_read_from_the_field() {
    let mut f = base_field(0);
    assert!(!f.is_created_at());
    assert!(!f.is_updated_at());
    f.behaviour = Some(FieldBehaviour::CreatedAt);
    assert!(f.is_created_at());
    f.behaviour = Some(FieldBehaviour::UpdatedAt);
    assert!(f.is_updated_at());
    f.behaviour = Some(FieldBehaviour::ScalarList { strategy: ScalarListStrategy::Embedded });
    assert!(!f.is_created_at());
    assert!(!f.is_updated_at());
}

#[test]
fn numeric_types_are_recognized() {
    let mut f = base_field(0);
    assert!(!f.is_numeric());
    f.type_identifier = TypeIdentifier::Int;
    assert!(f.is_numeric());
    f.type_identifier = TypeIdentifier::Decimal;
    assert!(f.is_numeric());
    f.type_identifier = TypeIdentifier::Boolean;
    assert!(!f.is_numeric());
}

#[test]
fn type_identifier_with_arity_pairs_both_attributes() {
    let mut f = base_field(0);
    f.type_identifier = TypeIdentifier::BigInt;
    f.arity = FieldArity::List;
    let (ty, arity) = f.type_identifier_with_arity();
    assert_eq!(ty, TypeIdentifier::BigInt);
    assert_eq!(arity, FieldArity::List);
}

#[test]
fn read_only_is_precomputed_at_build_time() {
    let mut f = base_field(0);
    assert!(!f.is_read_only());
    f.read_only = true;
    assert!(f.is_read_only());
}

#[test]
fn field_back_reference_upgrades_to_its_model() {
    let f = base_field(0);
    let dm = one_model_dm(f.clone());
    let m = f.model(&dm);
    assert_eq!(m.name, "Post");
    assert_eq!(m.id, 0);
    let inner = f.internal_data_model(&dm);
    assert_eq!(inner.models.len(), 1);
}

#[test]
fn field_equality_is_scoped_to_the_owning_model() {
    let a = base_field(0);
    let b = base_field(0);
    assert!(a == b);
    let other_model = base_field(1);
    assert!(a != other_model);
    let mut renamed = base_field(0);
    renamed.name = "other".to_string();
    assert!(a != renamed);
    let mut overridden = base_field(0);
    overridden.db_name = Some("t".to_string());
    assert!(a != overridden);
}
