use relcore::actions::ReferentialAction;
use relcore::diagnostics::Span;
use relcore::entity::{
    DefaultValue, FieldArity, InternalDataModel, Model, Relation, ScalarField, TypeIdentifier,
};
use relcore::propagate::{
    apply_delete, apply_update, clone_value, value_equal, DeleteWrite, Record, UpdateWrite, Value,
};

fn mk_field(name: &str, model_id: usize, ty: TypeIdentifier, arity: FieldArity) -> ScalarField {
    ScalarField {
        name: name.to_string(),
        type_identifier: ty,
        is_required: matches!(arity, FieldArity::Required),
        is_list: false,
        is_id: false,
        is_auto_generated_int_id: false,
        is_autoincrement: false,
        internal_enum: None,
        behaviour: None,
        arity,
        db_name: None,
        default_value: None,
        native_type: None,
        model_id,
        is_unique: false,
        read_only: false,
    }
}

fn mk_model(id: usize, name: &str, fields: Vec<ScalarField>) -> Model {
    Model { id, name: name.to_string(), span: Span { start: 0, end: 0 }, fields }
}

fn mk_rel(
    parent: usize,
    child: usize,
    refd: Vec<usize>,
    fk: Vec<usize>,
    on_update: ReferentialAction,
    on_delete: ReferentialAction,
) -> Relation {
    Relation {
        parent_model: parent,
        child_model: child,
        fk_fields: fk,
        referenced_fields: refd,
        required: true,
        explicit_on_update: None,
        explicit_on_delete: None,
        on_update,
        on_delete,
        span: Span { start: 0, end: 0 },
    }
}

/// Parent(id Int, uniq Text) and Child(id Int, parent_uniq Text) joined
/// by parent.uniq <- child.parent_uniq.
fn parent_child_dm(
    child_arity: FieldArity,
    on_update: ReferentialAction,
    on_delete: ReferentialAction,
) -> InternalDataModel {
    InternalDataModel {
        models: vec![
            mk_model(
                0,
                "Parent",
                vec![
                    mk_field("id", 0, TypeIdentifier::Int, FieldArity::Required),
                    mk_field("uniq", 0, TypeIdentifier::Text, FieldArity::Required),
                ],
            ),
            mk_model(
                1,
                "Child",
                vec![
                    mk_field("id", 1, TypeIdentifier::Int, FieldArity::Required),
                    mk_field("parent_uniq", 1, TypeIdentifier::Text, child_arity),
                ],
            ),
        ],
        constraints: vec![],
        relations: vec![mk_rel(0, 1, vec![1], vec![1], on_update, on_delete)],
    }
}

fn rec(model: usize, fields: Vec<Value>) -> Record {
    Record { model, fields }
}

fn clone_store(store: &[Record]) -> Vec<Record> {
    store
        .iter()
        .map(|r| Record { model: r.model, fields: r.fields.iter().map(clone_value).collect() })
        .collect()
}

fn stores_equal(a: &[Record], b: &[Record]) -> bool {
    a.len() == b.len()
        && a.iter().zip(b.iter()).all(|(x, y)| {
            x.model == y.model
                && x.fields.len() == y.fields.len()
                && x.fields.iter().zip(y.fields.iter()).all(|(v, w)| value_equal(v, w))
        })
}

fn text(s: &str) -> Value {
    Value::Text(s.to_string())
}

#[test]
fn update_parent_cascades_to_required_one_to_one_child() {
    let dm = parent_child_dm(
        FieldArity::Required,
        ReferentialAction::Cascade,
        ReferentialAction::NoAction,
    );
    let store = vec![
        rec(0, vec![Value::Int(1), text("1")]),
        rec(1, vec![Value::Int(1), text("1")]),
    ];
    let write = UpdateWrite {
        model: 0,
        where_field: 0,
        where_value: Value::Int(1),
        set_field: 1,
        new_value: text("1u"),
    };
    let out = apply_update(&dm, store, &write).unwrap();
    assert!(value_equal(&out[0].fields[1], &text("1u")));
    assert!(value_equal(&out[1].fields[1], &text("1u")));
}

#[test]
fn update_parent_cascades_to_optional_one_to_one_child() {
    let dm = parent_child_dm(
        FieldArity::Optional,
        ReferentialAction::Cascade,
        ReferentialAction::NoAction,
    );
    let store = vec![
        rec(0, vec![Value::Int(1), text("1")]),
        rec(1, vec![Value::Int(1), text("1")]),
    ];
    let write = UpdateWrite {
        model: 0,
        where_field: 0,
        where_value: Value::Int(1),
        set_field: 1,
        new_value: text("1u"),
    };
    let out = apply_update(&dm, store, &write).unwrap();
    assert!(value_equal(&out[0].fields[1], &text("1u")));
    assert!(value_equal(&out[1].fields[1], &text("1u")));
}

#[test]
fn update_parent_cascades_through_three_levels() {
    let dm = InternalDataModel {
        models: vec![
            mk_model(
                0,
                "Parent",
                vec![
                    mk_field("id", 0, TypeIdentifier::Int, FieldArity::Required),
                    mk_field("uniq", 0, TypeIdentifier::Int, FieldArity::Required),
                ],
            ),
            mk_model(
                1,
                "Child",
                vec![
                    mk_field("id", 1, TypeIdentifier::Int, FieldArity::Required),
                    mk_field("parentUniq", 1, TypeIdentifier::Int, FieldArity::Optional),
                ],
            ),
            mk_model(
                2,
                "Child2",
                vec![
                    mk_field("id", 2, TypeIdentifier::Int, FieldArity::Required),
                    mk_field("childUniq", 2, TypeIdentifier::Int, FieldArity::Optional),
                ],
            ),
        ],
        constraints: vec![],
        relations: vec![
            mk_rel(0, 1, vec![1], vec![1], ReferentialAction::Cascade, ReferentialAction::NoAction),
            mk_rel(1, 2, vec![1], vec![1], ReferentialAction::Cascade, ReferentialAction::NoAction),
        ],
    };
    let store = vec![
        rec(0, vec![Value::Int(1), Value::Int(1)]),
        rec(1, vec![Value::Int(1), Value::Int(1)]),
        rec(2, vec![Value::Int(1), Value::Int(1)]),
    ];
    let write = UpdateWrite {
        model: 0,
        where_field: 0,
        where_value: Value::Int(1),
        set_field: 1,
        new_value: Value::Int(2),
    };
    let out = apply_update(&dm, store, &write).unwrap();
    assert!(value_equal(&out[0].fields[1], &Value::Int(2)));
    assert!(value_equal(&out[1].fields[1], &Value::Int(2)));
    assert!(value_equal(&out[2].fields[1], &Value::Int(2)));
}

#[test]
fn update_parent_cascades_to_every_child_of_one_to_many() {
    let dm = parent_child_dm(
        FieldArity::Required,
        ReferentialAction::Cascade,
        ReferentialAction::NoAction,
    );
    let store = vec![
        rec(0, vec![Value::Int(1), text("1")]),
        rec(1, vec![Value::Int(1), text("1")]),
        rec(1, vec![Value::Int(2), text("1")]),
        rec(1, vec![Value::Int(3), text("1")]),
    ];
    let write = UpdateWrite {
        model: 0,
        where_field: 0,
        where_value: Value::Int(1),
        set_field: 1,
        new_value: text("1u"),
    };
    let out = apply_update(&dm, store, &write).unwrap();
    for child in &out[1..] {
        assert!(value_equal(&child.fields[1], &text("1u")));
    }
}

#[test]
fn same_update_from_same_state_gives_same_final_state() {
    let dm = parent_child_dm(
        FieldArity::Required,
        ReferentialAction::Cascade,
        ReferentialAction::NoAction,
    );
    let store = vec![
        rec(0, vec![Value::Int(1), text("1")]),
        rec(1, vec![Value::Int(1), text("1")]),
        rec(1, vec![Value::Int(2), text("other")]),
    ];
    let write = UpdateWrite {
        model: 0,
        where_field: 0,
        where_value: Value::Int(1),
        set_field: 1,
        new_value: text("1u"),
    };
    let first = apply_update(&dm, clone_store(&store), &write).unwrap();
    let second = apply_update(&dm, clone_store(&store), &write).unwrap();
    assert!(stores_equal(&first, &second));
}

#[test]
fn reapplying_an_update_to_its_result_changes_nothing() {
    let dm = parent_child_dm(
        FieldArity::Required,
        ReferentialAction::Cascade,
        ReferentialAction::NoAction,
    );
    let store = vec![
        rec(0, vec![Value::Int(1), text("1")]),
        rec(1, vec![Value::Int(1), text("1")]),
    ];
    let write = UpdateWrite {
        model: 0,
        where_field: 0,
        where_value: Value::Int(1),
        set_field: 1,
        new_value: text("1u"),
    };
    let once = apply_update(&dm, store, &write).unwrap();
    let twice = apply_update(&dm, clone_store(&once), &write).unwrap();
    assert!(stores_equal(&once, &twice));
}

#[test]
fn restrict_blocks_update_while_dependents_exist() {
    let dm = parent_child_dm(
        FieldArity::Required,
        ReferentialAction::Restrict,
        ReferentialAction::NoAction,
    );
    let store = vec![
        rec(0, vec![Value::Int(1), text("1")]),
        rec(1, vec![Value::Int(1), text("1")]),
    ];
    let write = UpdateWrite {
        model: 0,
        where_field: 0,
        where_value: Value::Int(1),
        set_field: 1,
        new_value: text("1u"),
    };
    let err = apply_update(&dm, store, &write).unwrap_err();
    assert_eq!(err.relation, 0);
}

#[test]
fn restrict_permits_update_without_dependents() {
    let dm = parent_child_dm(
        FieldArity::Required,
        ReferentialAction::Restrict,
        ReferentialAction::NoAction,
    );
    let store = vec![
        rec(0, vec![Value::Int(1), text("1")]),
        rec(1, vec![Value::Int(1), text("somewhere_else")]),
    ];
    let write = UpdateWrite {
        model: 0,
        where_field: 0,
        where_value: Value::Int(1),
        set_field: 1,
        new_value: text("1u"),
    };
    let out = apply_update(&dm, store, &write).unwrap();
    assert!(value_equal(&out[0].fields[1], &text("1u")));
    assert!(value_equal(&out[1].fields[1], &text("somewhere_else")));
}

#[test]
fn delete_with_set_null_detaches_children() {
    let dm = parent_child_dm(
        FieldArity::Optional,
        ReferentialAction::Cascade,
        ReferentialAction::SetNull,
    );
    let store = vec![
        rec(0, vec![Value::Int(1), text("1")]),
        rec(1, vec![Value::Int(1), text("1")]),
    ];
    let write = DeleteWrite { model: 0, where_field: 0, where_value: Value::Int(1) };
    let out = apply_delete(&dm, store, &write).unwrap();
    assert_eq!(out.len(), 1);
    assert_eq!(out[0].model, 1);
    assert!(value_equal(&out[0].fields[1], &Value::Null));
}

#[test]
fn cascade_delete_removes_children_transitively() {
    let dm = parent_child_dm(
        FieldArity::Required,
        ReferentialAction::Cascade,
        ReferentialAction::Cascade,
    );
    let store = vec![
        rec(0, vec![Value::Int(1), text("1")]),
        rec(1, vec![Value::Int(1), text("1")]),
        rec(1, vec![Value::Int(2), text("1")]),
    ];
    let write = DeleteWrite { model: 0, where_field: 0, where_value: Value::Int(1) };
    let out = apply_delete(&dm, store, &write).unwrap();
    assert_eq!(out.len(), 0);
}

#[test]
fn restrict_blocks_delete_while_dependents_exist() {
    let dm = parent_child_dm(
        FieldArity::Required,
        ReferentialAction::Cascade,
        ReferentialAction::Restrict,
    );
    let store = vec![
        rec(0, vec![Value::Int(1), text("1")]),
        rec(1, vec![Value::Int(1), text("1")]),
    ];
    let write = DeleteWrite { model: 0, where_field: 0, where_value: Value::Int(1) };
    let err = apply_delete(&dm, store, &write).unwrap_err();
    assert_eq!(err.relation, 0);
}

#[test]
fn set_default_resets_foreign_keys_on_update() {
    let mut dm = parent_child_dm(
        FieldArity::Required,
        ReferentialAction::SetDefault,
        ReferentialAction::NoAction,
    );
    dm.models[1].fields[1].default_value = Some(DefaultValue::TextValue("fallback".to_string()));
    let store = vec![
        rec(0, vec![Value::Int(1), text("1")]),
        rec(1, vec![Value::Int(1), text("1")]),
    ];
    let write = UpdateWrite {
        model: 0,
        where_field: 0,
        where_value: Value::Int(1),
        set_field: 1,
        new_value: text("1u"),
    };
    let out = apply_update(&dm, store, &write).unwrap();
    assert!(value_equal(&out[0].fields[1], &text("1u")));
    assert!(value_equal(&out[1].fields[1], &text("fallback")));
}

#[test]
fn mutually_cascading_relations_terminate_at_write_time() {
    let dm = InternalDataModel {
        models: vec![
            mk_model(
                0,
                "A",
                vec![
                    mk_field("id", 0, TypeIdentifier::Int, FieldArity::Required),
                    mk_field("key", 0, TypeIdentifier::Int, FieldArity::Required),
                ],
            ),
            mk_model(
                1,
                "B",
                vec![
                    mk_field("id", 1, TypeIdentifier::Int, FieldArity::Required),
                    mk_field("key", 1, TypeIdentifier::Int, FieldArity::Required),
                ],
            ),
        ],
        constraints: vec![],
        relations: vec![
            mk_rel(0, 1, vec![1], vec![1], ReferentialAction::Cascade, ReferentialAction::NoAction),
            mk_rel(1, 0, vec![1], vec![1], ReferentialAction::Cascade, ReferentialAction::NoAction),
        ],
    };
    let store = vec![
        rec(0, vec![Value::Int(1), Value::Int(7)]),
        rec(1, vec![Value::Int(1), Value::Int(7)]),
    ];
    let write = UpdateWrite {
        model: 0,
        where_field: 0,
        where_value: Value::Int(1),
        set_field: 1,
        new_value: Value::Int(8),
    };
    let out = apply_update(&dm, store, &write).unwrap();
    assert!(value_equal(&out[0].fields[1], &Value::Int(8)));
    assert!(value_equal(&out[1].fields[1], &Value::Int(8)));
}

#[test]
fn update_missing_record_changes_nothing() {
    let dm = parent_child_dm(
        FieldArity::Required,
        ReferentialAction::Cascade,
        ReferentialAction::NoAction,
    );
    let store = vec![
        rec(0, vec![Value::Int(1), text("1")]),
        rec(1, vec![Value::Int(1), text("1")]),
    ];
    let write = UpdateWrite {
        model: 0,
        where_field: 0,
        where_value: Value::Int(99),
        set_field: 1,
        new_value: text("1u"),
    };
    let out = apply_update(&dm, clone_store(&store), &write).unwrap();
    assert!(stores_equal(&out, &store));
}
