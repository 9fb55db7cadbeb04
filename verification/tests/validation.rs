use relcore::actions::{Configuration, ConstraintKind, Connector, Datasource, ReferentialAction};
use relcore::diagnostics::{Diagnostics, ErrorKind, Span};
use relcore::entity::{
    Constraint, FieldArity, InternalDataModel, Model, Relation, ScalarField, TypeIdentifier,
};
use relcore::namespace::{
    default_constraint_name, namespace_description, scope_violations,
    validate_constraint_namespaces, ConstraintNamespace,
};
use relcore::resolve::{resolve_referential_actions, validate_relation_actions};
use relcore::schema::load_schema;

fn mk_field(name: &str, model_id: usize, ty: TypeIdentifier, arity: FieldArity) -> ScalarField {
    ScalarField {
        name: name.to_string(),
        type_identifier: ty,
        is_required: matches!(arity, FieldArity::Required),
        is_list: matches!(arity, FieldArity::List),
        is_id: false,
        is_auto_generated_int_id: false,
        is_autoincrement: false,
        internal_enum: None,
        behaviour: None,
        arity,
        db_name: None,
        default_value: None,
        native_type: None,
        model_id,
        is_unique: false,
        read_only: false,
    }
}

fn mk_model(id: usize, name: &str, fields: Vec<ScalarField>) -> Model {
    Model { id, name: name.to_string(), span: Span { start: 0, end: 0 }, fields }
}

fn mk_constraint(model_id: usize, mapped: Option<&str>, default_name: &str) -> Constraint {
    Constraint {
        model_id,
        kind: ConstraintKind::Index,
        mapped_name: mapped.map(|s| s.to_string()),
        default_name: default_name.to_string(),
        attribute: None,
    }
}

fn mk_rel(
    parent: usize,
    child: usize,
    refd: Vec<usize>,
    fk: Vec<usize>,
    on_update: ReferentialAction,
    on_delete: ReferentialAction,
) -> Relation {
    Relation {
        parent_model: parent,
        child_model: child,
        fk_fields: fk,
        referenced_fields: refd,
        required: true,
        explicit_on_update: None,
        explicit_on_delete: None,
        on_update,
        on_delete,
        span: Span { start: 0, end: 0 },
    }
}

fn two_models() -> Vec<Model> {
    vec![
        mk_model(
            0,
            "Parent",
            vec![
                mk_field("id", 0, TypeIdentifier::Int, FieldArity::Required),
                mk_field("uniq", 0, TypeIdentifier::Text, FieldArity::Required),
            ],
        ),
        mk_model(
            1,
            "Child",
            vec![
                mk_field("id", 1, TypeIdentifier::Int, FieldArity::Required),
                mk_field("parent_uniq", 1, TypeIdentifier::Text, FieldArity::Required),
            ],
        ),
    ]
}

#[test]
fn colliding_index_names_in_one_model_are_reported() {
    let dm = InternalDataModel {
        models: two_models(),
        constraints: vec![
            mk_constraint(0, Some("idx"), "Parent_a_idx"),
            mk_constraint(0, Some("idx"), "Parent_b_idx"),
        ],
        relations: vec![],
    };
    let mut diagnostics = Diagnostics::new();
    validate_constraint_namespaces(&dm, Connector::MySql, &mut diagnostics);
    assert!(diagnostics.has_errors());
    assert!(diagnostics
        .errors
        .iter()
        .any(|d| d.kind == ErrorKind::NamespaceViolation && d.subject == 0 && d.peer == Some(1)));
    assert!(diagnostics
        .errors
        .iter()
        .any(|d| d.kind == ErrorKind::NamespaceViolation && d.subject == 1 && d.peer == Some(0)));
}

#[test]
fn same_name_in_different_models_is_fine_per_model() {
    let dm = InternalDataModel {
        models: two_models(),
        constraints: vec![
            mk_constraint(0, Some("idx"), "Parent_idx"),
            mk_constraint(1, Some("idx"), "Child_idx"),
        ],
        relations: vec![],
    };
    let mut diagnostics = Diagnostics::new();
    validate_constraint_namespaces(&dm, Connector::MySql, &mut diagnostics);
    assert!(!diagnostics.has_errors());
}

#[test]
fn same_name_in_different_models_collides_globally() {
    let dm = InternalDataModel {
        models: two_models(),
        constraints: vec![
            mk_constraint(0, Some("idx"), "Parent_idx"),
            mk_constraint(1, Some("idx"), "Child_idx"),
        ],
        relations: vec![],
    };
    let mut diagnostics = Diagnostics::new();
    validate_constraint_namespaces(&dm, Connector::Postgres, &mut diagnostics);
    assert!(diagnostics.has_errors());
}

#[test]
fn mapped_name_is_reported_verbatim() {
    let dm = InternalDataModel {
        models: two_models(),
        constraints: vec![
            mk_constraint(0, Some("custom_name"), "Parent_a_idx"),
            mk_constraint(0, Some("custom_name"), "Parent_b_idx"),
        ],
        relations: vec![],
    };
    let mut diagnostics = Diagnostics::new();
    validate_constraint_namespaces(&dm, Connector::MySql, &mut diagnostics);
    assert!(diagnostics.has_errors());
    for d in &diagnostics.errors {
        assert!(d.message.contains("`custom_name`"));
        assert!(!d.message.contains("Parent_a_idx"));
        assert!(!d.message.contains("Parent_b_idx"));
    }
}

#[test]
fn scope_violations_lists_every_peer() {
    let dm = InternalDataModel {
        models: two_models(),
        constraints: vec![
            mk_constraint(0, Some("n"), "a"),
            mk_constraint(0, Some("n"), "b"),
            mk_constraint(0, Some("other"), "c"),
            mk_constraint(0, Some("n"), "d"),
        ],
        relations: vec![],
    };
    let peers = scope_violations(&dm, Connector::MySql, 0);
    assert_eq!(peers, vec![1, 3]);
}

#[test]
fn namespace_descriptions_name_the_owning_model() {
    assert_eq!(namespace_description(ConstraintNamespace::Global, "Parent"), "global");
    assert_eq!(
        namespace_description(ConstraintNamespace::Model(0), "Parent"),
        "on model `Parent`"
    );
}

#[test]
fn set_null_on_non_nullable_fields_is_rejected() {
    let mut rel = mk_rel(
        0,
        1,
        vec![1],
        vec![1],
        ReferentialAction::Cascade,
        ReferentialAction::SetNull,
    );
    rel.explicit_on_delete = Some(ReferentialAction::SetNull);
    let dm = InternalDataModel { models: two_models(), constraints: vec![], relations: vec![rel] };
    let mut diagnostics = Diagnostics::new();
    validate_relation_actions(&dm, Connector::Postgres, 0, &mut diagnostics);
    assert_eq!(diagnostics.errors.len(), 1);
    let d = &diagnostics.errors[0];
    assert_eq!(d.kind, ErrorKind::IllegalReferentialAction);
    assert!(d.message.contains("SetNull"));
    assert!(d.message.contains("`parent_uniq`"));
}

#[test]
fn set_null_on_nullable_fields_is_accepted() {
    let mut models = two_models();
    models[1].fields[1] = mk_field("parent_uniq", 1, TypeIdentifier::Text, FieldArity::Optional);
    let mut rel = mk_rel(
        0,
        1,
        vec![1],
        vec![1],
        ReferentialAction::Cascade,
        ReferentialAction::SetNull,
    );
    rel.explicit_on_delete = Some(ReferentialAction::SetNull);
    let dm = InternalDataModel { models, constraints: vec![], relations: vec![rel] };
    let mut diagnostics = Diagnostics::new();
    validate_relation_actions(&dm, Connector::Postgres, 0, &mut diagnostics);
    assert!(!diagnostics.has_errors());
}

#[test]
fn unsupported_action_is_rejected() {
    let mut rel = mk_rel(
        0,
        1,
        vec![1],
        vec![1],
        ReferentialAction::Restrict,
        ReferentialAction::NoAction,
    );
    rel.explicit_on_update = Some(ReferentialAction::Restrict);
    let dm = InternalDataModel { models: two_models(), constraints: vec![], relations: vec![rel] };
    let mut diagnostics = Diagnostics::new();
    validate_relation_actions(&dm, Connector::SqlServer, 0, &mut diagnostics);
    assert_eq!(diagnostics.errors.len(), 1);
    assert!(diagnostics.errors[0].message.contains("Restrict"));
    assert!(diagnostics.errors[0]
        .message
        .contains("not supported by the current backend"));
}

#[test]
fn cascade_cycle_fails_schema_load() {
    let dm = InternalDataModel {
        models: two_models(),
        constraints: vec![],
        relations: vec![
            mk_rel(0, 1, vec![1], vec![1], ReferentialAction::Cascade, ReferentialAction::NoAction),
            mk_rel(1, 0, vec![1], vec![1], ReferentialAction::Cascade, ReferentialAction::NoAction),
        ],
    };
    let (model, diagnostics) = load_schema(dm, Connector::Postgres);
    assert!(model.is_none());
    assert!(diagnostics.errors.iter().any(|d| d.kind == ErrorKind::CascadeCycle));
}

#[test]
fn self_cascade_cycle_fails_schema_load() {
    let dm = InternalDataModel {
        models: two_models(),
        constraints: vec![],
        relations: vec![mk_rel(
            0,
            0,
            vec![1],
            vec![0],
            ReferentialAction::Cascade,
            ReferentialAction::NoAction,
        )],
    };
    let (model, diagnostics) = load_schema(dm, Connector::Postgres);
    assert!(model.is_none());
    assert!(diagnostics.errors.iter().any(|d| d.kind == ErrorKind::CascadeCycle));
}

#[test]
fn acyclic_cascade_chain_loads() {
    let dm = InternalDataModel {
        models: two_models(),
        constraints: vec![],
        relations: vec![mk_rel(
            0,
            1,
            vec![1],
            vec![1],
            ReferentialAction::Cascade,
            ReferentialAction::Cascade,
        )],
    };
    let (model, diagnostics) = load_schema(dm, Connector::Postgres);
    assert!(model.is_some());
    assert!(!diagnostics.errors.iter().any(|d| d.kind == ErrorKind::CascadeCycle));
}

#[test]
fn resolved_actions_prefer_explicit_over_default() {
    let mut rel = mk_rel(
        0,
        1,
        vec![1],
        vec![1],
        ReferentialAction::Cascade,
        ReferentialAction::Cascade,
    );
    rel.explicit_on_update = Some(ReferentialAction::NoAction);
    rel.explicit_on_delete = Some(ReferentialAction::SetNull);
    let (u, d) = resolve_referential_actions(&rel, Connector::Postgres);
    assert_eq!(u, ReferentialAction::NoAction);
    assert_eq!(d, ReferentialAction::SetNull);
}

#[test]
fn default_actions_follow_backend_and_arity() {
    let required = mk_rel(
        0,
        1,
        vec![1],
        vec![1],
        ReferentialAction::Cascade,
        ReferentialAction::Cascade,
    );
    let (u, d) = resolve_referential_actions(&required, Connector::Postgres);
    assert_eq!(u, ReferentialAction::Cascade);
    assert_eq!(d, ReferentialAction::Restrict);
    let (_, d2) = resolve_referential_actions(&required, Connector::SqlServer);
    assert_eq!(d2, ReferentialAction::NoAction);
    let mut optional = required.clone();
    optional.required = false;
    let (_, d3) = resolve_referential_actions(&optional, Connector::Postgres);
    assert_eq!(d3, ReferentialAction::SetNull);
}

#[test]
fn available_actions_render_as_json_in_preference_order() {
    let config = Configuration {
        datasources: vec![Datasource {
            name: "db".to_string(),
            active_connector: Connector::Postgres,
        }],
    };
    assert_eq!(
        relcore::actions::run(&config),
        "[\"NoAction\",\"Restrict\",\"Cascade\",\"SetNull\",\"SetDefault\"]"
    );
    let config = Configuration {
        datasources: vec![Datasource {
            name: "db".to_string(),
            active_connector: Connector::SqlServer,
        }],
    };
    assert_eq!(
        relcore::actions::run(&config),
        "[\"NoAction\",\"Cascade\",\"SetNull\",\"SetDefault\"]"
    );
}

#[test]
fn ambiguous_configuration_yields_empty_list() {
    let config = Configuration { datasources: vec![] };
    assert_eq!(relcore::actions::run(&config), "[]");
    let config = Configuration {
        datasources: vec![
            Datasource { name: "a".to_string(), active_connector: Connector::Postgres },
            Datasource { name: "b".to_string(), active_connector: Connector::MySql },
        ],
    };
    assert_eq!(relcore::actions::run(&config), "[]");
}

#[test]
fn supported_actions_are_queried_per_backend() {
    assert!(Connector::Postgres.supports_referential_action(ReferentialAction::Restrict));
    assert!(!Connector::SqlServer.supports_referential_action(ReferentialAction::Restrict));
    assert_eq!(Connector::MySql.referential_actions().len(), 5);
}

#[test]
fn default_constraint_names_derive_from_model_and_columns() {
    let cols = vec!["uniq".to_string()];
    assert_eq!(default_constraint_name("Parent", &cols, ConstraintKind::Unique), "Parent_uniq_key");
    let cols = vec!["a".to_string(), "b".to_string()];
    assert_eq!(default_constraint_name("Post", &cols, ConstraintKind::Index), "Post_a_b_idx");
    assert_eq!(
        default_constraint_name("Post", &cols, ConstraintKind::ForeignKey),
        "Post_a_b_fkey"
    );
}
