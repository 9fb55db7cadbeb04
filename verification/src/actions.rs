use vstd::prelude::*;

use vstd::string::StringExecFns;

verus! {

/// The behavior triggered on dependent records when a referenced key is
/// updated or the referenced record is deleted.
#[derive(Clone, Copy, PartialEq, Eq, Structural, Debug)]
pub enum ReferentialAction {
    /// Propagate the change to dependent records, recursively.
    Cascade,
    /// Refuse the originating write while dependents exist.
    Restrict,
    /// Like `Restrict`; kept distinct because backends distinguish them.
    NoAction,
    /// Reset dependent foreign-key fields to null (one hop, no recursion).
    SetNull,
    /// Reset dependent foreign-key fields to their declared defaults
    /// (one hop, no recursion).
    SetDefault,
}

impl ReferentialAction {
    /// The action's schema keyword.
    pub open spec fn spec_name(self) -> Seq<char> {
        match self {
            ReferentialAction::Cascade => "Cascade"@,
            ReferentialAction::Restrict => "Restrict"@,
            ReferentialAction::NoAction => "NoAction"@,
            ReferentialAction::SetNull => "SetNull"@,
            ReferentialAction::SetDefault => "SetDefault"@,
        }
    }

    pub fn name(&self) -> (r: &'static str)
        ensures
            r@ == self.spec_name(),
    {
        match self {
            ReferentialAction::Cascade => "Cascade",
            ReferentialAction::Restrict => "Restrict",
            ReferentialAction::NoAction => "NoAction",
            ReferentialAction::SetNull => "SetNull",
            ReferentialAction::SetDefault => "SetDefault",
        }
    }
}

/// The partition within which constraint names of a given kind must be
/// unique, as the backend defines it.
#[derive(Clone, Copy, PartialEq, Eq, Structural, Debug)]
pub enum NameScope {
    /// Names collide across the whole schema.
    Global,
    /// Names collide only within one model.
    PerModel,
}

/// The kind of a named database object.
#[derive(Clone, Copy, PartialEq, Eq, Structural, Debug)]
pub enum ConstraintKind {
    Index,
    Unique,
    PrimaryKey,
    ForeignKey,
    FieldDefault,
}

/// A concrete backend. Each variant answers the capability queries the
/// engine is written against: supported referential actions (in the
/// backend's preference order), default actions for required and optional
/// relations, and the naming scope of each constraint kind.
#[derive(Clone, Copy, PartialEq, Eq, Structural, Debug)]
pub enum Connector {
    Postgres,
    MySql,
    SqlServer,
    Sqlite,
}

impl Connector {
    /// The referential actions this backend supports, in its declared
    /// preference order (stable across calls).
    pub open spec fn spec_referential_actions(self) -> Seq<ReferentialAction> {
        match self {
            Connector::Postgres => seq![
                ReferentialAction::NoAction,
                ReferentialAction::Restrict,
                ReferentialAction::Cascade,
                ReferentialAction::SetNull,
                ReferentialAction::SetDefault,
            ],
            Connector::MySql => seq![
                ReferentialAction::Restrict,
                ReferentialAction::Cascade,
                ReferentialAction::SetNull,
                ReferentialAction::NoAction,
                ReferentialAction::SetDefault,
            ],
            Connector::SqlServer => seq![
                ReferentialAction::NoAction,
                ReferentialAction::Cascade,
                ReferentialAction::SetNull,
                ReferentialAction::SetDefault,
            ],
            Connector::Sqlite => seq![
                ReferentialAction::SetNull,
                ReferentialAction::SetDefault,
                ReferentialAction::Cascade,
                ReferentialAction::Restrict,
                ReferentialAction::NoAction,
            ],
        }
    }

    pub fn referential_actions(&self) -> (v: Vec<ReferentialAction>)
        ensures
            v@ == self.spec_referential_actions(),
    {
        let mut v: Vec<ReferentialAction> = Vec::new();
        match self {
            Connector::Postgres => {
                v.push(ReferentialAction::NoAction);
                v.push(ReferentialAction::Restrict);
                v.push(ReferentialAction::Cascade);
                v.push(ReferentialAction::SetNull);
                v.push(ReferentialAction::SetDefault);
            }
            Connector::MySql => {
                v.push(ReferentialAction::Restrict);
                v.push(ReferentialAction::Cascade);
                v.push(ReferentialAction::SetNull);
                v.push(ReferentialAction::NoAction);
                v.push(ReferentialAction::SetDefault);
            }
            Connector::SqlServer => {
                v.push(ReferentialAction::NoAction);
                v.push(ReferentialAction::Cascade);
                v.push(ReferentialAction::SetNull);
                v.push(ReferentialAction::SetDefault);
            }
            Connector::Sqlite => {
                v.push(ReferentialAction::SetNull);
                v.push(ReferentialAction::SetDefault);
                v.push(ReferentialAction::Cascade);
                v.push(ReferentialAction::Restrict);
                v.push(ReferentialAction::NoAction);
            }
        }
        proof {
            assert(v@ =~= self.spec_referential_actions());
        }
        v
    }

    /// Whether this backend supports the action at all.
    pub open spec fn spec_supports(self, a: ReferentialAction) -> bool {
        self.spec_referential_actions().contains(a)
    }

    pub fn supports_referential_action(&self, a: ReferentialAction) -> (b: bool)
        ensures
            b == self.spec_supports(a),
    {
        let all = self.referential_actions();
        let mut i: usize = 0;
        while i < all.len()
            invariant
                i <= all@.len(),
                all@ == self.spec_referential_actions(),
                forall|k: int| 0 <= k < i ==> all@[k] != a,
            decreases all@.len() - i,
        {
            if all[i] == a {
                return true;
            }
            i += 1;
        }
        false
    }

    /// The backend's default `onUpdate` action for a relation whose
    /// arity is given by `required`.
    pub open spec fn spec_default_on_update(self, required: bool) -> ReferentialAction {
        ReferentialAction::Cascade
    }

    pub fn default_on_update(&self, required: bool) -> (a: ReferentialAction)
        ensures
            a == self.spec_default_on_update(required),
    {
        ReferentialAction::Cascade
    }

    /// The backend's default `onDelete` action: required relations block
    /// the delete, optional relations detach the dependent.
    pub open spec fn spec_default_on_delete(self, required: bool) -> ReferentialAction {
        if required {
            match self {
                Connector::SqlServer => ReferentialAction::NoAction,
                _ => ReferentialAction::Restrict,
            }
        } else {
            ReferentialAction::SetNull
        }
    }

    pub fn default_on_delete(&self, required: bool) -> (a: ReferentialAction)
        ensures
            a == self.spec_default_on_delete(required),
    {
        if required {
            match self {
                Connector::SqlServer => ReferentialAction::NoAction,
                _ => ReferentialAction::Restrict,
            }
        } else {
            ReferentialAction::SetNull
        }
    }

    /// The namespace scope within which names of the given constraint
    /// kind must be unique on this backend.
    pub open spec fn spec_name_scope(self, kind: ConstraintKind) -> NameScope {
        match self {
            Connector::Postgres => NameScope::Global,
            Connector::MySql => match kind {
                ConstraintKind::Index | ConstraintKind::Unique | ConstraintKind::PrimaryKey => NameScope::PerModel,
                ConstraintKind::ForeignKey | ConstraintKind::FieldDefault => NameScope::Global,
            },
            Connector::SqlServer => match kind {
                ConstraintKind::Index | ConstraintKind::Unique => NameScope::PerModel,
                ConstraintKind::PrimaryKey | ConstraintKind::ForeignKey | ConstraintKind::FieldDefault => NameScope::Global,
            },
            Connector::Sqlite => NameScope::Global,
        }
    }

    pub fn name_scope(&self, kind: ConstraintKind) -> (s: NameScope)
        ensures
            s == self.spec_name_scope(kind),
    {
        match self {
            Connector::Postgres => NameScope::Global,
            Connector::MySql => match kind {
                ConstraintKind::Index | ConstraintKind::Unique | ConstraintKind::PrimaryKey => NameScope::PerModel,
                ConstraintKind::ForeignKey | ConstraintKind::FieldDefault => NameScope::Global,
            },
            Connector::SqlServer => match kind {
                ConstraintKind::Index | ConstraintKind::Unique => NameScope::PerModel,
                ConstraintKind::PrimaryKey | ConstraintKind::ForeignKey | ConstraintKind::FieldDefault => NameScope::Global,
            },
            Connector::Sqlite => NameScope::Global,
        }
    }
}

// ---------------------------------------------------------------------------
// The backend capability query surface.
// ---------------------------------------------------------------------------

/// One configured data source: a name and the backend it targets.
pub struct Datasource {
    pub name: String,
    pub active_connector: Connector,
}

/// The configuration a parsed schema yields: its declared data sources.
pub struct Configuration {
    pub datasources: Vec<Datasource>,
}

/// JSON text of one quoted string.
pub open spec fn spec_json_quoted(s: Seq<char>) -> Seq<char> {
    "\""@ + s + "\""@
}

/// JSON text of the comma-separated quoted items.
pub open spec fn spec_json_items(v: Seq<Seq<char>>) -> Seq<char>
    decreases v.len(),
{
    if v.len() == 0 {
        Seq::empty()
    } else if v.len() == 1 {
        spec_json_quoted(v[0])
    } else {
        spec_json_items(v.drop_last()) + ","@ + spec_json_quoted(v.last())
    }
}

/// JSON text of an array of strings.
pub open spec fn spec_json_string_array(v: Seq<Seq<char>>) -> Seq<char> {
    "["@ + spec_json_items(v) + "]"@
}

/// The character sequences of a sequence of strings.
pub open spec fn spec_strings_view(v: Seq<String>) -> Seq<Seq<char>>
    decreases v.len(),
{
    if v.len() == 0 {
        Seq::empty()
    } else {
        spec_strings_view(v.drop_last()).push(v.last()@)
    }
}

pub proof fn lemma_strings_view(v: Seq<String>)
    ensures
        spec_strings_view(v).len() == v.len(),
        forall|i: int| 0 <= i < v.len() ==> spec_strings_view(v)[i] == (#[trigger] v[i])@,
    decreases v.len(),
{
    if v.len() > 0 {
        lemma_strings_view(v.drop_last());
        assert forall|i: int| 0 <= i < v.len() implies spec_strings_view(v)[i] == (
        #[trigger] v[i])@ by {
            if i < v.len() - 1 {
                assert(v.drop_last()[i] == v[i]);
                assert(spec_strings_view(v.drop_last())[i] == v.drop_last()[i]@);
            } else {
                assert(v.last() == v[i]);
            }
        }
    }
}

/// The keywords of a sequence of referential actions.
pub open spec fn spec_action_names(v: Seq<ReferentialAction>) -> Seq<Seq<char>>
    decreases v.len(),
{
    if v.len() == 0 {
        Seq::empty()
    } else {
        spec_action_names(v.drop_last()).push(v.last().spec_name())
    }
}

pub proof fn lemma_action_names(v: Seq<ReferentialAction>)
    ensures
        spec_action_names(v).len() == v.len(),
        forall|i: int|
            0 <= i < v.len() ==> spec_action_names(v)[i] == (#[trigger] v[i]).spec_name(),
    decreases v.len(),
{
    if v.len() > 0 {
        lemma_action_names(v.drop_last());
        assert forall|i: int| 0 <= i < v.len() implies spec_action_names(v)[i] == (
        #[trigger] v[i]).spec_name() by {
            if i < v.len() - 1 {
                assert(v.drop_last()[i] == v[i]);
                assert(spec_action_names(v.drop_last())[i] == v.drop_last()[i].spec_name());
            } else {
                assert(v.last() == v[i]);
            }
        }
    }
}

/// Relies on serde_json::to_string on a `Vec<String>`: it renders a JSON
/// array of the items, in order, each between double quotes; an action
/// keyword holds no character that JSON escapes, so each item appears
/// verbatim. Serializing strings cannot fail.
#[verifier::external_body]
fn to_json_string_array(items: &Vec<String>) -> (r: String)
    requires
        forall|i: int|
            0 <= i < items@.len() ==> exists|a: ReferentialAction| (#[trigger] items@[i])@
                == a.spec_name(),
    ensures
        r@ == spec_json_string_array(spec_strings_view(items@)),
{
    serde_json::to_string(items).expect("serializing a list of strings cannot fail")
}

/// The capability query's answer: the single active backend's supported
/// referential actions, in its preference order, as a JSON array of
/// keywords; the empty array when the configuration holds no backend or
/// more than one.
pub open spec fn spec_available_actions_json(config: Configuration) -> Seq<char> {
    if config.datasources@.len() != 1 {
        "[]"@
    } else {
        spec_json_string_array(
            spec_action_names(config.datasources@[0].active_connector.spec_referential_actions()),
        )
    }
}

/// Report the referential actions available under the given
/// configuration, serialized for tooling. Exactly one active data
/// source is required for a non-empty answer.
pub fn run(config: &Configuration) -> (r: String)
    ensures
        r@ == spec_available_actions_json(*config),
{
    if config.datasources.len() != 1 {
        return String::from_str("[]");
    }
    let connector = config.datasources[0].active_connector;
    let acts = connector.referential_actions();
    let mut names: Vec<String> = Vec::new();
    let mut i: usize = 0;
    while i < acts.len()
        invariant
            i <= acts@.len(),
            acts@ == connector.spec_referential_actions(),
            names@.len() == i,
            forall|q: int| 0 <= q < i ==> (#[trigger] names@[q])@ == acts@[q].spec_name(),
        decreases acts@.len() - i,
    {
        names.push(String::from_str(acts[i].name()));
        i += 1;
    }
    proof {
        lemma_strings_view(names@);
        lemma_action_names(acts@);
        assert forall|q: int|
            0 <= q < names@.len() implies #[trigger] spec_strings_view(names@)[q]
            == spec_action_names(acts@)[q] by {
            assert(spec_strings_view(names@)[q] == names@[q]@);
            assert(spec_action_names(acts@)[q] == acts@[q].spec_name());
        }
        assert(spec_strings_view(names@) =~= spec_action_names(acts@));
        assert forall|k: int|
            0 <= k < names@.len() implies exists|a: ReferentialAction| (#[trigger] names@[k])@
            == a.spec_name() by {
            assert(names@[k]@ == acts@[k].spec_name());
        }
    }
    to_json_string_array(&names)
}


} // verus!
