//! The shape of the `Foo` resource as a plain value, and the check of a
//! document against a shape.
//!
//! A shape lists fields by name, each with the kind of its value and whether
//! it must be there. A document conforms where no required field is missing
//! and no field that the shape names has a value of another kind. Fields
//! that the shape does not name are let through.

use vstd::prelude::*;
use crate::clock::Timestamp;
use crate::resource::{FooSpec, FooStatus};

verus! {

/// The kind of value a field holds.
#[derive(Clone, Copy, Debug, PartialEq, Eq, Structural)]
pub enum FieldKind {
    Text,
    Flag,
    Time,
}

/// One field of a shape.
#[derive(Debug, PartialEq, Eq)]
pub struct FieldRule {
    pub name: String,
    pub kind: FieldKind,
    pub required: bool,
}

/// Mathematical value of a [`FieldRule`].
pub struct RuleView {
    pub name: Seq<char>,
    pub kind: FieldKind,
    pub required: bool,
}

impl View for FieldRule {
    type V = RuleView;

    open spec fn view(&self) -> RuleView {
        RuleView { name: self.name@, kind: self.kind, required: self.required }
    }
}

/// The value of one field of a document.
#[derive(Debug, PartialEq, Eq)]
pub enum Value {
    Text(String),
    Flag(bool),
    Time(Timestamp),
}

/// One field of a document.
#[derive(Debug, PartialEq, Eq)]
pub struct Field {
    pub name: String,
    pub value: Value,
}

/// A field of a document as the check sees it: its name and the kind of its
/// value.
pub struct FieldView {
    pub name: Seq<char>,
    pub kind: FieldKind,
}

impl Value {
    /// The kind of this value.
    pub open spec fn kind(&self) -> FieldKind {
        match *self {
            Value::Text(_) => FieldKind::Text,
            Value::Flag(_) => FieldKind::Flag,
            Value::Time(_) => FieldKind::Time,
        }
    }
}

impl View for Field {
    type V = FieldView;

    open spec fn view(&self) -> FieldView {
        FieldView { name: self.name@, kind: self.value.kind() }
    }
}

/// The rules of a list, each by its value.
pub open spec fn rule_views(rules: Seq<FieldRule>) -> Seq<RuleView> {
    Seq::new(rules.len(), |i: int| rules[i]@)
}

/// The fields of a list, each by its value.
pub open spec fn field_views(fields: Seq<Field>) -> Seq<FieldView> {
    Seq::new(fields.len(), |i: int| fields[i]@)
}

/// The document has a field called `name`.
pub open spec fn has_field(fields: Seq<FieldView>, name: Seq<char>) -> bool {
    exists|j: int| 0 <= j < fields.len() && (#[trigger] fields[j]).name == name
}

/// Rule `i` asks for a field that the document lacks.
pub open spec fn missing(rules: Seq<RuleView>, fields: Seq<FieldView>, i: int) -> bool {
    &&& 0 <= i < rules.len()
    &&& rules[i].required
    &&& !has_field(fields, rules[i].name)
}

/// Field `j` is named by rule `i`, which asks for another kind of value.
pub open spec fn clashes(rules: Seq<RuleView>, fields: Seq<FieldView>, i: int, j: int) -> bool {
    &&& 0 <= i < rules.len()
    &&& 0 <= j < fields.len()
    &&& rules[i].name == fields[j].name
    &&& rules[i].kind != fields[j].kind
}

/// Field `j` holds a value of another kind than some rule asks of it.
pub open spec fn mistyped(rules: Seq<RuleView>, fields: Seq<FieldView>, j: int) -> bool {
    exists|i: int| #[trigger] clashes(rules, fields, i, j)
}

/// The document meets the shape.
pub open spec fn conforms(rules: Seq<RuleView>, fields: Seq<FieldView>) -> bool {
    &&& forall|i: int| !#[trigger] missing(rules, fields, i)
    &&& forall|j: int| !#[trigger] mistyped(rules, fields, j)
}

/// Why a document does not meet a shape.
#[derive(Clone, Copy, Debug, PartialEq, Eq)]
pub enum SchemaError {
    /// The rule at this position asks for a field that is not there.
    MissingField { rule: usize },
    /// The field at this position holds a value of the wrong kind.
    WrongKind { field: usize },
}

fn find_field(fields: &Vec<Field>, name: &String) -> (found: bool)
    ensures
        found == has_field(field_views(fields@), name@),
{
    let mut j: usize = 0;
    while j < fields.len()
        invariant
            j <= fields.len(),
            forall|k: int| 0 <= k < j ==> (#[trigger] field_views(fields@)[k]).name != name@,
        decreases fields.len() - j,
    {
        if fields[j].name == *name {
            assert(field_views(fields@)[j as int].name == name@);
            return true;
        }
        j += 1;
    }
    false
}

fn kind_of(value: &Value) -> (kind: FieldKind)
    ensures
        kind == value.kind(),
{
    match value {
        Value::Text(_) => FieldKind::Text,
        Value::Flag(_) => FieldKind::Flag,
        Value::Time(_) => FieldKind::Time,
    }
}

fn same_kind(a: FieldKind, b: FieldKind) -> (same: bool)
    ensures
        same == (a == b),
{
    match (a, b) {
        (FieldKind::Text, FieldKind::Text) => true,
        (FieldKind::Flag, FieldKind::Flag) => true,
        (FieldKind::Time, FieldKind::Time) => true,
        _ => false,
    }
}

fn field_clashes(rules: &Vec<FieldRule>, fields: &Vec<Field>, j: usize) -> (clash: bool)
    requires
        j < fields.len(),
    ensures
        clash == mistyped(rule_views(rules@), field_views(fields@), j as int),
{
    let kind = kind_of(&fields[j].value);
    let mut i: usize = 0;
    while i < rules.len()
        invariant
            i <= rules.len(),
            j < fields.len(),
            kind == fields@[j as int].value.kind(),
            forall|k: int|
                0 <= k < i ==> !#[trigger] clashes(
                    rule_views(rules@),
                    field_views(fields@),
                    k,
                    j as int,
                ),
        decreases rules.len() - i,
    {
        if rules[i].name == fields[j].name && !same_kind(rules[i].kind, kind) {
            assert(clashes(rule_views(rules@), field_views(fields@), i as int, j as int));
            return true;
        }
        i += 1;
    }
    false
}

/// Checks a document against a shape. The answer is `Ok` exactly where the
/// document conforms. Else it names the first rule whose field is missing,
/// or, where none is missing, the first field of the wrong kind.
pub fn check(rules: &Vec<FieldRule>, fields: &Vec<Field>) -> (answer: Result<(), SchemaError>)
    ensures
        match answer {
            Ok(_) => conforms(rule_views(rules@), field_views(fields@)),
            Err(SchemaError::MissingField { rule }) => {
                &&& missing(rule_views(rules@), field_views(fields@), rule as int)
                &&& forall|i: int|
                    0 <= i < rule ==> !#[trigger] missing(
                        rule_views(rules@),
                        field_views(fields@),
                        i,
                    )
            },
            Err(SchemaError::WrongKind { field }) => {
                &&& forall|i: int| !#[trigger] missing(rule_views(rules@), field_views(fields@), i)
                &&& mistyped(rule_views(rules@), field_views(fields@), field as int)
                &&& forall|j: int|
                    0 <= j < field ==> !#[trigger] mistyped(
                        rule_views(rules@),
                        field_views(fields@),
                        j,
                    )
            },
        },
{
    let mut i: usize = 0;
    while i < rules.len()
        invariant
            i <= rules.len(),
            forall|k: int|
                0 <= k < i ==> !#[trigger] missing(rule_views(rules@), field_views(fields@), k),
        decreases rules.len() - i,
    {
        if rules[i].required && !find_field(fields, &rules[i].name) {
            return Err(SchemaError::MissingField { rule: i });
        }
        i += 1;
    }
    let mut j: usize = 0;
    while j < fields.len()
        invariant
            j <= fields.len(),
            forall|k: int| !#[trigger] missing(rule_views(rules@), field_views(fields@), k),
            forall|k: int|
                0 <= k < j ==> !#[trigger] mistyped(rule_views(rules@), field_views(fields@), k),
        decreases fields.len() - j,
    {
        if field_clashes(rules, fields, j) {
            return Err(SchemaError::WrongKind { field: j });
        }
        j += 1;
    }
    Ok(())
}

/// The description of a resource kind: where it lives in the API, and the
/// shapes of its spec and its status.
#[derive(Debug, PartialEq, Eq)]
pub struct Schema {
    pub group: String,
    pub version: String,
    pub kind: String,
    pub namespaced: bool,
    pub spec: Vec<FieldRule>,
    pub status: Vec<FieldRule>,
}

/// Mathematical value of a [`Schema`].
pub struct SchemaView {
    pub group: Seq<char>,
    pub version: Seq<char>,
    pub kind: Seq<char>,
    pub namespaced: bool,
    pub spec: Seq<RuleView>,
    pub status: Seq<RuleView>,
}

impl View for Schema {
    type V = SchemaView;

    open spec fn view(&self) -> SchemaView {
        SchemaView {
            group: self.group@,
            version: self.version@,
            kind: self.kind@,
            namespaced: self.namespaced,
            spec: rule_views(self.spec@),
            status: rule_views(self.status@),
        }
    }
}

/// The shape of a `Foo`'s spec: a name and an info text, both required.
pub open spec fn foo_spec_rules() -> Seq<RuleView> {
    seq![
        RuleView { name: "name"@, kind: FieldKind::Text, required: true },
        RuleView { name: "info"@, kind: FieldKind::Text, required: true },
    ]
}

/// The shape of a `Foo`'s status: the verdict, required, and the time of the
/// last update, which may be absent.
pub open spec fn foo_status_rules() -> Seq<RuleView> {
    seq![
        RuleView { name: "is_bad"@, kind: FieldKind::Flag, required: true },
        RuleView { name: "last_updated"@, kind: FieldKind::Time, required: false },
    ]
}

/// The description of the `Foo` kind.
pub open spec fn foo_schema_view() -> SchemaView {
    SchemaView {
        group: "clux.dev"@,
        version: "v1"@,
        kind: "Foo"@,
        namespaced: true,
        spec: foo_spec_rules(),
        status: foo_status_rules(),
    }
}

/// Builds the description of the `Foo` kind.
pub fn foo_schema() -> (schema: Schema)
    ensures
        schema@ == foo_schema_view(),
{
    let mut spec: Vec<FieldRule> = Vec::new();
    spec.push(FieldRule { name: "name".to_owned(), kind: FieldKind::Text, required: true });
    spec.push(FieldRule { name: "info".to_owned(), kind: FieldKind::Text, required: true });
    let mut status: Vec<FieldRule> = Vec::new();
    status.push(FieldRule { name: "is_bad".to_owned(), kind: FieldKind::Flag, required: true });
    status.push(
        FieldRule { name: "last_updated".to_owned(), kind: FieldKind::Time, required: false },
    );
    assert(rule_views(spec@) =~= foo_spec_rules());
    assert(rule_views(status@) =~= foo_status_rules());
    Schema {
        group: "clux.dev".to_owned(),
        version: "v1".to_owned(),
        kind: "Foo".to_owned(),
        namespaced: true,
        spec,
        status,
    }
}

/// The document of a spec, as the check sees it. It is the same for every
/// spec: the check looks at the names and the kinds of the fields, not at the
/// texts they hold.
pub open spec fn spec_document() -> Seq<FieldView> {
    seq![
        FieldView { name: "name"@, kind: FieldKind::Text },
        FieldView { name: "info"@, kind: FieldKind::Text },
    ]
}

/// The document of a status, as the check sees it: the time of the last
/// update is left out where there is none.
pub open spec fn status_document(status: FooStatus) -> Seq<FieldView> {
    if status.last_updated is Some {
        seq![
            FieldView { name: "is_bad"@, kind: FieldKind::Flag },
            FieldView { name: "last_updated"@, kind: FieldKind::Time },
        ]
    } else {
        seq![FieldView { name: "is_bad"@, kind: FieldKind::Flag }]
    }
}

/// Writes a spec out as a document. Whatever the spec holds, the document
/// conforms to the shape that the description of the kind gives a spec.
pub fn spec_fields(spec: &FooSpec) -> (fields: Vec<Field>)
    ensures
        field_views(fields@) == spec_document(),
        conforms(foo_schema_view().spec, field_views(fields@)),
        fields@.len() == 2,
        fields@[0].value == Value::Text(spec.name),
        fields@[1].value == Value::Text(spec.info),
{
    let mut fields: Vec<Field> = Vec::new();
    fields.push(Field { name: "name".to_owned(), value: Value::Text(spec.name.clone()) });
    fields.push(Field { name: "info".to_owned(), value: Value::Text(spec.info.clone()) });
    assert(field_views(fields@) =~= spec_document());
    proof {
        lemma_foo_conforms(FooStatus { is_bad: false, last_updated: None });
    }
    fields
}

/// Writes a status out as a document. Whatever the status holds, the
/// document conforms to the shape that the description gives a status.
pub fn status_fields(status: &FooStatus) -> (fields: Vec<Field>)
    ensures
        field_views(fields@) == status_document(*status),
        conforms(foo_schema_view().status, field_views(fields@)),
        fields@[0].value == Value::Flag(status.is_bad),
        status.last_updated matches Some(at) ==> fields@[1].value == Value::Time(at),
{
    let mut fields: Vec<Field> = Vec::new();
    fields.push(Field { name: "is_bad".to_owned(), value: Value::Flag(status.is_bad) });
    match status.last_updated {
        Some(at) => {
            fields.push(Field { name: "last_updated".to_owned(), value: Value::Time(at) });
        },
        None => {},
    }
    assert(field_views(fields@) =~= status_document(*status));
    proof {
        lemma_foo_conforms(*status);
    }
    fields
}

/// The four field names of a `Foo` differ from each other.
proof fn lemma_field_names_differ()
    ensures
        "name"@ != "info"@,
        "is_bad"@ != "last_updated"@,
{
    reveal_strlit("name");
    reveal_strlit("info");
    reveal_strlit("is_bad");
    reveal_strlit("last_updated");
    assert("name"@[0] != "info"@[0]);
    assert("is_bad"@.len() != "last_updated"@.len());
}

/// What the description promises, the check grants. Every spec and every
/// status of a `Foo` conforms to the shape that the description gives it.
pub proof fn lemma_foo_conforms(status: FooStatus)
    ensures
        conforms(foo_schema_view().spec, spec_document()),
        conforms(foo_schema_view().status, status_document(status)),
{
    lemma_field_names_differ();
    let rules = foo_spec_rules();
    let doc = spec_document();
    assert(doc[0].name == rules[0].name);
    assert(doc[1].name == rules[1].name);
    assert forall|j: int| !#[trigger] mistyped(rules, doc, j) by {
        if mistyped(rules, doc, j) {
            let i = choose|i: int| #[trigger] clashes(rules, doc, i, j);
            assert(clashes(rules, doc, i, j));
        }
    }
    let rules2 = foo_status_rules();
    let doc2 = status_document(status);
    assert(doc2[0].name == rules2[0].name);
    assert forall|j: int| !#[trigger] mistyped(rules2, doc2, j) by {
        if mistyped(rules2, doc2, j) {
            let i = choose|i: int| #[trigger] clashes(rules2, doc2, i, j);
            assert(clashes(rules2, doc2, i, j));
        }
    }
}

/// A document that lacks a required field is turned down, whatever else it
/// holds.
pub proof fn lemma_missing_field_rejected(rules: Seq<RuleView>, fields: Seq<FieldView>, i: int)
    requires
        0 <= i < rules.len(),
        rules[i].required,
        !has_field(fields, rules[i].name),
    ensures
        !conforms(rules, fields),
{
    assert(missing(rules, fields, i));
}

/// A spec with either of its fields taken out is turned down.
pub proof fn lemma_incomplete_spec_rejected(gone: int)
    requires
        0 <= gone < 2,
    ensures
        !conforms(foo_schema_view().spec, spec_document().remove(gone)),
{
    lemma_field_names_differ();
    let rules = foo_spec_rules();
    let doc = spec_document().remove(gone);
    assert(doc.len() == 1);
    assert(doc[0] == spec_document()[1 - gone]);
    assert(!has_field(doc, rules[gone].name));
    lemma_missing_field_rejected(rules, doc, gone);
}

} // verus!
