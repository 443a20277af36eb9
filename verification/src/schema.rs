//! Structural schemas for event metadata: what a well-formed schema is, and
//! whether a document conforms to one.
//!
//! A schema is a JSON object. Its `type` member names the kind of value it
//! admits: `object`, `array`, `string`, `number` or `boolean`; any other
//! word admits everything. An `object` schema may constrain members through
//! `properties`, an `array` schema its elements through `items`.

use vstd::prelude::*;
use crate::json::{
    array_view, find_member, items_view, lookup, members_view, object_view, Entry, Json,
    JsonValue, Member,
};

verus! {

/// The kinds of value that a schema can demand.
#[derive(Clone, Copy, Debug, PartialEq, Eq, Structural)]
pub enum JsonType {
    Object,
    Array,
    String,
    Number,
    Boolean,
}

/// What is wrong at the place where validation stopped.
#[derive(Clone, Copy, Debug, PartialEq, Eq, Structural)]
pub enum Defect {
    /// The schema in force there is not a JSON object.
    SchemaNotObject,
    /// The schema's `type` member is not a string.
    TypeNotString,
    /// The schema's `properties` member is not a JSON object.
    PropertiesNotObject,
    /// The data is not of the kind that the schema demands.
    Expected(JsonType),
}

/// One step from a document toward a value inside it.
#[derive(Debug, PartialEq, Eq)]
pub enum PathStep {
    /// Into the member of an object with this key.
    Key(String),
    /// Into the element of an array at this index.
    Index(usize),
}

/// Model of a `PathStep`.
pub enum Step {
    Key(Seq<char>),
    Index(nat),
}

impl View for PathStep {
    type V = Step;

    open spec fn view(&self) -> Step {
        match self {
            PathStep::Key(k) => Step::Key(k@),
            PathStep::Index(i) => Step::Index(*i as nat),
        }
    }
}

/// Model of a `ValidationError`: the defect and the path from the document's
/// root to the place where it was found.
pub struct Violation {
    pub defect: Defect,
    pub path: Seq<Step>,
}

impl Violation {
    /// A defect of the document's root.
    pub open spec fn at_root(defect: Defect) -> Violation {
        Violation { defect, path: Seq::empty() }
    }

    /// The same violation, seen from one level further out.
    pub open spec fn under(self, step: Step) -> Violation {
        Violation { defect: self.defect, path: seq![step] + self.path }
    }
}

/// The first mismatch between a document and a schema.
#[derive(Debug, PartialEq, Eq)]
pub struct ValidationError {
    pub defect: Defect,
    /// From the document's root to the offending value.
    pub path: Vec<PathStep>,
}

/// The models of the steps of a path, in order.
pub open spec fn path_view(path: Seq<PathStep>) -> Seq<Step> {
    Seq::new(path.len(), |i: int| path[i]@)
}

impl View for ValidationError {
    type V = Violation;

    open spec fn view(&self) -> Violation {
        Violation { defect: self.defect, path: path_view(self.path@) }
    }
}

/// Why a document cannot serve as a schema.
#[derive(Clone, Copy, Debug, PartialEq, Eq, Structural)]
pub enum InvalidSchema {
    /// It is not a JSON object.
    NotAnObject,
    /// It has no `type` member.
    MissingType,
    /// Its `properties` member is not a JSON object.
    PropertiesNotObject,
}

impl InvalidSchema {
    /// The sentence that reports this defect.
    pub open spec fn message_text(self) -> Seq<char> {
        match self {
            InvalidSchema::NotAnObject => "Schema must be a JSON object"@,
            InvalidSchema::MissingType => "Schema must have 'type' field"@,
            InvalidSchema::PropertiesNotObject => "Schema properties must be an object"@,
        }
    }

    /// The sentence that reports this defect.
    pub fn message(self) -> (text: &'static str)
        ensures
            text@ == self.message_text(),
    {
        match self {
            InvalidSchema::NotAnObject => "Schema must be a JSON object",
            InvalidSchema::MissingType => "Schema must have 'type' field",
            InvalidSchema::PropertiesNotObject => "Schema properties must be an object",
        }
    }
}

impl Defect {
    /// The sentence that reports this defect.
    pub open spec fn message_text(self) -> Seq<char> {
        match self {
            Defect::SchemaNotObject => "Schema must be an object"@,
            Defect::TypeNotString => "Schema type must be a string"@,
            Defect::PropertiesNotObject => "Properties schema must be an object"@,
            Defect::Expected(JsonType::Object) => "Data must be an object"@,
            Defect::Expected(JsonType::Array) => "Data must be an array"@,
            Defect::Expected(JsonType::String) => "Data must be a string"@,
            Defect::Expected(JsonType::Number) => "Data must be a number"@,
            Defect::Expected(JsonType::Boolean) => "Data must be a boolean"@,
        }
    }

    /// The sentence that reports this defect.
    pub fn message(self) -> (text: &'static str)
        ensures
            text@ == self.message_text(),
    {
        match self {
            Defect::SchemaNotObject => "Schema must be an object",
            Defect::TypeNotString => "Schema type must be a string",
            Defect::PropertiesNotObject => "Properties schema must be an object",
            Defect::Expected(JsonType::Object) => "Data must be an object",
            Defect::Expected(JsonType::Array) => "Data must be an array",
            Defect::Expected(JsonType::String) => "Data must be a string",
            Defect::Expected(JsonType::Number) => "Data must be a number",
            Defect::Expected(JsonType::Boolean) => "Data must be a boolean",
        }
    }
}

/// What a schema's `type` word stands for.
pub enum TypeWord {
    Known(JsonType),
    /// Not a word that validation knows: it admits every value.
    Other,
}

/// Reads a `type` word.
pub open spec fn type_word(word: Seq<char>) -> TypeWord {
    if word == "object"@ {
        TypeWord::Known(JsonType::Object)
    } else if word == "array"@ {
        TypeWord::Known(JsonType::Array)
    } else if word == "string"@ {
        TypeWord::Known(JsonType::String)
    } else if word == "number"@ {
        TypeWord::Known(JsonType::Number)
    } else if word == "boolean"@ {
        TypeWord::Known(JsonType::Boolean)
    } else {
        TypeWord::Other
    }
}

/// Whether a value is of the given kind.
pub open spec fn has_type(data: Json, expected: JsonType) -> bool {
    match expected {
        JsonType::Object => data is Object,
        JsonType::Array => data is Array,
        JsonType::String => data is Text,
        JsonType::Number => data is Number,
        JsonType::Boolean => data is Bool,
    }
}

/// Why `schema` cannot serve as a schema, if it cannot.
pub open spec fn structure_defect(schema: Json) -> Option<InvalidSchema> {
    match schema {
        Json::Object(fields) => {
            if lookup(fields, "type"@) is None {
                Some(InvalidSchema::MissingType)
            } else {
                match lookup(fields, "properties"@) {
                    Some(props) => if props is Object {
                        None
                    } else {
                        Some(InvalidSchema::PropertiesNotObject)
                    },
                    None => None,
                }
            }
        },
        _ => Some(InvalidSchema::NotAnObject),
    }
}

/// The first violation that validation of `data` against `schema` meets, or
/// `None` if `data` conforms.
///
/// Members of an object are checked in the order in which the schema's
/// `properties` declare them, members that the schema does not declare are
/// ignored, and declared members that the data lacks are passed over.
/// Elements of an array are checked in index order.
pub open spec fn first_violation(data: Json, schema: Json) -> Option<Violation>
    decreases schema, 0nat,
{
    match schema {
        Json::Object(fields) => match lookup(fields, "type"@) {
            None => None,
            Some(Json::Text(word)) => match type_word(word) {
                TypeWord::Other => None,
                TypeWord::Known(expected) => if !has_type(data, expected) {
                    Some(Violation::at_root(Defect::Expected(expected)))
                } else {
                    match data {
                        Json::Object(entries) => match lookup(fields, "properties"@) {
                            None => None,
                            Some(Json::Object(declared)) => properties_violation(
                                entries,
                                declared,
                                0,
                            ),
                            Some(_) => Some(Violation::at_root(Defect::PropertiesNotObject)),
                        },
                        Json::Array(items) => match lookup(fields, "items"@) {
                            None => None,
                            Some(item_schema) => items_violation(items, item_schema, 0),
                        },
                        _ => None,
                    }
                },
            },
            Some(_) => Some(Violation::at_root(Defect::TypeNotString)),
        },
        _ => Some(Violation::at_root(Defect::SchemaNotObject)),
    }
}

/// The first violation among the declared properties from index `from` on.
pub open spec fn properties_violation(
    entries: Seq<Entry>,
    declared: Seq<Entry>,
    from: int,
) -> Option<Violation>
    decreases declared, declared.len() - from,
{
    if from < 0 || from >= declared.len() {
        None
    } else {
        let here = match lookup(entries, declared[from].key) {
            Some(value) => first_violation(value, declared[from].value),
            None => None,
        };
        match here {
            Some(violation) => Some(violation.under(Step::Key(declared[from].key))),
            None => properties_violation(entries, declared, from + 1),
        }
    }
}

/// The first violation among the elements of an array from index `from` on.
pub open spec fn items_violation(items: Seq<Json>, item_schema: Json, from: int) -> Option<
    Violation,
>
    decreases item_schema, 1 + items.len() - from,
{
    if from < 0 || from >= items.len() {
        None
    } else {
        match first_violation(items[from], item_schema) {
            Some(violation) => Some(violation.under(Step::Index(from as nat))),
            None => items_violation(items, item_schema, from + 1),
        }
    }
}

/// Whether `data` conforms to `schema`: the schema is an object; where it
/// names a known kind, the data is of that kind; every declared property
/// that an object has conforms to its own schema; and every element of an
/// array conforms to the schema of the items.
pub open spec fn conforms(data: Json, schema: Json) -> bool
    decreases schema,
{
    match schema {
        Json::Object(fields) => match lookup(fields, "type"@) {
            None => true,
            Some(Json::Text(word)) => match type_word(word) {
                TypeWord::Other => true,
                TypeWord::Known(expected) => has_type(data, expected) && match data {
                    Json::Object(entries) => match lookup(fields, "properties"@) {
                        None => true,
                        Some(Json::Object(declared)) => forall|i: int|
                            0 <= i < declared.len() ==> match lookup(
                                entries,
                                (#[trigger] declared[i]).key,
                            ) {
                                Some(value) => conforms(value, declared[i].value),
                                None => true,
                            },
                        Some(_) => false,
                    },
                    Json::Array(items) => match lookup(fields, "items"@) {
                        None => true,
                        Some(item_schema) => forall|i: int|
                            0 <= i < items.len() ==> conforms(#[trigger] items[i], item_schema),
                    },
                    _ => true,
                },
            },
            Some(_) => false,
        },
        _ => false,
    }
}

/// Whether the declared property at index `i` is met: the data lacks the
/// member, or the member conforms to the property's schema.
pub open spec fn property_met(entries: Seq<Entry>, declared: Seq<Entry>, i: int) -> bool {
    match lookup(entries, declared[i].key) {
        Some(value) => conforms(value, declared[i].value),
        None => true,
    }
}

/// Validation finds a violation exactly where the data does not conform.
pub proof fn violation_iff_not_conforming(data: Json, schema: Json)
    ensures
        first_violation(data, schema) is None <==> conforms(data, schema),
    decreases schema, 0nat,
{
    match schema {
        Json::Object(fields) => match lookup(fields, "type"@) {
            Some(Json::Text(word)) => match type_word(word) {
                TypeWord::Known(expected) => {
                    if has_type(data, expected) {
                        match data {
                            Json::Object(entries) => match lookup(fields, "properties"@) {
                                Some(Json::Object(declared)) => {
                                    properties_conform(entries, declared, 0);
                                    assert(forall|i: int|
                                        0 <= i < declared.len() ==> (property_met(
                                            entries,
                                            declared,
                                            i,
                                        ) <==> match lookup(entries, (#[trigger] declared[i]).key) {
                                            Some(value) => conforms(value, declared[i].value),
                                            None => true,
                                        }));
                                },
                                _ => {},
                            },
                            Json::Array(items) => match lookup(fields, "items"@) {
                                Some(item_schema) => {
                                    items_conform(items, item_schema, 0);
                                },
                                None => {},
                            },
                            _ => {},
                        }
                    }
                },
                TypeWord::Other => {},
            },
            _ => {},
        },
        _ => {},
    }
}

/// No declared property from `from` on is violated exactly where each of
/// them is met.
pub proof fn properties_conform(entries: Seq<Entry>, declared: Seq<Entry>, from: int)
    requires
        0 <= from <= declared.len(),
    ensures
        properties_violation(entries, declared, from) is None <==> forall|i: int|
            from <= i < declared.len() ==> property_met(entries, declared, i),
    decreases declared, declared.len() - from,
{
    if from < declared.len() {
        match lookup(entries, declared[from].key) {
            Some(value) => {
                violation_iff_not_conforming(value, declared[from].value);
            },
            None => {},
        }
        properties_conform(entries, declared, from + 1);
        if properties_violation(entries, declared, from) is None {
            assert forall|i: int| from <= i < declared.len() implies property_met(
                entries,
                declared,
                i,
            ) by {
                if i > from {
                    assert(property_met(entries, declared, i));
                }
            }
        } else if property_met(entries, declared, from) {
            assert(properties_violation(entries, declared, from + 1) is Some);
        }
    }
}

/// No element from `from` on is violated exactly where each of them
/// conforms.
pub proof fn items_conform(items: Seq<Json>, item_schema: Json, from: int)
    requires
        0 <= from <= items.len(),
    ensures
        items_violation(items, item_schema, from) is None <==> forall|i: int|
            from <= i < items.len() ==> conforms(#[trigger] items[i], item_schema),
    decreases item_schema, 1 + items.len() - from,
{
    if from < items.len() {
        violation_iff_not_conforming(items[from], item_schema);
        items_conform(items, item_schema, from + 1);
        if items_violation(items, item_schema, from) is None {
            assert forall|i: int| from <= i < items.len() implies conforms(
                #[trigger] items[i],
                item_schema,
            ) by {
                if i > from {
                    assert(conforms(items[i], item_schema));
                }
            }
        }
    }
}

/// Reads a `type` word.
pub fn read_type_word(word: &str) -> (r: TypeWord)
    ensures
        r == type_word(word@),
{
    if word.eq("object") {
        TypeWord::Known(JsonType::Object)
    } else if word.eq("array") {
        TypeWord::Known(JsonType::Array)
    } else if word.eq("string") {
        TypeWord::Known(JsonType::String)
    } else if word.eq("number") {
        TypeWord::Known(JsonType::Number)
    } else if word.eq("boolean") {
        TypeWord::Known(JsonType::Boolean)
    } else {
        TypeWord::Other
    }
}

/// Whether a value is of the given kind.
pub fn value_has_type(data: &JsonValue, expected: JsonType) -> (r: bool)
    ensures
        r == has_type(data@, expected),
{
    match expected {
        JsonType::Object => matches!(data, JsonValue::Object(_)),
        JsonType::Array => matches!(data, JsonValue::Array(_)),
        JsonType::String => matches!(data, JsonValue::Text(_)),
        JsonType::Number => matches!(data, JsonValue::Number(_)),
        JsonType::Boolean => matches!(data, JsonValue::Bool(_)),
    }
}

/// Checks that a document can serve as a schema: it is an object, it has a
/// `type` member, and its `properties` member, if any, is an object.
pub fn validate_schema_structure(schema: &JsonValue) -> (r: Result<(), InvalidSchema>)
    ensures
        r == match structure_defect(schema@) {
            Some(defect) => Err::<(), InvalidSchema>(defect),
            None => Ok(()),
        },
{
    match schema {
        JsonValue::Object(members) => {
            proof {
                object_view(*members);
            }
            if find_member(members, "type").is_none() {
                return Err(InvalidSchema::MissingType);
            }
            match find_member(members, "properties") {
                Some(props) => {
                    if matches!(props, JsonValue::Object(_)) {
                        Ok(())
                    } else {
                        Err(InvalidSchema::PropertiesNotObject)
                    }
                },
                None => Ok(()),
            }
        },
        _ => Err(InvalidSchema::NotAnObject),
    }
}

/// What validation must return for an outcome: success where there is no
/// violation, and otherwise the violation.
pub open spec fn reports(r: Result<(), ValidationError>, outcome: Option<Violation>) -> bool {
    match outcome {
        None => r is Ok,
        Some(violation) => r matches Err(e) && e@ == violation,
    }
}

fn at_root(defect: Defect) -> (e: ValidationError)
    ensures
        e@ == Violation::at_root(defect),
{
    let e = ValidationError { defect, path: Vec::new() };
    assert(e@.path =~= Seq::<Step>::empty());
    e
}

fn under(e: ValidationError, step: PathStep) -> (outer: ValidationError)
    ensures
        outer@ == e@.under(step@),
{
    let ValidationError { defect, path } = e;
    let mut path = path;
    path.insert(0, step);
    let outer = ValidationError { defect, path };
    assert(outer@.path =~= seq![step@] + e@.path);
    outer
}

/// Validates `data` against `schema`.
///
/// Succeeds exactly when `data` conforms; otherwise reports the first
/// violation in traversal order, with the path to it.
pub fn validate_against_schema(data: &JsonValue, schema: &JsonValue) -> (r: Result<
    (),
    ValidationError,
>)
    ensures
        reports(r, first_violation(data@, schema@)),
    decreases schema, 0nat,
{
    match schema {
        JsonValue::Object(members) => {
            proof {
                object_view(*members);
            }
            match find_member(members, "type") {
                None => Ok(()),
                Some(JsonValue::Text(word)) => match read_type_word(word.as_str()) {
                    TypeWord::Other => Ok(()),
                    TypeWord::Known(expected) => {
                        if !value_has_type(data, expected) {
                            return Err(at_root(Defect::Expected(expected)));
                        }
                        match data {
                            JsonValue::Object(entries) => {
                                proof {
                                    object_view(*entries);
                                }
                                match find_member(members, "properties") {
                                    None => Ok(()),
                                    Some(props) => validate_object_properties(entries, props),
                                }
                            },
                            JsonValue::Array(items) => {
                                proof {
                                    array_view(*items);
                                }
                                match find_member(members, "items") {
                                    None => Ok(()),
                                    Some(item_schema) => validate_array_items(items, item_schema),
                                }
                            },
                            _ => Ok(()),
                        }
                    },
                },
                Some(_) => Err(at_root(Defect::TypeNotString)),
            }
        },
        _ => Err(at_root(Defect::SchemaNotObject)),
    }
}

/// Validates the members of an object against the `properties` of a schema,
/// in the order in which `properties` declares them.
pub fn validate_object_properties(data: &Vec<Member>, properties: &JsonValue) -> (r: Result<
    (),
    ValidationError,
>)
    ensures
        reports(
            r,
            match properties@ {
                Json::Object(declared) => properties_violation(members_view(data@), declared, 0),
                _ => Some(Violation::at_root(Defect::PropertiesNotObject)),
            },
        ),
    decreases properties, 1nat,
{
    match properties {
        JsonValue::Object(declared) => {
            proof {
                object_view(*declared);
            }
            let ghost entries = members_view(data@);
            let ghost fields = members_view(declared@);
            let mut i: usize = 0;
            while i < declared.len()
                invariant
                    0 <= i <= declared.len(),
                    entries == members_view(data@),
                    fields == members_view(declared@),
                    properties@ == Json::Object(fields),
                    decreases_to!(*properties => *declared),
                    properties_violation(entries, fields, 0) == properties_violation(
                        entries,
                        fields,
                        i as int,
                    ),
                decreases declared.len() - i,
            {
                let field = &declared[i];
                assert(fields[i as int] == field@);
                match find_member(data, field.key.as_str()) {
                    Some(value) => {
                        match validate_against_schema(value, &field.value) {
                            Ok(()) => {},
                            Err(e) => {
                                return Err(under(e, PathStep::Key(field.key.clone())));
                            },
                        }
                    },
                    None => {},
                }
                i += 1;
            }
            Ok(())
        },
        _ => Err(at_root(Defect::PropertiesNotObject)),
    }
}

/// Validates every element of an array against one schema, in index order.
pub fn validate_array_items(data: &Vec<JsonValue>, item_schema: &JsonValue) -> (r: Result<
    (),
    ValidationError,
>)
    ensures
        reports(r, items_violation(items_view(data@), item_schema@, 0)),
    decreases item_schema, 1nat,
{
    let ghost items = items_view(data@);
    let mut i: usize = 0;
    while i < data.len()
        invariant
            0 <= i <= data.len(),
            items == items_view(data@),
            items_violation(items, item_schema@, 0) == items_violation(
                items,
                item_schema@,
                i as int,
            ),
        decreases data.len() - i,
    {
        match validate_against_schema(&data[i], item_schema) {
            Ok(()) => {},
            Err(e) => {
                return Err(under(e, PathStep::Index(i)));
            },
        }
        i += 1;
    }
    Ok(())
}

} // verus!
