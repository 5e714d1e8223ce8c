//! Validation of a schema.
//!
//! [`validate_spec`] gives the first rule that a schema breaks, in the order
//! in which the rules are checked; [`schema_well_formed`] says what a schema
//! that breaks none of them looks like. [`validate`] computes the former,
//! and the two are proved to agree.

use vstd::prelude::*;
use vstd::string::*;
use crate::ast::{
    Enum, EnumVariantView, EnumView, FieldType, FieldTypeView, FieldView, Message, MessageView,
    ScalarType, Schema, SchemaItem, SchemaItemView, SchemaView,
};
use crate::errors::CompilerError;
use crate::search::{
    first_index, first_repeat, lemma_first_index, lemma_first_index_contains,
    lemma_first_repeat, lemma_no_repeat_iff_distinct,
};
use crate::text::{i64_to_string, join3, join5, signed_decimal, str_eq};

verus! {

/// A rule that a schema breaks, with the symbol that breaks it.
pub enum ValidationIssue {
    DuplicateTypeName(Seq<char>),
    ReservedFieldName { field: Seq<char>, message: Seq<char> },
    UnknownType(Seq<char>),
    NestedVector,
    DuplicateFieldName { field: Seq<char>, message: Seq<char> },
    DuplicateVariantName { variant: Seq<char>, definition: Seq<char> },
    DuplicateEnumValue { value: i64, definition: Seq<char> },
    ReservedEnumName(Seq<char>),
}

/// The message of a validation error.
pub open spec fn issue_message(issue: ValidationIssue) -> Seq<char> {
    match issue {
        ValidationIssue::DuplicateTypeName(name) => "Duplicate type name '"@ + name + "' found"@,
        ValidationIssue::ReservedFieldName { field, message } => "Field name '"@ + field
            + "' is reserved in message '"@ + message + "'"@,
        ValidationIssue::UnknownType(name) => "Unknown type '"@ + name + "' used in field"@,
        ValidationIssue::NestedVector => "Nested vectors are not allowed"@,
        ValidationIssue::DuplicateFieldName { field, message } => "Duplicate field name '"@ + field
            + "' in message '"@ + message + "'"@,
        ValidationIssue::DuplicateVariantName { variant, definition } =>
            "Duplicate variant name '"@ + variant + "' in enum '"@ + definition + "'"@,
        ValidationIssue::DuplicateEnumValue { value, definition } => "Duplicate enum value "@
            + signed_decimal(value as int) + " in enum '"@ + definition + "'"@,
        ValidationIssue::ReservedEnumName(name) => "Enum name '"@ + name + "' is reserved"@,
    }
}

/// Names that no field may have.
pub open spec fn is_reserved_field_name(name: Seq<char>) -> bool {
    name == "type"@ || name == "id"@ || name == "data"@ || name == "buffer"@
}

/// Names that no enum may have.
pub open spec fn is_reserved_enum_name(name: Seq<char>) -> bool {
    name == "Result"@ || name == "Option"@ || name == "Status"@
}

/// The names of the items of a schema, in order.
pub open spec fn item_names(items: Seq<SchemaItemView>) -> Seq<Seq<char>> {
    items.map_values(|i: SchemaItemView| i.name())
}

/// The names of the fields of a message, in order.
pub open spec fn field_names(fields: Seq<FieldView>) -> Seq<Seq<char>> {
    fields.map_values(|f: FieldView| f.name)
}

/// The names of the variants of an enum, in order.
pub open spec fn variant_names(variants: Seq<EnumVariantView>) -> Seq<Seq<char>> {
    variants.map_values(|v: EnumVariantView| v.name)
}

/// The value that the variant at position `i` takes where none is written.
pub open spec fn positional_value(i: int) -> i64 {
    if i <= i64::MAX {
        i as i64
    } else {
        i64::MAX
    }
}

/// The values of the variants of an enum: the written value, or else the
/// position.
pub open spec fn variant_values(variants: Seq<EnumVariantView>) -> Seq<i64> {
    Seq::new(
        variants.len(),
        |i: int|
            match variants[i].value {
                Some(v) => v,
                None => positional_value(i),
            },
    )
}

/// The first position at or after `from` that holds a reserved field name,
/// or the length of `names`.
pub open spec fn first_reserved(names: Seq<Seq<char>>, from: int) -> int
    decreases names.len() - from,
{
    if from < 0 || from >= names.len() {
        names.len() as int
    } else if is_reserved_field_name(names[from]) {
        from
    } else {
        first_reserved(names, from + 1)
    }
}

/// What is wrong with a field type: a name that is not declared, or a
/// vector of vectors. The element type is looked at before the nesting.
pub open spec fn type_issue(t: FieldTypeView, names: Seq<Seq<char>>) -> Option<ValidationIssue>
    decreases t,
{
    match t {
        FieldTypeView::Scalar(_) => None,
        FieldTypeView::UserDefined(name) => if names.contains(name) {
            None
        } else {
            Some(ValidationIssue::UnknownType(name))
        },
        FieldTypeView::Vector(inner) => match type_issue(*inner, names) {
            Some(issue) => Some(issue),
            None => if *inner is Vector {
                Some(ValidationIssue::NestedVector)
            } else {
                None
            },
        },
    }
}

/// The issue of the first field at or after `from` whose type has one.
pub open spec fn first_type_issue(fields: Seq<FieldView>, names: Seq<Seq<char>>, from: int) -> Option<
    ValidationIssue,
>
    decreases fields.len() - from,
{
    if from < 0 || from >= fields.len() {
        None
    } else {
        match type_issue(fields[from].field_type, names) {
            Some(issue) => Some(issue),
            None => first_type_issue(fields, names, from + 1),
        }
    }
}

/// The first rule that a message breaks: reserved field names are looked
/// for first, then field types are checked, then repeated field names.
pub open spec fn message_issue(m: MessageView, names: Seq<Seq<char>>) -> Option<ValidationIssue> {
    let fields = field_names(m.fields);
    let reserved = first_reserved(fields, 0);
    let repeated = first_repeat(fields, 0);
    if reserved < fields.len() {
        Some(ValidationIssue::ReservedFieldName { field: fields[reserved], message: m.name })
    } else if first_type_issue(m.fields, names, 0) is Some {
        first_type_issue(m.fields, names, 0)
    } else if repeated < fields.len() {
        Some(ValidationIssue::DuplicateFieldName { field: fields[repeated], message: m.name })
    } else {
        None
    }
}

/// The first rule that an enum breaks: repeated variant names are looked
/// for first, then repeated values, then a reserved name of the enum.
pub open spec fn enum_issue(e: EnumView) -> Option<ValidationIssue> {
    let names = variant_names(e.variants);
    let values = variant_values(e.variants);
    let repeated_name = first_repeat(names, 0);
    let repeated_value = first_repeat(values, 0);
    if repeated_name < names.len() {
        Some(
            ValidationIssue::DuplicateVariantName {
                variant: names[repeated_name],
                definition: e.name,
            },
        )
    } else if repeated_value < values.len() {
        Some(
            ValidationIssue::DuplicateEnumValue {
                value: values[repeated_value],
                definition: e.name,
            },
        )
    } else if is_reserved_enum_name(e.name) {
        Some(ValidationIssue::ReservedEnumName(e.name))
    } else {
        None
    }
}

/// The first rule that an item breaks.
pub open spec fn item_issue(item: SchemaItemView, names: Seq<Seq<char>>) -> Option<
    ValidationIssue,
> {
    match item {
        SchemaItemView::Message(m) => message_issue(m, names),
        SchemaItemView::Enum(e) => enum_issue(e),
    }
}

/// The issue of the first item at or after `from` that has one.
pub open spec fn first_item_issue(
    items: Seq<SchemaItemView>,
    names: Seq<Seq<char>>,
    from: int,
) -> Option<ValidationIssue>
    decreases items.len() - from,
{
    if from < 0 || from >= items.len() {
        None
    } else {
        match item_issue(items[from], names) {
            Some(issue) => Some(issue),
            None => first_item_issue(items, names, from + 1),
        }
    }
}

/// The first rule that a schema breaks, or `None` for a valid schema. The
/// names of all items are collected first, and a repeated one is the
/// issue; then the items are checked in order.
pub open spec fn validate_spec(schema: SchemaView) -> Option<ValidationIssue> {
    let names = item_names(schema.items);
    let repeated = first_repeat(names, 0);
    if repeated < names.len() {
        Some(ValidationIssue::DuplicateTypeName(names[repeated]))
    } else {
        first_item_issue(schema.items, names, 0)
    }
}

/// Every user-defined type in `t` is one of `names`.
pub open spec fn type_resolves(t: FieldTypeView, names: Seq<Seq<char>>) -> bool
    decreases t,
{
    match t {
        FieldTypeView::Scalar(_) => true,
        FieldTypeView::UserDefined(name) => names.contains(name),
        FieldTypeView::Vector(inner) => type_resolves(*inner, names),
    }
}

/// `t` holds a vector whose elements are vectors.
pub open spec fn has_nested_vector(t: FieldTypeView) -> bool
    decreases t,
{
    match t {
        FieldTypeView::Vector(inner) => *inner is Vector || has_nested_vector(*inner),
        _ => false,
    }
}

/// A message that breaks no rule.
pub open spec fn message_well_formed(m: MessageView, names: Seq<Seq<char>>) -> bool {
    &&& field_names(m.fields).no_duplicates()
    &&& forall|i: int| 0 <= i < m.fields.len() ==> !is_reserved_field_name(#[trigger] m.fields[i].name)
    &&& forall|i: int|
        0 <= i < m.fields.len() ==> type_resolves((#[trigger] m.fields[i]).field_type, names)
    &&& forall|i: int| 0 <= i < m.fields.len() ==> !has_nested_vector((#[trigger] m.fields[i]).field_type)
}

/// An enum that breaks no rule.
pub open spec fn enum_well_formed(e: EnumView) -> bool {
    &&& variant_names(e.variants).no_duplicates()
    &&& variant_values(e.variants).no_duplicates()
    &&& !is_reserved_enum_name(e.name)
}

/// An item that breaks no rule.
pub open spec fn item_well_formed(item: SchemaItemView, names: Seq<Seq<char>>) -> bool {
    match item {
        SchemaItemView::Message(m) => message_well_formed(m, names),
        SchemaItemView::Enum(e) => enum_well_formed(e),
    }
}

/// A schema that breaks no rule: the names of its items are pairwise
/// different; in every message the field names are pairwise different and
/// none is reserved, every user-defined type is declared in the schema, and
/// no vector holds vectors; in every enum the variant names and the
/// variant values are pairwise different, and its name is not reserved.
pub open spec fn schema_well_formed(schema: SchemaView) -> bool {
    &&& item_names(schema.items).no_duplicates()
    &&& forall|i: int|
        0 <= i < schema.items.len() ==> item_well_formed(
            #[trigger] schema.items[i],
            item_names(schema.items),
        )
}

proof fn lemma_first_reserved(names: Seq<Seq<char>>, from: int)
    requires
        0 <= from <= names.len(),
    ensures
        from <= first_reserved(names, from) <= names.len(),
        first_reserved(names, from) < names.len() ==> is_reserved_field_name(
            names[first_reserved(names, from)],
        ),
        forall|k: int|
            from <= k < first_reserved(names, from) ==> !is_reserved_field_name(#[trigger] names[k]),
    decreases names.len() - from,
{
    if from < names.len() && !is_reserved_field_name(names[from]) {
        lemma_first_reserved(names, from + 1);
    }
}

proof fn lemma_type_issue(t: FieldTypeView, names: Seq<Seq<char>>)
    ensures
        type_issue(t, names) is None <==> type_resolves(t, names) && !has_nested_vector(t),
    decreases t,
{
    match t {
        FieldTypeView::Vector(inner) => {
            lemma_type_issue(*inner, names);
        },
        _ => {},
    }
}

proof fn lemma_first_type_issue(fields: Seq<FieldView>, names: Seq<Seq<char>>, from: int)
    requires
        0 <= from <= fields.len(),
    ensures
        first_type_issue(fields, names, from) is None <==> forall|k: int|
            from <= k < fields.len() ==> type_issue((#[trigger] fields[k]).field_type, names)
                is None,
    decreases fields.len() - from,
{
    if from < fields.len() {
        lemma_first_type_issue(fields, names, from + 1);
    }
}

proof fn lemma_message_issue(m: MessageView, names: Seq<Seq<char>>)
    ensures
        message_issue(m, names) is None <==> message_well_formed(m, names),
{
    let fields = field_names(m.fields);
    lemma_first_reserved(fields, 0);
    lemma_first_type_issue(m.fields, names, 0);
    lemma_no_repeat_iff_distinct(fields);
    lemma_first_repeat(fields, 0);
    assert forall|k: int| 0 <= k < m.fields.len() implies (type_issue(
        (#[trigger] m.fields[k]).field_type,
        names,
    ) is None <==> type_resolves(m.fields[k].field_type, names) && !has_nested_vector(
        m.fields[k].field_type,
    )) by {
        lemma_type_issue(m.fields[k].field_type, names);
    }
    if message_issue(m, names) is None {
        assert forall|i: int| 0 <= i < m.fields.len() implies !is_reserved_field_name(
            #[trigger] m.fields[i].name,
        ) by {
            assert(fields[i] == m.fields[i].name);
        }
    }
    if message_well_formed(m, names) {
        let reserved = first_reserved(fields, 0);
        if reserved < fields.len() {
            assert(fields[reserved] == m.fields[reserved].name);
        }
    }
}

proof fn lemma_enum_issue(e: EnumView)
    ensures
        enum_issue(e) is None <==> enum_well_formed(e),
{
    lemma_no_repeat_iff_distinct(variant_names(e.variants));
    lemma_first_repeat(variant_names(e.variants), 0);
    lemma_no_repeat_iff_distinct(variant_values(e.variants));
    lemma_first_repeat(variant_values(e.variants), 0);
}

proof fn lemma_first_item_issue(items: Seq<SchemaItemView>, names: Seq<Seq<char>>, from: int)
    requires
        0 <= from <= items.len(),
    ensures
        first_item_issue(items, names, from) is None <==> forall|k: int|
            from <= k < items.len() ==> item_well_formed(#[trigger] items[k], names),
    decreases items.len() - from,
{
    if from < items.len() {
        match items[from] {
            SchemaItemView::Message(m) => lemma_message_issue(m, names),
            SchemaItemView::Enum(e) => lemma_enum_issue(e),
        }
        lemma_first_item_issue(items, names, from + 1);
    }
}

/// Validation accepts exactly the schemas that break no rule: whatever it
/// accepts is well formed, and whatever repeats a name, names an unknown
/// type, nests vectors or uses a reserved name is rejected.
pub proof fn lemma_validation_exact(schema: SchemaView)
    ensures
        validate_spec(schema) is None <==> schema_well_formed(schema),
{
    let names = item_names(schema.items);
    lemma_no_repeat_iff_distinct(names);
    lemma_first_repeat(names, 0);
    lemma_first_item_issue(schema.items, names, 0);
}

/// Soundness of validation, spelled out: in a schema that validation
/// accepts no two items share a name, no two fields of a message share a
/// name, no two variants of an enum share a name or a value, and every
/// user-defined field type is the name of an item.
pub proof fn lemma_validation_sound(schema: SchemaView)
    requires
        validate_spec(schema) is None,
    ensures
        forall|i: int, j: int|
            0 <= i < j < schema.items.len() ==> schema.items[i].name() != schema.items[j].name(),
        forall|k: int|
            0 <= k < schema.items.len() ==> match #[trigger] schema.items[k] {
                SchemaItemView::Message(m) => {
                    &&& forall|i: int, j: int|
                        0 <= i < j < m.fields.len() ==> m.fields[i].name != m.fields[j].name
                    &&& forall|i: int|
                        0 <= i < m.fields.len() ==> type_resolves(
                            (#[trigger] m.fields[i]).field_type,
                            item_names(schema.items),
                        )
                },
                SchemaItemView::Enum(e) => {
                    &&& forall|i: int, j: int|
                        0 <= i < j < e.variants.len() ==> e.variants[i].name
                            != e.variants[j].name
                    &&& forall|i: int, j: int|
                        0 <= i < j < e.variants.len() ==> variant_values(e.variants)[i]
                            != variant_values(e.variants)[j]
                },
            },
{
    lemma_validation_exact(schema);
    let names = item_names(schema.items);
    assert forall|i: int, j: int| 0 <= i < j < schema.items.len() implies schema.items[i].name()
        != schema.items[j].name() by {
        assert(names[i] != names[j]);
    }
    assert forall|k: int| 0 <= k < schema.items.len() implies match #[trigger] schema.items[k] {
        SchemaItemView::Message(m) => {
            &&& forall|i: int, j: int|
                0 <= i < j < m.fields.len() ==> m.fields[i].name != m.fields[j].name
            &&& forall|i: int|
                0 <= i < m.fields.len() ==> type_resolves(
                    (#[trigger] m.fields[i]).field_type,
                    item_names(schema.items),
                )
        },
        SchemaItemView::Enum(e) => {
            &&& forall|i: int, j: int|
                0 <= i < j < e.variants.len() ==> e.variants[i].name != e.variants[j].name
            &&& forall|i: int, j: int|
                0 <= i < j < e.variants.len() ==> variant_values(e.variants)[i]
                    != variant_values(e.variants)[j]
        },
    } by {
        match schema.items[k] {
            SchemaItemView::Message(m) => {
                assert forall|i: int, j: int| 0 <= i < j < m.fields.len() implies m.fields[i].name
                    != m.fields[j].name by {
                    assert(field_names(m.fields)[i] != field_names(m.fields)[j]);
                }
            },
            SchemaItemView::Enum(e) => {
                assert forall|i: int, j: int| 0 <= i < j < e.variants.len() implies e.variants[i].name
                    != e.variants[j].name by {
                    assert(variant_names(e.variants)[i] != variant_names(e.variants)[j]);
                }
            },
        }
    }
}

/// Completeness of validation for its rules: a schema in which an item
/// name repeats, a field or an enum has a reserved name, a field names a
/// type that is not declared, or a vector holds vectors, is rejected.
pub proof fn lemma_validation_complete(schema: SchemaView, k: int, i: int)
    requires
        0 <= k < schema.items.len(),
        ({
            ||| exists|j: int|
                0 <= j < schema.items.len() && j != k && schema.items[j].name()
                    == schema.items[k].name()
            ||| schema.items[k] matches SchemaItemView::Enum(e) && is_reserved_enum_name(e.name)
            ||| schema.items[k] matches SchemaItemView::Message(m) && 0 <= i < m.fields.len() && {
                ||| is_reserved_field_name(m.fields[i].name)
                ||| !type_resolves(m.fields[i].field_type, item_names(schema.items))
                ||| has_nested_vector(m.fields[i].field_type)
                ||| exists|j: int|
                    0 <= j < m.fields.len() && j != i && m.fields[j].name == m.fields[i].name
            }
        }),
    ensures
        validate_spec(schema) is Some,
{
    lemma_validation_exact(schema);
    let names = item_names(schema.items);
    if schema_well_formed(schema) {
        if exists|j: int|
            0 <= j < schema.items.len() && j != k && schema.items[j].name()
                == schema.items[k].name() {
            let j = choose|j: int|
                0 <= j < schema.items.len() && j != k && schema.items[j].name()
                    == schema.items[k].name();
            assert(names[j] == names[k]);
        }
        match schema.items[k] {
            SchemaItemView::Message(m) => {
                if 0 <= i < m.fields.len() {
                    if exists|j: int|
                        0 <= j < m.fields.len() && j != i && m.fields[j].name == m.fields[i].name {
                        let j = choose|j: int|
                            0 <= j < m.fields.len() && j != i && m.fields[j].name
                                == m.fields[i].name;
                        assert(field_names(m.fields)[j] == field_names(m.fields)[i]);
                    }
                }
            },
            SchemaItemView::Enum(e) => {},
        }
    }
}

/// `r` is the outcome of a check whose first issue is `issue`: success
/// where there is none, else a `Validation` error with its message.
pub open spec fn reports(r: Result<(), CompilerError>, issue: Option<ValidationIssue>) -> bool {
    match issue {
        None => r is Ok,
        Some(i) => r matches Err(CompilerError::Validation(message)) && message@
            == issue_message(i),
    }
}

/// The texts of a list of names.
pub open spec fn name_views(names: Seq<&str>) -> Seq<Seq<char>> {
    names.map_values(|s: &str| s@)
}

fn is_reserved_field(name: &str) -> (b: bool)
    ensures
        b == is_reserved_field_name(name@),
{
    str_eq(name, "type") || str_eq(name, "id") || str_eq(name, "data") || str_eq(name, "buffer")
}

fn is_reserved_enum(name: &str) -> (b: bool)
    ensures
        b == is_reserved_enum_name(name@),
{
    str_eq(name, "Result") || str_eq(name, "Option") || str_eq(name, "Status")
}

/// The first position of `name` in `names`, or their number.
fn find_name(names: &Vec<&str>, name: &str) -> (at: usize)
    ensures
        at == first_index(name_views(names@), name@, 0),
        at <= names@.len(),
{
    let mut i: usize = 0;
    while i < names.len()
        invariant
            i <= names@.len(),
            first_index(name_views(names@), name@, 0) == first_index(
                name_views(names@),
                name@,
                i as int,
            ),
        decreases names@.len() - i,
    {
        if str_eq(names[i], name) {
            return i;
        }
        i += 1;
    }
    i
}

/// The first position in `names` whose name occurs before it, or their
/// number.
fn first_repeated_name(names: &Vec<&str>) -> (at: usize)
    ensures
        at == first_repeat(name_views(names@), 0),
        at <= names@.len(),
{
    let mut j: usize = 0;
    while j < names.len()
        invariant
            j <= names@.len(),
            first_repeat(name_views(names@), 0) == first_repeat(name_views(names@), j as int),
        decreases names@.len() - j,
    {
        if find_name(names, names[j]) < j {
            return j;
        }
        j += 1;
    }
    j
}

/// The first position in `values` whose value occurs before it, or their
/// number.
fn first_repeated_value(values: &Vec<i64>) -> (at: usize)
    ensures
        at == first_repeat(values@, 0),
        at <= values@.len(),
{
    let mut j: usize = 0;
    while j < values.len()
        invariant
            j <= values@.len(),
            first_repeat(values@, 0) == first_repeat(values@, j as int),
        decreases values@.len() - j,
    {
        let mut i: usize = 0;
        while i < j && values[i] != values[j]
            invariant
                i <= j < values@.len(),
                first_index(values@, values@[j as int], 0) == first_index(
                    values@,
                    values@[j as int],
                    i as int,
                ),
            decreases j - i,
        {
            i += 1;
        }
        if i < j {
            return j;
        }
        j += 1;
    }
    j
}

/// The first position in `names` that holds a reserved field name, or
/// their number.
fn first_reserved_name(names: &Vec<&str>) -> (at: usize)
    ensures
        at == first_reserved(name_views(names@), 0),
        at <= names@.len(),
{
    let mut i: usize = 0;
    while i < names.len()
        invariant
            i <= names@.len(),
            first_reserved(name_views(names@), 0) == first_reserved(name_views(names@), i as int),
        decreases names@.len() - i,
    {
        if is_reserved_field(names[i]) {
            return i;
        }
        i += 1;
    }
    i
}

fn item_name_list<'a>(schema: &'a Schema) -> (names: Vec<&'a str>)
    ensures
        name_views(names@) == item_names(schema@.items),
{
    let mut names: Vec<&str> = Vec::new();
    let mut i: usize = 0;
    while i < schema.items.len()
        invariant
            i <= schema.items@.len(),
            names@.len() == i,
            forall|k: int| 0 <= k < i ==> (#[trigger] names@[k])@ == schema@.items[k].name(),
        decreases schema.items@.len() - i,
    {
        let name = match &schema.items[i] {
            SchemaItem::Message(m) => m.name.as_str(),
            SchemaItem::Enum(e) => e.name.as_str(),
        };
        names.push(name);
        i += 1;
    }
    names
}

fn field_name_list<'a>(message: &'a Message) -> (names: Vec<&'a str>)
    ensures
        name_views(names@) == field_names(message@.fields),
{
    let mut names: Vec<&str> = Vec::new();
    let mut i: usize = 0;
    while i < message.fields.len()
        invariant
            i <= message.fields@.len(),
            names@.len() == i,
            forall|k: int| 0 <= k < i ==> (#[trigger] names@[k])@ == message@.fields[k].name,
        decreases message.fields@.len() - i,
    {
        names.push(message.fields[i].name.as_str());
        i += 1;
    }
    names
}

fn variant_name_list<'a>(definition: &'a Enum) -> (names: Vec<&'a str>)
    ensures
        name_views(names@) == variant_names(definition@.variants),
{
    let mut names: Vec<&str> = Vec::new();
    let mut i: usize = 0;
    while i < definition.variants.len()
        invariant
            i <= definition.variants@.len(),
            names@.len() == i,
            forall|k: int| 0 <= k < i ==> (#[trigger] names@[k])@ == definition@.variants[k].name,
        decreases definition.variants@.len() - i,
    {
        names.push(definition.variants[i].name.as_str());
        i += 1;
    }
    names
}

fn variant_value_list(definition: &Enum) -> (values: Vec<i64>)
    ensures
        values@ == variant_values(definition@.variants),
{
    let mut values: Vec<i64> = Vec::new();
    let mut i: usize = 0;
    while i < definition.variants.len()
        invariant
            i <= definition.variants@.len(),
            values@ == variant_values(definition@.variants).take(i as int),
        decreases definition.variants@.len() - i,
    {
        let value = match definition.variants[i].value {
            Some(v) => v,
            None => if i as u64 <= 0x7fff_ffff_ffff_ffff {
                i as i64
            } else {
                i64::MAX
            },
        };
        values.push(value);
        i += 1;
    }
    values
}

/// The kinds of types that a schema can declare.
#[derive(Debug, Clone, Copy, PartialEq, Eq, Structural)]
pub enum TypeKind {
    Message,
    Enum,
}

/// A declared type: its name and its kind.
struct TypeEntry {
    name: String,
    kind: TypeKind,
}

/// The state of a validation: the types that the schema declares.
struct SchemaValidator {
    type_names: Vec<TypeEntry>,
}

impl SchemaValidator {
    /// The names of the declared types, in order of declaration.
    spec fn names(&self) -> Seq<Seq<char>> {
        self.type_names@.map_values(|e: TypeEntry| e.name@)
    }

    fn new() -> (v: SchemaValidator)
        ensures
            v.names() == Seq::<Seq<char>>::empty(),
    {
        let v = SchemaValidator { type_names: Vec::new() };
        v
    }

    /// Whether a type named `name` is declared.
    fn declares(&self, name: &str) -> (b: bool)
        ensures
            b == self.names().contains(name@),
    {
        let mut i: usize = 0;
        while i < self.type_names.len()
            invariant
                i <= self.type_names@.len(),
                first_index(self.names(), name@, 0) == first_index(self.names(), name@, i as int),
            decreases self.type_names@.len() - i,
        {
            if str_eq(self.type_names[i].name.as_str(), name) {
                proof {
                    lemma_first_index_contains(self.names(), name@);
                }
                return true;
            }
            i += 1;
        }
        proof {
            lemma_first_index_contains(self.names(), name@);
        }
        false
    }

    /// First pass: records the name and kind of every item, unless a name
    /// repeats.
    fn collect_type_names(&mut self, schema: &Schema) -> (r: Result<(), CompilerError>)
        requires
            old(self).names() == Seq::<Seq<char>>::empty(),
        ensures
            ({
                let names = item_names(schema@.items);
                let repeated = first_repeat(names, 0);
                if repeated < names.len() {
                    reports(r, Some(ValidationIssue::DuplicateTypeName(names[repeated])))
                } else {
                    r is Ok && final(self).names() == names
                }
            }),
    {
        let names = item_name_list(schema);
        let repeated = first_repeated_name(&names);
        if repeated < names.len() {
            return Err(
                CompilerError::Validation(join3("Duplicate type name '", names[repeated], "' found")),
            );
        }
        let mut i: usize = 0;
        assert(self.type_names@.len() == self.names().len());
        while i < schema.items.len()
            invariant
                i <= schema.items@.len(),
                self.type_names@.len() == i,
                forall|k: int|
                    0 <= k < i ==> (#[trigger] self.type_names@[k]).name@
                        == schema@.items[k].name(),
            decreases schema.items@.len() - i,
        {
            let entry = match &schema.items[i] {
                SchemaItem::Message(m) => TypeEntry { name: m.name.clone(), kind: TypeKind::Message },
                SchemaItem::Enum(e) => TypeEntry { name: e.name.clone(), kind: TypeKind::Enum },
            };
            self.type_names.push(entry);
            i += 1;
        }
        Ok(())
    }

    /// Checks one field type: every name in it must be declared, and no
    /// vector may hold vectors.
    fn validate_field_type(&self, field_type: &FieldType) -> (r: Result<(), CompilerError>)
        ensures
            reports(r, type_issue(field_type@, self.names())),
        decreases field_type,
    {
        match field_type {
            FieldType::Scalar(_) => Ok(()),
            FieldType::UserDefined(name) => {
                if !self.declares(name.as_str()) {
                    return Err(
                        CompilerError::Validation(
                            join3("Unknown type '", name.as_str(), "' used in field"),
                        ),
                    );
                }
                Ok(())
            },
            FieldType::Vector(inner) => {
                match self.validate_field_type(inner) {
                    Ok(()) => {},
                    Err(e) => {
                        return Err(e);
                    },
                }
                match **inner {
                    FieldType::Vector(_) => Err(
                        CompilerError::Validation("Nested vectors are not allowed".to_owned()),
                    ),
                    _ => Ok(()),
                }
            },
        }
    }

    /// Checks the types of the fields of a message, in order.
    fn validate_field_types(&self, message: &Message) -> (r: Result<(), CompilerError>)
        ensures
            reports(r, first_type_issue(message@.fields, self.names(), 0)),
    {
        let mut i: usize = 0;
        while i < message.fields.len()
            invariant
                i <= message.fields@.len(),
                first_type_issue(message@.fields, self.names(), 0) == first_type_issue(
                    message@.fields,
                    self.names(),
                    i as int,
                ),
            decreases message.fields@.len() - i,
        {
            match self.validate_field_type(&message.fields[i].field_type) {
                Ok(()) => {},
                Err(e) => {
                    return Err(e);
                },
            }
            i += 1;
        }
        Ok(())
    }

    /// Checks a message: reserved field names, then field types, then
    /// repeated field names.
    fn validate_message(&self, message: &Message) -> (r: Result<(), CompilerError>)
        ensures
            reports(r, message_issue(message@, self.names())),
    {
        let names = field_name_list(message);
        let reserved = first_reserved_name(&names);
        if reserved < names.len() {
            return Err(
                CompilerError::Validation(
                    join5(
                        "Field name '",
                        names[reserved],
                        "' is reserved in message '",
                        message.name.as_str(),
                        "'",
                    ),
                ),
            );
        }
        match self.validate_field_types(message) {
            Ok(()) => {},
            Err(e) => {
                return Err(e);
            },
        }
        let repeated = first_repeated_name(&names);
        if repeated < names.len() {
            return Err(
                CompilerError::Validation(
                    join5(
                        "Duplicate field name '",
                        names[repeated],
                        "' in message '",
                        message.name.as_str(),
                        "'",
                    ),
                ),
            );
        }
        Ok(())
    }

    /// Checks an enum: repeated variant names, then repeated values, then
    /// a reserved name.
    fn validate_enum(&self, definition: &Enum) -> (r: Result<(), CompilerError>)
        ensures
            reports(r, enum_issue(definition@)),
    {
        let names = variant_name_list(definition);
        let repeated_name = first_repeated_name(&names);
        if repeated_name < names.len() {
            return Err(
                CompilerError::Validation(
                    join5(
                        "Duplicate variant name '",
                        names[repeated_name],
                        "' in enum '",
                        definition.name.as_str(),
                        "'",
                    ),
                ),
            );
        }
        let values = variant_value_list(definition);
        let repeated_value = first_repeated_value(&values);
        if repeated_value < values.len() {
            let number = i64_to_string(values[repeated_value]);
            return Err(
                CompilerError::Validation(
                    join5(
                        "Duplicate enum value ",
                        number.as_str(),
                        " in enum '",
                        definition.name.as_str(),
                        "'",
                    ),
                ),
            );
        }
        if is_reserved_enum(definition.name.as_str()) {
            return Err(
                CompilerError::Validation(
                    join3("Enum name '", definition.name.as_str(), "' is reserved"),
                ),
            );
        }
        Ok(())
    }

    /// Second pass: checks the items in order.
    fn validate_items(&self, schema: &Schema) -> (r: Result<(), CompilerError>)
        ensures
            reports(r, first_item_issue(schema@.items, self.names(), 0)),
    {
        let mut i: usize = 0;
        while i < schema.items.len()
            invariant
                i <= schema.items@.len(),
                first_item_issue(schema@.items, self.names(), 0) == first_item_issue(
                    schema@.items,
                    self.names(),
                    i as int,
                ),
            decreases schema.items@.len() - i,
        {
            let checked = match &schema.items[i] {
                SchemaItem::Message(m) => self.validate_message(m),
                SchemaItem::Enum(e) => self.validate_enum(e),
            };
            match checked {
                Ok(()) => {},
                Err(e) => {
                    return Err(e);
                },
            }
            i += 1;
        }
        Ok(())
    }

    /// Validates a schema in two passes.
    fn validate(&mut self, schema: &Schema) -> (r: Result<(), CompilerError>)
        requires
            old(self).names() == Seq::<Seq<char>>::empty(),
        ensures
            reports(r, validate_spec(schema@)),
    {
        match self.collect_type_names(schema) {
            Ok(()) => {},
            Err(e) => {
                return Err(e);
            },
        }
        self.validate_items(schema)
    }
}

/// Validates a schema.
///
/// Succeeds exactly on the schemas that break no rule
/// ([`schema_well_formed`]); otherwise the error is a `Validation` error
/// whose message names the first rule broken and the symbol that breaks it.
pub fn validate(schema: &Schema) -> (r: Result<(), CompilerError>)
    ensures
        reports(r, validate_spec(schema@)),
        r is Ok <==> schema_well_formed(schema@),
{
    proof {
        lemma_validation_exact(schema@);
    }
    let mut validator = SchemaValidator::new();
    validator.validate(schema)
}

/// The first name in `t` that is not one of `names`.
pub open spec fn unknown_type(t: FieldTypeView, names: Seq<Seq<char>>) -> Option<Seq<char>>
    decreases t,
{
    match t {
        FieldTypeView::Scalar(_) => None,
        FieldTypeView::UserDefined(name) => if names.contains(name) {
            None
        } else {
            Some(name)
        },
        FieldTypeView::Vector(inner) => unknown_type(*inner, names),
    }
}

/// The unknown type name of the first field at or after `from` that has
/// one.
pub open spec fn first_unknown_in_fields(
    fields: Seq<FieldView>,
    names: Seq<Seq<char>>,
    from: int,
) -> Option<Seq<char>>
    decreases fields.len() - from,
{
    if from < 0 || from >= fields.len() {
        None
    } else {
        match unknown_type(fields[from].field_type, names) {
            Some(name) => Some(name),
            None => first_unknown_in_fields(fields, names, from + 1),
        }
    }
}

/// The unknown type name of the first message at or after `from` that has
/// one.
pub open spec fn first_unknown_in_items(
    items: Seq<SchemaItemView>,
    names: Seq<Seq<char>>,
    from: int,
) -> Option<Seq<char>>
    decreases items.len() - from,
{
    if from < 0 || from >= items.len() {
        None
    } else {
        let here = match items[from] {
            SchemaItemView::Message(m) => first_unknown_in_fields(m.fields, names, 0),
            SchemaItemView::Enum(_) => None,
        };
        match here {
            Some(name) => Some(name),
            None => first_unknown_in_items(items, names, from + 1),
        }
    }
}

/// The message of the basic check of a schema, or `None` where it passes:
/// a repeated item name first, then the first field type, message by
/// message, that names no item.
pub open spec fn validate_basic_spec(schema: SchemaView) -> Option<Seq<char>> {
    let names = item_names(schema.items);
    let repeated = first_repeat(names, 0);
    if repeated < names.len() {
        Some("Duplicate name '"@ + names[repeated] + "' found"@)
    } else {
        match first_unknown_in_items(schema.items, names, 0) {
            Some(name) => Some("Unknown type '"@ + name + "'"@),
            None => None,
        }
    }
}

/// `r` is the outcome of a basic check whose unknown name is `unknown`.
pub open spec fn reports_unknown(r: Result<(), String>, unknown: Option<Seq<char>>) -> bool {
    match unknown {
        None => r is Ok,
        Some(name) => r matches Err(message) && message@ == "Unknown type '"@ + name + "'"@,
    }
}

impl Schema {
    /// Whether an item named `name` is declared.
    fn declares(&self, name: &str) -> (b: bool)
        ensures
            b == item_names(self@.items).contains(name@),
    {
        let names = item_name_list(self);
        proof {
            lemma_first_index_contains(item_names(self@.items), name@);
        }
        find_name(&names, name) < names.len()
    }

    /// Checks that every name in a field type is the name of an item.
    pub fn validate_field_type(&self, field_type: &FieldType) -> (r: Result<(), String>)
        ensures
            reports_unknown(r, unknown_type(field_type@, item_names(self@.items))),
        decreases field_type,
    {
        match field_type {
            FieldType::Scalar(_) => Ok(()),
            FieldType::UserDefined(name) => {
                if self.declares(name.as_str()) {
                    Ok(())
                } else {
                    Err(join3("Unknown type '", name.as_str(), "'"))
                }
            },
            FieldType::Vector(inner) => self.validate_field_type(inner),
        }
    }

    fn validate_message_types(&self, message: &Message) -> (r: Result<(), String>)
        ensures
            reports_unknown(
                r,
                first_unknown_in_fields(message@.fields, item_names(self@.items), 0),
            ),
    {
        let mut i: usize = 0;
        while i < message.fields.len()
            invariant
                i <= message.fields@.len(),
                first_unknown_in_fields(message@.fields, item_names(self@.items), 0)
                    == first_unknown_in_fields(
                    message@.fields,
                    item_names(self@.items),
                    i as int,
                ),
            decreases message.fields@.len() - i,
        {
            match self.validate_field_type(&message.fields[i].field_type) {
                Ok(()) => {},
                Err(e) => {
                    return Err(e);
                },
            }
            i += 1;
        }
        Ok(())
    }

    /// Checks the schema for basic consistency: no item name repeats, and
    /// every field type of every message names an item.
    pub fn validate_basic(&self) -> (r: Result<(), String>)
        ensures
            match validate_basic_spec(self@) {
                None => r is Ok,
                Some(text) => r matches Err(message) && message@ == text,
            },
    {
        let names = item_name_list(self);
        let repeated = first_repeated_name(&names);
        if repeated < names.len() {
            return Err(join3("Duplicate name '", names[repeated], "' found"));
        }
        let mut i: usize = 0;
        while i < self.items.len()
            invariant
                i <= self.items@.len(),
                first_repeat(item_names(self@.items), 0) >= item_names(self@.items).len(),
                first_unknown_in_items(self@.items, item_names(self@.items), 0)
                    == first_unknown_in_items(self@.items, item_names(self@.items), i as int),
            decreases self.items@.len() - i,
        {
            match &self.items[i] {
                SchemaItem::Message(m) => {
                    match self.validate_message_types(m) {
                        Ok(()) => {},
                        Err(e) => {
                            return Err(e);
                        },
                    }
                },
                SchemaItem::Enum(_) => {},
            }
            i += 1;
        }
        Ok(())
    }
}

/// Whether values of a type can be read in place.
pub open spec fn zero_copy_compatible(t: FieldTypeView) -> bool
    decreases t,
{
    match t {
        FieldTypeView::Scalar(_) => true,
        FieldTypeView::UserDefined(_) => true,
        FieldTypeView::Vector(inner) => zero_copy_compatible(*inner),
    }
}

/// The number of bytes of a field that is known from its type: the size
/// of a scalar, and for a vector the count and one element; unknown for a
/// user-defined type.
pub open spec fn max_field_size_spec(t: FieldTypeView) -> Option<nat>
    decreases t,
{
    match t {
        FieldTypeView::Scalar(s) => Some(crate::ast::scalar_size(s)),
        FieldTypeView::UserDefined(_) => None,
        FieldTypeView::Vector(inner) => match max_field_size_spec(*inner) {
            Some(n) => Some(4 + n),
            None => None,
        },
    }
}

/// Further checks on field types.
pub struct ValidationUtils;

impl ValidationUtils {
    /// Whether values of the type can be read in place.
    pub fn is_zero_copy_compatible(field_type: &FieldType) -> (b: bool)
        ensures
            b == zero_copy_compatible(field_type@),
        decreases field_type,
    {
        match field_type {
            FieldType::Scalar(_) => true,
            FieldType::UserDefined(_) => true,
            FieldType::Vector(inner) => Self::is_zero_copy_compatible(inner),
        }
    }

    /// The size of a field as far as its type tells it; `None` for a
    /// user-defined type, and where the size does not fit in `usize`.
    pub fn max_field_size(field_type: &FieldType) -> (size: Option<usize>)
        ensures
            size == match max_field_size_spec(field_type@) {
                Some(n) => if n <= usize::MAX {
                    Some(n as usize)
                } else {
                    None
                },
                None => None,
            },
        decreases field_type,
    {
        match field_type {
            FieldType::Scalar(scalar) => Some(scalar.size()),
            FieldType::UserDefined(_) => None,
            FieldType::Vector(inner) => match Self::max_field_size(inner) {
                Some(n) => n.checked_add(4),
                None => None,
            },
        }
    }
}

} // verus!
