//! Intermediate representation of a schema and the lowering that makes it.
//!
//! Lowering is a total function of the syntax tree: [`lower_spec`] defines
//! it on views, and [`lower_ast`] computes it.

use vstd::prelude::*;
use vstd::string::*;
use crate::ast::{
    enums_of, messages_of, rust_type_of, scalar_size, type_id_of, DefaultValue, DefaultValueView,
    Enum, EnumVariantView, EnumView, Field, FieldType, FieldTypeView, FieldView, Message,
    MessageView, ScalarType, Schema, SchemaItem, SchemaItemView, SchemaView,
};
use crate::search::{first_index, lemma_first_index_contains};
use crate::text::{
    ascii_lower, ascii_upper, chars_of, decimal, i64_to_string, is_ascii_upper, join3,
    lemma_text_precedes_total, lemma_text_precedes_transitive, push_decimal, signed_decimal,
    str_eq, str_precedes, string_from_chars, text_precedes, to_ascii_lower, to_ascii_upper,
};
use crate::validator::{name_views, positional_value};

verus! {

/// A lowered schema.
#[derive(Debug, Clone)]
pub struct IrSchema {
    pub messages: Vec<IrMessage>,
    pub enums: Vec<IrEnum>,
}

/// A lowered message.
#[derive(Debug, Clone)]
pub struct IrMessage {
    pub name: String,
    pub rust_name: String,
    pub fields: Vec<IrField>,
    pub reader_name: String,
    pub builder_name: String,
}

/// A lowered field.
#[derive(Debug, Clone)]
pub struct IrField {
    pub name: String,
    pub rust_name: String,
    pub field_type: IrFieldType,
    /// The index of the field on the wire: its position in the message.
    pub index: u16,
    pub offset_constant: String,
    pub optional: bool,
    /// The default value as a literal of the target language.
    pub default_value: Option<String>,
}

/// A lowered field type.
#[derive(Debug)]
pub enum IrFieldType {
    Scalar { scalar_type: ScalarType, rust_type: String, primitive_id: u8 },
    UserDefined { user_type: String, rust_type: String, is_message: bool },
    Vector { element_type: Box<IrFieldType>, rust_type: String, reader_type: String },
}

/// A lowered enum.
#[derive(Debug, Clone)]
pub struct IrEnum {
    pub name: String,
    pub rust_name: String,
    pub variants: Vec<IrEnumVariant>,
}

/// A lowered enum variant.
#[derive(Debug, Clone)]
pub struct IrEnumVariant {
    pub name: String,
    pub rust_name: String,
    pub value: i64,
}

/// The value of an [`IrSchema`].
pub struct IrSchemaView {
    pub messages: Seq<IrMessageView>,
    pub enums: Seq<IrEnumView>,
}

/// The value of an [`IrMessage`].
pub struct IrMessageView {
    pub name: Seq<char>,
    pub rust_name: Seq<char>,
    pub fields: Seq<IrFieldView>,
    pub reader_name: Seq<char>,
    pub builder_name: Seq<char>,
}

/// The value of an [`IrField`].
pub struct IrFieldView {
    pub name: Seq<char>,
    pub rust_name: Seq<char>,
    pub field_type: IrFieldTypeView,
    pub index: u16,
    pub offset_constant: Seq<char>,
    pub optional: bool,
    pub default_value: Option<Seq<char>>,
}

/// The value of an [`IrFieldType`].
pub enum IrFieldTypeView {
    Scalar { scalar_type: ScalarType, rust_type: Seq<char>, primitive_id: u8 },
    UserDefined { user_type: Seq<char>, rust_type: Seq<char>, is_message: bool },
    Vector { element_type: Box<IrFieldTypeView>, rust_type: Seq<char>, reader_type: Seq<char> },
}

/// The value of an [`IrEnum`].
pub struct IrEnumView {
    pub name: Seq<char>,
    pub rust_name: Seq<char>,
    pub variants: Seq<IrEnumVariantView>,
}

/// The value of an [`IrEnumVariant`].
pub struct IrEnumVariantView {
    pub name: Seq<char>,
    pub rust_name: Seq<char>,
    pub value: i64,
}

/// The value of a lowered field type.
pub open spec fn ir_field_type_view(t: IrFieldType) -> IrFieldTypeView
    decreases t,
{
    match t {
        IrFieldType::Scalar { scalar_type, rust_type, primitive_id } => IrFieldTypeView::Scalar {
            scalar_type,
            rust_type: rust_type@,
            primitive_id,
        },
        IrFieldType::UserDefined { user_type, rust_type, is_message } =>
            IrFieldTypeView::UserDefined {
                user_type: user_type@,
                rust_type: rust_type@,
                is_message,
            },
        IrFieldType::Vector { element_type, rust_type, reader_type } => IrFieldTypeView::Vector {
            element_type: Box::new(ir_field_type_view(*element_type)),
            rust_type: rust_type@,
            reader_type: reader_type@,
        },
    }
}

impl Clone for IrFieldType {
    fn clone(&self) -> (copy: IrFieldType)
        ensures
            copy == *self,
        decreases self,
    {
        match self {
            IrFieldType::Scalar { scalar_type, rust_type, primitive_id } => IrFieldType::Scalar {
                scalar_type: *scalar_type,
                rust_type: rust_type.clone(),
                primitive_id: *primitive_id,
            },
            IrFieldType::UserDefined { user_type, rust_type, is_message } =>
                IrFieldType::UserDefined {
                    user_type: user_type.clone(),
                    rust_type: rust_type.clone(),
                    is_message: *is_message,
                },
            IrFieldType::Vector { element_type, rust_type, reader_type } => IrFieldType::Vector {
                element_type: Box::new((**element_type).clone()),
                rust_type: rust_type.clone(),
                reader_type: reader_type.clone(),
            },
        }
    }
}

impl View for IrFieldType {
    type V = IrFieldTypeView;

    open spec fn view(&self) -> IrFieldTypeView {
        ir_field_type_view(*self)
    }
}

impl View for IrField {
    type V = IrFieldView;

    open spec fn view(&self) -> IrFieldView {
        IrFieldView {
            name: self.name@,
            rust_name: self.rust_name@,
            field_type: self.field_type@,
            index: self.index,
            offset_constant: self.offset_constant@,
            optional: self.optional,
            default_value: match self.default_value {
                Some(d) => Some(d@),
                None => None,
            },
        }
    }
}

impl View for IrMessage {
    type V = IrMessageView;

    open spec fn view(&self) -> IrMessageView {
        IrMessageView {
            name: self.name@,
            rust_name: self.rust_name@,
            fields: self.fields@.map_values(|f: IrField| f@),
            reader_name: self.reader_name@,
            builder_name: self.builder_name@,
        }
    }
}

impl View for IrEnumVariant {
    type V = IrEnumVariantView;

    open spec fn view(&self) -> IrEnumVariantView {
        IrEnumVariantView { name: self.name@, rust_name: self.rust_name@, value: self.value }
    }
}

impl View for IrEnum {
    type V = IrEnumView;

    open spec fn view(&self) -> IrEnumView {
        IrEnumView {
            name: self.name@,
            rust_name: self.rust_name@,
            variants: self.variants@.map_values(|v: IrEnumVariant| v@),
        }
    }
}

impl View for IrSchema {
    type V = IrSchemaView;

    open spec fn view(&self) -> IrSchemaView {
        IrSchemaView {
            messages: self.messages@.map_values(|m: IrMessage| m@),
            enums: self.enums@.map_values(|e: IrEnum| e@),
        }
    }
}

/// Whether a character outside ASCII has the Unicode property Uppercase,
/// as `char::is_uppercase` of the standard library tells it.
pub uninterp spec fn unicode_uppercase(c: char) -> bool;

/// `char::is_uppercase` of the standard library. Trusted: the result is
/// given the name [`unicode_uppercase`]; nothing more is claimed of it.
#[verifier::external_body]
fn char_is_uppercase(c: char) -> (b: bool)
    ensures
        b == unicode_uppercase(c),
{
    c.is_uppercase()
}

/// Whether `c` is an upper-case letter: `A` to `Z` within ASCII, and
/// outside ASCII what Unicode calls upper case.
pub open spec fn is_upper(c: char) -> bool {
    if c as u32 <= 0x7f {
        is_ascii_upper(c)
    } else {
        unicode_uppercase(c)
    }
}

fn is_upper_char(c: char) -> (b: bool)
    ensures
        b == is_upper(c),
{
    if c as u32 <= 0x7f {
        c >= 'A' && c <= 'Z'
    } else {
        char_is_uppercase(c)
    }
}

/// PascalCase of `s[i..]` appended to `acc`: underscores are dropped, and
/// the character after one, like the first character, is upper-cased where
/// it is an ASCII letter. `capitalize` tells whether the next character
/// starts a word.
pub open spec fn pascal_from(s: Seq<char>, i: int, capitalize: bool, acc: Seq<char>) -> Seq<char>
    decreases s.len() - i,
{
    if i < 0 || i >= s.len() {
        acc
    } else if s[i] == '_' {
        pascal_from(s, i + 1, true, acc)
    } else if capitalize {
        pascal_from(s, i + 1, false, acc.push(ascii_upper(s[i])))
    } else {
        pascal_from(s, i + 1, false, acc.push(s[i]))
    }
}

/// The PascalCase form of a name.
pub open spec fn pascal_case(s: Seq<char>) -> Seq<char> {
    pascal_from(s, 0, true, Seq::empty())
}

/// snake_case of `s[i..]` appended to `acc`, before a trailing underscore
/// is removed: an upper-case letter is lower-cased where it is an ASCII
/// letter, and gets an underscore in front unless it starts the name or
/// follows another upper-case letter.
pub open spec fn snake_from(s: Seq<char>, i: int, after_upper: bool, acc: Seq<char>) -> Seq<char>
    decreases s.len() - i,
{
    if i < 0 || i >= s.len() {
        acc
    } else if is_upper(s[i]) {
        let separated = if i > 0 && !after_upper { acc.push('_') } else { acc };
        snake_from(s, i + 1, true, separated.push(ascii_lower(s[i])))
    } else {
        snake_from(s, i + 1, false, acc.push(s[i]))
    }
}

/// The snake_case form of a name.
pub open spec fn snake_case(s: Seq<char>) -> Seq<char> {
    let converted = snake_from(s, 0, false, Seq::empty());
    if converted.len() > 0 && converted.last() == '_' {
        converted.drop_last()
    } else {
        converted
    }
}

/// Converts a name to PascalCase.
pub fn to_pascal_case(input: &str) -> (out: String)
    ensures
        out@ == pascal_case(input@),
{
    let chars = chars_of(input);
    let mut result: Vec<char> = Vec::new();
    let mut capitalize_next = true;
    let mut i: usize = 0;
    while i < chars.len()
        invariant
            i <= chars@.len(),
            chars@ == input@,
            pascal_from(chars@, i as int, capitalize_next, result@) == pascal_case(input@),
        decreases chars@.len() - i,
    {
        let ch = chars[i];
        if ch == '_' {
            capitalize_next = true;
        } else if capitalize_next {
            result.push(to_ascii_upper(ch));
            capitalize_next = false;
        } else {
            result.push(ch);
        }
        i += 1;
    }
    let out = string_from_chars(result.as_slice(), 0, result.len());
    out
}

/// Converts a name to snake_case.
pub fn to_snake_case(input: &str) -> (out: String)
    ensures
        out@ == snake_case(input@),
{
    let chars = chars_of(input);
    let mut result: Vec<char> = Vec::new();
    let mut prev_char_was_upper = false;
    let mut i: usize = 0;
    while i < chars.len()
        invariant
            i <= chars@.len(),
            chars@ == input@,
            snake_from(chars@, i as int, prev_char_was_upper, result@) == snake_from(
                input@,
                0,
                false,
                Seq::empty(),
            ),
        decreases chars@.len() - i,
    {
        let ch = chars[i];
        if is_upper_char(ch) {
            if i > 0 && !prev_char_was_upper {
                result.push('_');
            }
            result.push(to_ascii_lower(ch));
            prev_char_was_upper = true;
        } else {
            result.push(ch);
            prev_char_was_upper = false;
        }
        i += 1;
    }
    let n = result.len();
    let end = if n > 0 && result[n - 1] == '_' { n - 1 } else { n };
    let out = string_from_chars(result.as_slice(), 0, end);
    out
}

/// The literal that stands for a default value: an integer in decimal, a
/// floating-point literal as written and with `.0` added where it has no
/// `.`, a boolean as `true` or `false`, a string between double quotes.
pub open spec fn default_literal(d: DefaultValueView) -> Seq<char> {
    match d {
        DefaultValueView::Integer(v) => signed_decimal(v as int),
        DefaultValueView::Float(text) => if text.contains('.') {
            text
        } else {
            text + ".0"@
        },
        DefaultValueView::Bool(b) => if b {
            "true"@
        } else {
            "false"@
        },
        DefaultValueView::String(text) => "\""@ + text + "\""@,
    }
}

/// The Rust type of a vector whose elements are of the lowered type
/// `element`.
pub open spec fn vector_rust_type(element: IrFieldTypeView) -> Seq<char> {
    match element {
        IrFieldTypeView::Scalar { rust_type, .. } => "VectorReader<'a, "@ + rust_type + ">"@,
        IrFieldTypeView::UserDefined { rust_type, is_message, .. } => if is_message {
            "VectorReader<'a, "@ + rust_type + "Reader<'a>>"@
        } else {
            "VectorReader<'a, "@ + rust_type + ">"@
        },
        IrFieldTypeView::Vector { rust_type, .. } => "VectorReader<'a, "@ + rust_type + ">"@,
    }
}

/// The lowered form of a field type. A user-defined type is a message
/// unless `enum_names` holds its name.
pub open spec fn lower_field_type_spec(t: FieldTypeView, enum_names: Seq<Seq<char>>) -> IrFieldTypeView
    decreases t,
{
    match t {
        FieldTypeView::Scalar(s) => IrFieldTypeView::Scalar {
            scalar_type: s,
            rust_type: rust_type_of(s),
            primitive_id: type_id_of(s),
        },
        FieldTypeView::UserDefined(name) => IrFieldTypeView::UserDefined {
            user_type: name,
            rust_type: pascal_case(name),
            is_message: !enum_names.contains(name),
        },
        FieldTypeView::Vector(inner) => {
            let element = lower_field_type_spec(*inner, enum_names);
            IrFieldTypeView::Vector {
                element_type: Box::new(element),
                rust_type: vector_rust_type(element),
                reader_type: "VectorReader<'a, _>"@,
            }
        },
    }
}

/// The lowered form of the field at position `i` of a message. The index
/// is the position; positions from 65536 on wrap around.
pub open spec fn lower_field_spec(f: FieldView, i: int, enum_names: Seq<Seq<char>>) -> IrFieldView {
    IrFieldView {
        name: f.name,
        rust_name: snake_case(f.name),
        field_type: lower_field_type_spec(f.field_type, enum_names),
        index: (i % 0x10000) as u16,
        offset_constant: "FIELD_"@ + decimal(i as nat) + "_OFFSET"@,
        optional: f.optional,
        default_value: match f.default_value {
            Some(d) => Some(default_literal(d)),
            None => None,
        },
    }
}

/// The lowered form of a message.
pub open spec fn lower_message_spec(m: MessageView, enum_names: Seq<Seq<char>>) -> IrMessageView {
    IrMessageView {
        name: m.name,
        rust_name: pascal_case(m.name),
        fields: Seq::new(m.fields.len(), |i: int| lower_field_spec(m.fields[i], i, enum_names)),
        reader_name: pascal_case(m.name) + "Reader"@,
        builder_name: pascal_case(m.name) + "Builder"@,
    }
}

/// The lowered form of the variant at position `i` of an enum.
pub open spec fn lower_variant_spec(v: EnumVariantView, i: int) -> IrEnumVariantView {
    IrEnumVariantView {
        name: v.name,
        rust_name: pascal_case(v.name),
        value: match v.value {
            Some(x) => x,
            None => positional_value(i),
        },
    }
}

/// The lowered form of an enum.
pub open spec fn lower_enum_spec(e: EnumView) -> IrEnumView {
    IrEnumView {
        name: e.name,
        rust_name: pascal_case(e.name),
        variants: Seq::new(e.variants.len(), |i: int| lower_variant_spec(e.variants[i], i)),
    }
}

/// The names of lowered enums, in order.
pub open spec fn ir_enum_names(enums: Seq<IrEnumView>) -> Seq<Seq<char>> {
    enums.map_values(|e: IrEnumView| e.name)
}

/// The lowered form of a schema: its enums in order, then its messages in
/// order, each field type resolved against the names of the enums.
pub open spec fn lower_spec(schema: SchemaView) -> IrSchemaView {
    let enums = enums_of(schema.items).map_values(|e: EnumView| lower_enum_spec(e));
    IrSchemaView {
        messages: messages_of(schema.items).map_values(
            |m: MessageView| lower_message_spec(m, ir_enum_names(enums)),
        ),
        enums,
    }
}

/// The views of a list of lowered enums.
pub open spec fn ir_enum_views(enums: Seq<IrEnum>) -> Seq<IrEnumView> {
    enums.map_values(|e: IrEnum| e@)
}

/// Lowers a default value to its literal.
pub fn lower_default_value(default: &DefaultValue, _field_type: &FieldType) -> (literal: String)
    ensures
        literal@ == default_literal(default@),
{
    match default {
        DefaultValue::Integer(val) => i64_to_string(*val),
        DefaultValue::Float(text) => {
            let chars = chars_of(text.as_str());
            let mut i: usize = 0;
            while i < chars.len() && chars[i] != '.'
                invariant
                    i <= chars@.len(),
                    forall|k: int| 0 <= k < i ==> chars@[k] != '.',
                decreases chars@.len() - i,
            {
                i += 1;
            }
            if i < chars.len() {
                text.clone()
            } else {
                let mut literal = text.clone();
                literal.append(".0");
                literal
            }
        },
        DefaultValue::Bool(val) => if *val {
            "true".to_owned()
        } else {
            "false".to_owned()
        },
        DefaultValue::String(val) => join3("\"", val.as_str(), "\""),
    }
}

/// Whether one of `enums` is named `name`.
fn is_enum_name(enums: &[IrEnum], name: &str) -> (b: bool)
    ensures
        b == ir_enum_names(ir_enum_views(enums@)).contains(name@),
{
    let ghost names = ir_enum_names(ir_enum_views(enums@));
    let mut i: usize = 0;
    while i < enums.len()
        invariant
            i <= enums@.len(),
            names == ir_enum_names(ir_enum_views(enums@)),
            first_index(names, name@, 0) == first_index(names, name@, i as int),
        decreases enums@.len() - i,
    {
        if str_eq(enums[i].name.as_str(), name) {
            proof {
                lemma_first_index_contains(names, name@);
            }
            return true;
        }
        i += 1;
    }
    proof {
        lemma_first_index_contains(names, name@);
    }
    false
}

/// Lowers a field type.
pub fn lower_field_type(field_type: &FieldType, enums: &[IrEnum]) -> (lowered: IrFieldType)
    ensures
        lowered@ == lower_field_type_spec(field_type@, ir_enum_names(ir_enum_views(enums@))),
    decreases field_type,
{
    match field_type {
        FieldType::Scalar(scalar_type) => IrFieldType::Scalar {
            scalar_type: *scalar_type,
            rust_type: scalar_type.rust_type().to_owned(),
            primitive_id: scalar_type.primitive_type_id(),
        },
        FieldType::UserDefined(user_type) => {
            let rust_type = to_pascal_case(user_type.as_str());
            let is_message = !is_enum_name(enums, user_type.as_str());
            IrFieldType::UserDefined { user_type: user_type.clone(), rust_type, is_message }
        },
        FieldType::Vector(inner) => {
            let element = lower_field_type(inner, enums);
            let rust_type = match &element {
                IrFieldType::Scalar { rust_type, .. } => join3(
                    "VectorReader<'a, ",
                    rust_type.as_str(),
                    ">",
                ),
                IrFieldType::UserDefined { rust_type, is_message, .. } => {
                    if *is_message {
                        join3("VectorReader<'a, ", rust_type.as_str(), "Reader<'a>>")
                    } else {
                        join3("VectorReader<'a, ", rust_type.as_str(), ">")
                    }
                },
                IrFieldType::Vector { rust_type, .. } => join3(
                    "VectorReader<'a, ",
                    rust_type.as_str(),
                    ">",
                ),
            };
            IrFieldType::Vector {
                element_type: Box::new(element),
                rust_type,
                reader_type: "VectorReader<'a, _>".to_owned(),
            }
        },
    }
}

/// Lowers the field at position `i` of a message.
fn lower_field(field: &Field, i: usize, enums: &[IrEnum]) -> (lowered: IrField)
    ensures
        lowered@ == lower_field_spec(field@, i as int, ir_enum_names(ir_enum_views(enums@))),
{
    let field_type = lower_field_type(&field.field_type, enums);
    let default_value = match &field.default_value {
        Some(d) => Some(lower_default_value(d, &field.field_type)),
        None => None,
    };
    let mut offset_constant = "FIELD_".to_owned();
    push_decimal(&mut offset_constant, i as u64);
    offset_constant.append("_OFFSET");
    IrField {
        name: field.name.clone(),
        rust_name: to_snake_case(field.name.as_str()),
        field_type,
        index: (i % 0x10000) as u16,
        offset_constant,
        optional: field.optional,
        default_value,
    }
}

/// Lowers a message.
pub fn lower_message(message: &Message, enums: &[IrEnum]) -> (lowered: IrMessage)
    ensures
        lowered@ == lower_message_spec(message@, ir_enum_names(ir_enum_views(enums@))),
{
    let rust_name = to_pascal_case(message.name.as_str());
    let mut reader_name = rust_name.clone();
    reader_name.append("Reader");
    let mut builder_name = rust_name.clone();
    builder_name.append("Builder");
    let ghost names = ir_enum_names(ir_enum_views(enums@));
    let mut fields: Vec<IrField> = Vec::new();
    let mut i: usize = 0;
    while i < message.fields.len()
        invariant
            i <= message.fields@.len(),
            fields@.len() == i,
            names == ir_enum_names(ir_enum_views(enums@)),
            forall|k: int|
                0 <= k < i ==> (#[trigger] fields@[k])@ == lower_field_spec(
                    message@.fields[k],
                    k,
                    names,
                ),
        decreases message.fields@.len() - i,
    {
        fields.push(lower_field(&message.fields[i], i, enums));
        i += 1;
    }
    let lowered = IrMessage { name: message.name.clone(), rust_name, fields, reader_name, builder_name };
    assert(lowered@.fields =~= lower_message_spec(message@, names).fields);
    lowered
}

/// Lowers an enum.
pub fn lower_enum(enum_def: &Enum) -> (lowered: IrEnum)
    ensures
        lowered@ == lower_enum_spec(enum_def@),
{
    let rust_name = to_pascal_case(enum_def.name.as_str());
    let mut variants: Vec<IrEnumVariant> = Vec::new();
    let mut i: usize = 0;
    while i < enum_def.variants.len()
        invariant
            i <= enum_def.variants@.len(),
            variants@.len() == i,
            forall|k: int|
                0 <= k < i ==> (#[trigger] variants@[k])@ == lower_variant_spec(
                    enum_def@.variants[k],
                    k,
                ),
        decreases enum_def.variants@.len() - i,
    {
        let variant = &enum_def.variants[i];
        let value = match variant.value {
            Some(v) => v,
            None => if i as u64 <= 0x7fff_ffff_ffff_ffff {
                i as i64
            } else {
                i64::MAX
            },
        };
        variants.push(
            IrEnumVariant {
                name: variant.name.clone(),
                rust_name: to_pascal_case(variant.name.as_str()),
                value,
            },
        );
        i += 1;
    }
    let lowered = IrEnum { name: enum_def.name.clone(), rust_name, variants };
    assert(lowered@.variants =~= lower_enum_spec(enum_def@).variants);
    lowered
}

/// Lowers a schema to its intermediate representation.
///
/// Lowering never fails. For a schema that validation accepts, vectors in
/// the result are one level deep and every user-defined type is known.
pub fn lower_ast(schema: &Schema) -> (ir: IrSchema)
    ensures
        ir@ == lower_spec(schema@),
{
    let mut enums: Vec<IrEnum> = Vec::new();
    let mut i: usize = 0;
    while i < schema.items.len()
        invariant
            i <= schema.items@.len(),
            ir_enum_views(enums@) == enums_of(schema@.items.take(i as int)).map_values(
                |e: EnumView| lower_enum_spec(e),
            ),
        decreases schema.items@.len() - i,
    {
        let ghost before = ir_enum_views(enums@);
        proof {
            assert(schema@.items.take(i + 1).drop_last() =~= schema@.items.take(i as int));
        }
        match &schema.items[i] {
            SchemaItem::Enum(e) => {
                let lowered = lower_enum(e);
                proof {
                    assert(ir_enum_views(enums@.push(lowered)) =~= before.push(lowered@));
                }
                enums.push(lowered);
            },
            SchemaItem::Message(_) => {},
        }
        i += 1;
    }
    assert(schema@.items.take(i as int) =~= schema@.items);
    let ghost names = ir_enum_names(ir_enum_views(enums@));
    let mut messages: Vec<IrMessage> = Vec::new();
    let mut j: usize = 0;
    while j < schema.items.len()
        invariant
            j <= schema.items@.len(),
            names == ir_enum_names(ir_enum_views(enums@)),
            messages@.map_values(|m: IrMessage| m@) == messages_of(
                schema@.items.take(j as int),
            ).map_values(|m: MessageView| lower_message_spec(m, names)),
        decreases schema.items@.len() - j,
    {
        let ghost before = messages@.map_values(|m: IrMessage| m@);
        proof {
            assert(schema@.items.take(j + 1).drop_last() =~= schema@.items.take(j as int));
        }
        match &schema.items[j] {
            SchemaItem::Message(m) => {
                let lowered = lower_message(m, enums.as_slice());
                proof {
                    assert(messages@.push(lowered).map_values(|m: IrMessage| m@) =~= before.push(
                        lowered@,
                    ));
                }
                messages.push(lowered);
            },
            SchemaItem::Enum(_) => {},
        }
        j += 1;
    }
    IrSchema { messages, enums }
}

/// The number of payload bytes of a field that its type tells: the size
/// of a scalar, the four bytes of the length prefix of a user-defined
/// type, and for a vector the count and one element.
pub open spec fn ir_field_size(t: IrFieldTypeView) -> nat
    decreases t,
{
    match t {
        IrFieldTypeView::Scalar { scalar_type, .. } => scalar_size(scalar_type),
        IrFieldTypeView::UserDefined { .. } => 4,
        IrFieldTypeView::Vector { element_type, .. } => 4 + ir_field_size(*element_type),
    }
}

/// Whether the Rust type of a field borrows from the buffer: strings,
/// bytes and messages do, and vectors of them.
pub open spec fn ir_requires_lifetime(t: IrFieldTypeView) -> bool
    decreases t,
{
    match t {
        IrFieldTypeView::Scalar { scalar_type, .. } => scalar_type == ScalarType::String
            || scalar_type == ScalarType::Bytes,
        IrFieldTypeView::UserDefined { is_message, .. } => is_message,
        IrFieldTypeView::Vector { element_type, .. } => ir_requires_lifetime(*element_type),
    }
}

/// The sizes of the first `n` fields, added up.
pub open spec fn sizes_before(fields: Seq<IrFieldView>, n: int) -> nat
    decreases n,
{
    if n <= 0 {
        0
    } else {
        sizes_before(fields, n - 1) + ir_field_size(fields[n - 1].field_type)
    }
}

/// The offset constant of each field with its value: the fields lie one
/// after the other behind the header and the field table.
pub open spec fn field_offsets(m: IrMessageView) -> Seq<(Seq<char>, int)> {
    Seq::new(
        m.fields.len(),
        |i: int|
            (m.fields[i].offset_constant, 2 + 5 * m.fields.len() as int + sizes_before(m.fields, i)),
    )
}

/// The views of a list of named offsets.
pub open spec fn offset_views(offsets: Seq<(String, usize)>) -> Seq<(Seq<char>, int)> {
    offsets.map_values(|o: (String, usize)| (o.0@, o.1 as int))
}

/// The user-defined type that a field type names, if it names one.
pub open spec fn dependency_of(t: IrFieldTypeView) -> Option<Seq<char>>
    decreases t,
{
    match t {
        IrFieldTypeView::Scalar { .. } => None,
        IrFieldTypeView::UserDefined { user_type, .. } => Some(user_type),
        IrFieldTypeView::Vector { element_type, .. } => dependency_of(*element_type),
    }
}

/// Whether one of the first `n` fields names the type `name`.
pub open spec fn is_dependency(fields: Seq<IrFieldView>, n: int, name: Seq<char>) -> bool {
    exists|i: int| 0 <= i < n && i < fields.len() && dependency_of(fields[i].field_type) == Some(name)
}

/// Each name comes before the next in the order of strings.
pub open spec fn strictly_ascending(names: Seq<Seq<char>>) -> bool {
    forall|i: int, j: int| 0 <= i < j < names.len() ==> text_precedes(names[i], names[j])
}

/// The user-defined type that a field type names.
fn field_dependency<'a>(field_type: &'a IrFieldType) -> (name: Option<&'a str>)
    ensures
        match dependency_of(field_type@) {
            Some(text) => name matches Some(s) && s@ == text,
            None => name is None,
        },
    decreases field_type,
{
    match field_type {
        IrFieldType::Scalar { .. } => None,
        IrFieldType::UserDefined { user_type, .. } => Some(user_type.as_str()),
        IrFieldType::Vector { element_type, .. } => field_dependency(element_type),
    }
}

/// Puts `name` in its place among `names`, unless it is there already.
fn insert_ascending<'a>(names: &mut Vec<&'a str>, name: &'a str)
    requires
        strictly_ascending(name_views(old(names)@)),
    ensures
        strictly_ascending(name_views(final(names)@)),
        forall|x: Seq<char>|
            name_views(final(names)@).contains(x) <==> (name_views(old(names)@).contains(x) || x
                == name@),
{
    let ghost before = name_views(names@);
    let mut at: usize = 0;
    while at < names.len() && str_precedes(names[at], name)
        invariant
            at <= names@.len(),
            names@ == old(names)@,
            before == name_views(names@),
            forall|j: int| 0 <= j < at ==> text_precedes(before[j], name@),
        decreases names@.len() - at,
    {
        at += 1;
    }
    if at < names.len() && str_eq(names[at], name) {
        assert(before[at as int] == name@);
        return ;
    }
    proof {
        if at < names@.len() {
            lemma_text_precedes_total(before[at as int], name@);
        }
        assert forall|j: int| at <= j < before.len() implies text_precedes(name@, before[j]) by {
            if j > at {
                lemma_text_precedes_transitive(name@, before[at as int], before[j]);
            }
        }
    }
    names.insert(at, name);
    proof {
        let after = name_views(names@);
        assert(after =~= before.insert(at as int, name@));
        assert forall|x: Seq<char>| after.contains(x) <==> (before.contains(x) || x == name@) by {
            if after.contains(x) {
                let k = choose|k: int| 0 <= k < after.len() && after[k] == x;
                if k < at {
                    assert(before[k] == x);
                } else if k > at {
                    assert(before[k - 1] == x);
                }
            }
            if before.contains(x) {
                let k = choose|k: int| 0 <= k < before.len() && before[k] == x;
                if k < at {
                    assert(after[k] == x);
                } else {
                    assert(after[k + 1] == x);
                }
            }
            if x == name@ {
                assert(after[at as int] == x);
            }
        }
    }
}

/// Computations on the intermediate representation.
pub struct IrUtils;

impl IrUtils {
    /// The user-defined types that the fields of a message name: each one
    /// once, in the order of strings.
    pub fn get_message_dependencies<'a>(message: &'a IrMessage, schema: &'a IrSchema) -> (deps: Vec<
        &'a str,
    >)
        ensures
            strictly_ascending(name_views(deps@)),
            forall|name: Seq<char>|
                name_views(deps@).contains(name) <==> is_dependency(
                    message@.fields,
                    message@.fields.len() as int,
                    name,
                ),
    {
        let mut dependencies: Vec<&'a str> = Vec::new();
        let mut i: usize = 0;
        while i < message.fields.len()
            invariant
                i <= message.fields@.len(),
                strictly_ascending(name_views(dependencies@)),
                forall|name: Seq<char>|
                    name_views(dependencies@).contains(name) <==> is_dependency(
                        message@.fields,
                        i as int,
                        name,
                    ),
            decreases message.fields@.len() - i,
        {
            let ghost before = name_views(dependencies@);
            Self::collect_field_dependencies(&message.fields[i].field_type, schema, &mut dependencies);
            i += 1;
            proof {
                let fields = message@.fields;
                let here = dependency_of(fields[i - 1].field_type);
                assert forall|name: Seq<char>|
                    name_views(dependencies@).contains(name) <==> is_dependency(
                        fields,
                        i as int,
                        name,
                    ) by {
                    if is_dependency(fields, i as int, name) {
                        let k = choose|k: int|
                            0 <= k < i && k < fields.len() && dependency_of(fields[k].field_type)
                                == Some(name);
                        if k < i - 1 {
                            assert(is_dependency(fields, i - 1, name));
                        }
                    }
                    if before.contains(name) {
                        assert(is_dependency(fields, i - 1, name));
                        let k = choose|k: int|
                            0 <= k < i - 1 && k < fields.len() && dependency_of(
                                fields[k].field_type,
                            ) == Some(name);
                        assert(0 <= k < i && dependency_of(fields[k].field_type) == Some(name));
                    }
                    if here == Some(name) {
                        assert(0 <= i - 1 < i && dependency_of(fields[i - 1].field_type) == Some(
                            name,
                        ));
                    }
                }
            }
        }
        dependencies
    }

    /// Adds the user-defined type that a field type names, if there is
    /// one and it is new, to `dependencies`.
    fn collect_field_dependencies<'a>(
        field_type: &'a IrFieldType,
        schema: &'a IrSchema,
        dependencies: &mut Vec<&'a str>,
    )
        requires
            strictly_ascending(name_views(old(dependencies)@)),
        ensures
            strictly_ascending(name_views(final(dependencies)@)),
            forall|x: Seq<char>|
                name_views(final(dependencies)@).contains(x) <==> (name_views(
                    old(dependencies)@,
                ).contains(x) || dependency_of(field_type@) == Some(x)),
    {
        match field_dependency(field_type) {
            Some(name) => insert_ascending(dependencies, name),
            None => {},
        }
    }

    /// The size in bytes of the field table of a message.
    pub fn field_table_size(message: &IrMessage) -> (n: usize)
        requires
            5 * message@.fields.len() <= usize::MAX,
        ensures
            n == 5 * message@.fields.len(),
    {
        message.fields.len() * 5
    }

    /// The offset constant of each field with its value.
    pub fn generate_field_offsets(message: &IrMessage) -> (offsets: Vec<(String, usize)>)
        requires
            2 + 5 * message@.fields.len() + sizes_before(
                message@.fields,
                message@.fields.len() as int,
            ) <= usize::MAX,
        ensures
            offset_views(offsets@) == field_offsets(message@),
    {
        let mut offsets: Vec<(String, usize)> = Vec::new();
        let mut current_offset = 2 + Self::field_table_size(message);
        let mut i: usize = 0;
        while i < message.fields.len()
            invariant
                i <= message.fields@.len(),
                offsets@.len() == i,
                current_offset == 2 + 5 * message@.fields.len() + sizes_before(
                    message@.fields,
                    i as int,
                ),
                2 + 5 * message@.fields.len() + sizes_before(
                    message@.fields,
                    message@.fields.len() as int,
                ) <= usize::MAX,
                forall|k: int|
                    0 <= k < i ==> (#[trigger] offsets@[k]).0@ == message@.fields[k].offset_constant
                        && offsets@[k].1 == 2 + 5 * message@.fields.len() + sizes_before(
                        message@.fields,
                        k,
                    ),
            decreases message.fields@.len() - i,
        {
            proof {
                lemma_sizes_before_monotonic(
                    message@.fields,
                    i + 1,
                    message@.fields.len() as int,
                );
            }
            let field = &message.fields[i];
            offsets.push((field.offset_constant.clone(), current_offset));
            current_offset += Self::field_size(&field.field_type);
            i += 1;
        }
        offsets
    }

    /// The size of a field as far as its type tells it.
    pub fn field_size(field_type: &IrFieldType) -> (n: usize)
        requires
            ir_field_size(field_type@) <= usize::MAX,
        ensures
            n == ir_field_size(field_type@),
        decreases field_type,
    {
        match field_type {
            IrFieldType::Scalar { scalar_type, .. } => scalar_type.size(),
            IrFieldType::UserDefined { .. } => 4,
            IrFieldType::Vector { element_type, .. } => 4 + Self::field_size(element_type),
        }
    }

    /// Whether the Rust type of a field needs a lifetime parameter.
    pub fn requires_lifetime(field_type: &IrFieldType) -> (b: bool)
        ensures
            b == ir_requires_lifetime(field_type@),
        decreases field_type,
    {
        match field_type {
            IrFieldType::Scalar { scalar_type, .. } => *scalar_type == ScalarType::String
                || *scalar_type == ScalarType::Bytes,
            IrFieldType::UserDefined { is_message, .. } => *is_message,
            IrFieldType::Vector { element_type, .. } => Self::requires_lifetime(element_type),
        }
    }
}

/// The sizes of more fields add up to at least as much.
pub proof fn lemma_sizes_before_monotonic(fields: Seq<IrFieldView>, n: int, m: int)
    requires
        n <= m,
    ensures
        sizes_before(fields, n) <= sizes_before(fields, m),
    decreases m - n,
{
    if n < m {
        lemma_sizes_before_monotonic(fields, n, m - 1);
    }
}

} // verus!
