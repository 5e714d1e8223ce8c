//! Abstract syntax tree of the schema language.
//!
//! Every tree type has a view in which text is a `Seq<char>` and a list is a
//! `Seq`; the contracts of the compiler phases are stated over those views.

use vstd::prelude::*;
use vstd::string::*;
use crate::search::first_index;
use crate::text::str_eq;

verus! {

/// A complete schema: its items in the order they were declared.
#[derive(Debug, Clone)]
pub struct Schema {
    pub items: Vec<SchemaItem>,
}

/// An item of a schema.
#[derive(Debug, Clone)]
pub enum SchemaItem {
    Message(Message),
    Enum(Enum),
}

/// A message definition. The position of a field in `fields` is its index
/// on the wire.
#[derive(Debug, Clone)]
pub struct Message {
    pub name: String,
    pub fields: Vec<Field>,
}

/// A field of a message.
#[derive(Debug, Clone)]
pub struct Field {
    pub name: String,
    pub field_type: FieldType,
    pub optional: bool,
    pub default_value: Option<DefaultValue>,
}

/// The default value written after a field.
#[derive(Debug, Clone, PartialEq, Eq)]
pub enum DefaultValue {
    Integer(i64),
    /// A floating-point literal, kept as the text that was written.
    Float(String),
    Bool(bool),
    /// The content of a string literal, escapes left as written.
    String(String),
}

/// The type of a field.
#[derive(Debug, PartialEq, Eq)]
pub enum FieldType {
    Scalar(ScalarType),
    UserDefined(String),
    Vector(Box<FieldType>),
}

/// The scalar types of the schema language.
#[derive(Debug, Clone, Copy, PartialEq, Eq, Structural)]
pub enum ScalarType {
    U8,
    U16,
    U32,
    U64,
    I8,
    I16,
    I32,
    I64,
    F32,
    F64,
    Bool,
    String,
    Bytes,
}

/// An enum definition.
#[derive(Debug, Clone)]
pub struct Enum {
    pub name: String,
    pub variants: Vec<EnumVariant>,
}

/// A variant of an enum. Without an explicit value it takes its position.
#[derive(Debug, Clone)]
pub struct EnumVariant {
    pub name: String,
    pub value: Option<i64>,
}

/// The value of a [`Schema`].
pub struct SchemaView {
    pub items: Seq<SchemaItemView>,
}

/// The value of a [`SchemaItem`].
pub enum SchemaItemView {
    Message(MessageView),
    Enum(EnumView),
}

/// The value of a [`Message`].
pub struct MessageView {
    pub name: Seq<char>,
    pub fields: Seq<FieldView>,
}

/// The value of a [`Field`].
pub struct FieldView {
    pub name: Seq<char>,
    pub field_type: FieldTypeView,
    pub optional: bool,
    pub default_value: Option<DefaultValueView>,
}

/// The value of a [`DefaultValue`].
pub enum DefaultValueView {
    Integer(i64),
    Float(Seq<char>),
    Bool(bool),
    String(Seq<char>),
}

/// The value of a [`FieldType`].
pub enum FieldTypeView {
    Scalar(ScalarType),
    UserDefined(Seq<char>),
    Vector(Box<FieldTypeView>),
}

/// The value of an [`Enum`].
pub struct EnumView {
    pub name: Seq<char>,
    pub variants: Seq<EnumVariantView>,
}

/// The value of an [`EnumVariant`].
pub struct EnumVariantView {
    pub name: Seq<char>,
    pub value: Option<i64>,
}

/// The value of a field type.
pub open spec fn field_type_view(t: FieldType) -> FieldTypeView
    decreases t,
{
    match t {
        FieldType::Scalar(s) => FieldTypeView::Scalar(s),
        FieldType::UserDefined(name) => FieldTypeView::UserDefined(name@),
        FieldType::Vector(inner) => FieldTypeView::Vector(Box::new(field_type_view(*inner))),
    }
}

impl Clone for FieldType {
    fn clone(&self) -> (copy: FieldType)
        ensures
            copy == *self,
        decreases self,
    {
        match self {
            FieldType::Scalar(scalar) => FieldType::Scalar(*scalar),
            FieldType::UserDefined(name) => FieldType::UserDefined(name.clone()),
            FieldType::Vector(inner) => FieldType::Vector(Box::new((**inner).clone())),
        }
    }
}

impl View for FieldType {
    type V = FieldTypeView;

    open spec fn view(&self) -> FieldTypeView {
        field_type_view(*self)
    }
}

impl View for DefaultValue {
    type V = DefaultValueView;

    open spec fn view(&self) -> DefaultValueView {
        match self {
            DefaultValue::Integer(v) => DefaultValueView::Integer(*v),
            DefaultValue::Float(text) => DefaultValueView::Float(text@),
            DefaultValue::Bool(b) => DefaultValueView::Bool(*b),
            DefaultValue::String(text) => DefaultValueView::String(text@),
        }
    }
}

impl View for Field {
    type V = FieldView;

    open spec fn view(&self) -> FieldView {
        FieldView {
            name: self.name@,
            field_type: self.field_type@,
            optional: self.optional,
            default_value: match self.default_value {
                Some(d) => Some(d@),
                None => None,
            },
        }
    }
}

impl View for Message {
    type V = MessageView;

    open spec fn view(&self) -> MessageView {
        MessageView { name: self.name@, fields: self.fields@.map_values(|f: Field| f@) }
    }
}

impl View for EnumVariant {
    type V = EnumVariantView;

    open spec fn view(&self) -> EnumVariantView {
        EnumVariantView { name: self.name@, value: self.value }
    }
}

impl View for Enum {
    type V = EnumView;

    open spec fn view(&self) -> EnumView {
        EnumView { name: self.name@, variants: self.variants@.map_values(|v: EnumVariant| v@) }
    }
}

impl View for SchemaItem {
    type V = SchemaItemView;

    open spec fn view(&self) -> SchemaItemView {
        match self {
            SchemaItem::Message(m) => SchemaItemView::Message(m@),
            SchemaItem::Enum(e) => SchemaItemView::Enum(e@),
        }
    }
}

impl View for Schema {
    type V = SchemaView;

    open spec fn view(&self) -> SchemaView {
        SchemaView { items: self.items@.map_values(|i: SchemaItem| i@) }
    }
}

impl SchemaItemView {
    /// The declared name of the item.
    pub open spec fn name(self) -> Seq<char> {
        match self {
            SchemaItemView::Message(m) => m.name,
            SchemaItemView::Enum(e) => e.name,
        }
    }
}

/// The messages among `items`, in order.
pub open spec fn messages_of(items: Seq<SchemaItemView>) -> Seq<MessageView>
    decreases items.len(),
{
    if items.len() == 0 {
        Seq::empty()
    } else {
        match items.last() {
            SchemaItemView::Message(m) => messages_of(items.drop_last()).push(m),
            SchemaItemView::Enum(_) => messages_of(items.drop_last()),
        }
    }
}

/// The enums among `items`, in order.
pub open spec fn enums_of(items: Seq<SchemaItemView>) -> Seq<EnumView>
    decreases items.len(),
{
    if items.len() == 0 {
        Seq::empty()
    } else {
        match items.last() {
            SchemaItemView::Enum(e) => enums_of(items.drop_last()).push(e),
            SchemaItemView::Message(_) => enums_of(items.drop_last()),
        }
    }
}

/// The position of the first message among `items[from..]` that is named
/// `name`, or the length of `items` where there is none.
pub open spec fn message_position(items: Seq<SchemaItemView>, name: Seq<char>, from: int) -> int
    decreases items.len() - from,
{
    if from < 0 || from >= items.len() {
        items.len() as int
    } else if items[from] matches SchemaItemView::Message(m) && m.name == name {
        from
    } else {
        message_position(items, name, from + 1)
    }
}

/// The position of the first enum among `items[from..]` that is named
/// `name`, or the length of `items` where there is none.
pub open spec fn enum_position(items: Seq<SchemaItemView>, name: Seq<char>, from: int) -> int
    decreases items.len() - from,
{
    if from < 0 || from >= items.len() {
        items.len() as int
    } else if items[from] matches SchemaItemView::Enum(e) && e.name == name {
        from
    } else {
        enum_position(items, name, from + 1)
    }
}

impl Schema {
    /// Creates an empty schema.
    pub fn new() -> (s: Schema)
        ensures
            s@.items == Seq::<SchemaItemView>::empty(),
    {
        let s = Schema { items: Vec::new() };
        s
    }

    /// Adds an item at the end of the schema.
    pub fn add_item(&mut self, item: SchemaItem)
        ensures
            final(self)@.items == old(self)@.items.push(item@),
    {
        self.items.push(item);
    }

    /// All message definitions, in order.
    pub fn messages(&self) -> (out: Vec<&Message>)
        ensures
            out@.map_values(|m: &Message| m@) == messages_of(self@.items),
    {
        let mut out: Vec<&Message> = Vec::new();
        let mut i: usize = 0;
        assert(self@.items.take(0) =~= Seq::empty());
        assert(out@.map_values(|m: &Message| m@) =~= Seq::empty());
        while i < self.items.len()
            invariant
                i <= self.items@.len(),
                out@.map_values(|m: &Message| m@) == messages_of(self@.items.take(i as int)),
            decreases self.items@.len() - i,
        {
            let ghost before = out@.map_values(|m: &Message| m@);
            proof {
                assert(self@.items.take(i + 1).drop_last() =~= self@.items.take(i as int));
            }
            match &self.items[i] {
                SchemaItem::Message(m) => {
                    out.push(m);
                    assert(out@.map_values(|m: &Message| m@) =~= before.push(m@));
                },
                SchemaItem::Enum(_) => {},
            }
            i += 1;
        }
        assert(self@.items.take(i as int) =~= self@.items);
        out
    }

    /// All enum definitions, in order.
    pub fn enums(&self) -> (out: Vec<&Enum>)
        ensures
            out@.map_values(|e: &Enum| e@) == enums_of(self@.items),
    {
        let mut out: Vec<&Enum> = Vec::new();
        let mut i: usize = 0;
        assert(self@.items.take(0) =~= Seq::empty());
        assert(out@.map_values(|e: &Enum| e@) =~= Seq::empty());
        while i < self.items.len()
            invariant
                i <= self.items@.len(),
                out@.map_values(|e: &Enum| e@) == enums_of(self@.items.take(i as int)),
            decreases self.items@.len() - i,
        {
            let ghost before = out@.map_values(|e: &Enum| e@);
            proof {
                assert(self@.items.take(i + 1).drop_last() =~= self@.items.take(i as int));
            }
            match &self.items[i] {
                SchemaItem::Enum(e) => {
                    out.push(e);
                    assert(out@.map_values(|e: &Enum| e@) =~= before.push(e@));
                },
                SchemaItem::Message(_) => {},
            }
            i += 1;
        }
        assert(self@.items.take(i as int) =~= self@.items);
        out
    }

    /// The first message named `name`.
    pub fn find_message(&self, name: &str) -> (found: Option<&Message>)
        ensures
            ({
                let at = message_position(self@.items, name@, 0);
                if at < self@.items.len() {
                    found matches Some(m) && self@.items[at] == SchemaItemView::Message(m@)
                } else {
                    found is None
                }
            }),
    {
        let mut i: usize = 0;
        while i < self.items.len()
            invariant
                i <= self.items@.len(),
                message_position(self@.items, name@, 0) == message_position(
                    self@.items,
                    name@,
                    i as int,
                ),
            decreases self.items@.len() - i,
        {
            match &self.items[i] {
                SchemaItem::Message(m) => {
                    if str_eq(m.name.as_str(), name) {
                        return Some(m);
                    }
                },
                SchemaItem::Enum(_) => {},
            }
            i += 1;
        }
        None
    }

    /// The first enum named `name`.
    pub fn find_enum(&self, name: &str) -> (found: Option<&Enum>)
        ensures
            ({
                let at = enum_position(self@.items, name@, 0);
                if at < self@.items.len() {
                    found matches Some(e) && self@.items[at] == SchemaItemView::Enum(e@)
                } else {
                    found is None
                }
            }),
    {
        let mut i: usize = 0;
        while i < self.items.len()
            invariant
                i <= self.items@.len(),
                enum_position(self@.items, name@, 0) == enum_position(
                    self@.items,
                    name@,
                    i as int,
                ),
            decreases self.items@.len() - i,
        {
            match &self.items[i] {
                SchemaItem::Enum(e) => {
                    if str_eq(e.name.as_str(), name) {
                        return Some(e);
                    }
                },
                SchemaItem::Message(_) => {},
            }
            i += 1;
        }
        None
    }
}

impl Message {
    /// Creates a message without fields.
    pub fn new(name: String) -> (m: Message)
        ensures
            m@ == (MessageView { name: name@, fields: Seq::empty() }),
    {
        let m = Message { name, fields: Vec::new() };
        assert(m@.fields =~= Seq::empty());
        m
    }

    /// Adds a field at the end of the message.
    pub fn add_field(&mut self, field: Field)
        ensures
            final(self)@ == (MessageView {
                name: old(self)@.name,
                fields: old(self)@.fields.push(field@),
            }),
    {
        self.fields.push(field);
        assert(self@.fields =~= old(self)@.fields.push(field@));
    }

    /// The first field named `name`.
    pub fn find_field(&self, name: &str) -> (found: Option<&Field>)
        ensures
            ({
                let names = self@.fields.map_values(|f: FieldView| f.name);
                let at = first_index(names, name@, 0);
                if at < names.len() {
                    found matches Some(f) && f@ == self@.fields[at]
                } else {
                    found is None
                }
            }),
    {
        let ghost names = self@.fields.map_values(|f: FieldView| f.name);
        let mut i: usize = 0;
        while i < self.fields.len()
            invariant
                i <= self.fields@.len(),
                names == self@.fields.map_values(|f: FieldView| f.name),
                first_index(names, name@, 0) == first_index(names, name@, i as int),
            decreases self.fields@.len() - i,
        {
            if str_eq(self.fields[i].name.as_str(), name) {
                return Some(&self.fields[i]);
            }
            i += 1;
        }
        None
    }
}

impl Field {
    /// Creates a required field without a default value.
    pub fn new(name: String, field_type: FieldType) -> (f: Field)
        ensures
            f@ == (FieldView {
                name: name@,
                field_type: field_type@,
                optional: false,
                default_value: None,
            }),
    {
        Field { name, field_type, optional: false, default_value: None }
    }
}

impl Enum {
    /// Creates an enum without variants.
    pub fn new(name: String) -> (e: Enum)
        ensures
            e@ == (EnumView { name: name@, variants: Seq::empty() }),
    {
        let e = Enum { name, variants: Vec::new() };
        assert(e@.variants =~= Seq::empty());
        e
    }

    /// Adds a variant at the end of the enum.
    pub fn add_variant(&mut self, variant: EnumVariant)
        ensures
            final(self)@ == (EnumView {
                name: old(self)@.name,
                variants: old(self)@.variants.push(variant@),
            }),
    {
        self.variants.push(variant);
        assert(self@.variants =~= old(self)@.variants.push(variant@));
    }

    /// The first variant named `name`.
    pub fn find_variant(&self, name: &str) -> (found: Option<&EnumVariant>)
        ensures
            ({
                let names = self@.variants.map_values(|v: EnumVariantView| v.name);
                let at = first_index(names, name@, 0);
                if at < names.len() {
                    found matches Some(v) && v@ == self@.variants[at]
                } else {
                    found is None
                }
            }),
    {
        let ghost names = self@.variants.map_values(|v: EnumVariantView| v.name);
        let mut i: usize = 0;
        while i < self.variants.len()
            invariant
                i <= self.variants@.len(),
                names == self@.variants.map_values(|v: EnumVariantView| v.name),
                first_index(names, name@, 0) == first_index(names, name@, i as int),
            decreases self.variants@.len() - i,
        {
            if str_eq(self.variants[i].name.as_str(), name) {
                return Some(&self.variants[i]);
            }
            i += 1;
        }
        None
    }
}

impl EnumVariant {
    /// Creates a variant that takes its position as its value.
    pub fn new(name: String) -> (v: EnumVariant)
        ensures
            v@ == (EnumVariantView { name: name@, value: None }),
    {
        EnumVariant { name, value: None }
    }

    /// Creates a variant with an explicit value.
    pub fn with_value(name: String, value: i64) -> (v: EnumVariant)
        ensures
            v@ == (EnumVariantView { name: name@, value: Some(value) }),
    {
        EnumVariant { name, value: Some(value) }
    }
}

/// The name of the Rust type that holds a scalar.
pub open spec fn rust_type_of(s: ScalarType) -> Seq<char> {
    match s {
        ScalarType::U8 => "u8"@,
        ScalarType::U16 => "u16"@,
        ScalarType::U32 => "u32"@,
        ScalarType::U64 => "u64"@,
        ScalarType::I8 => "i8"@,
        ScalarType::I16 => "i16"@,
        ScalarType::I32 => "i32"@,
        ScalarType::I64 => "i64"@,
        ScalarType::F32 => "f32"@,
        ScalarType::F64 => "f64"@,
        ScalarType::Bool => "bool"@,
        ScalarType::String => "&'a str"@,
        ScalarType::Bytes => "&'a [u8]"@,
    }
}

/// The wire type id of a scalar.
pub open spec fn type_id_of(s: ScalarType) -> u8 {
    match s {
        ScalarType::U8 => 0,
        ScalarType::U16 => 1,
        ScalarType::U32 => 2,
        ScalarType::U64 => 3,
        ScalarType::I8 => 4,
        ScalarType::I16 => 5,
        ScalarType::I32 => 6,
        ScalarType::I64 => 7,
        ScalarType::F32 => 8,
        ScalarType::F64 => 9,
        ScalarType::Bool => 10,
        ScalarType::String => 11,
        ScalarType::Bytes => 12,
    }
}

/// The number of payload bytes whose count is known from the type alone:
/// the width of a fixed-width scalar, the length prefix of a string or of
/// bytes.
pub open spec fn scalar_size(s: ScalarType) -> nat {
    match s {
        ScalarType::U8 | ScalarType::I8 | ScalarType::Bool => 1,
        ScalarType::U16 | ScalarType::I16 => 2,
        ScalarType::U32 | ScalarType::I32 | ScalarType::F32 => 4,
        ScalarType::U64 | ScalarType::I64 | ScalarType::F64 => 8,
        ScalarType::String | ScalarType::Bytes => 4,
    }
}

impl ScalarType {
    /// The name of the Rust type that holds this scalar.
    pub fn rust_type(&self) -> (name: &'static str)
        ensures
            name@ == rust_type_of(*self),
    {
        match self {
            ScalarType::U8 => "u8",
            ScalarType::U16 => "u16",
            ScalarType::U32 => "u32",
            ScalarType::U64 => "u64",
            ScalarType::I8 => "i8",
            ScalarType::I16 => "i16",
            ScalarType::I32 => "i32",
            ScalarType::I64 => "i64",
            ScalarType::F32 => "f32",
            ScalarType::F64 => "f64",
            ScalarType::Bool => "bool",
            ScalarType::String => "&'a str",
            ScalarType::Bytes => "&'a [u8]",
        }
    }

    /// The wire type id of this scalar.
    pub fn primitive_type_id(&self) -> (id: u8)
        ensures
            id == type_id_of(*self),
    {
        match self {
            ScalarType::U8 => 0,
            ScalarType::U16 => 1,
            ScalarType::U32 => 2,
            ScalarType::U64 => 3,
            ScalarType::I8 => 4,
            ScalarType::I16 => 5,
            ScalarType::I32 => 6,
            ScalarType::I64 => 7,
            ScalarType::F32 => 8,
            ScalarType::F64 => 9,
            ScalarType::Bool => 10,
            ScalarType::String => 11,
            ScalarType::Bytes => 12,
        }
    }

    /// The width of a fixed-width scalar; for a string or bytes the width
    /// of the length prefix.
    pub fn size(&self) -> (n: usize)
        ensures
            n == scalar_size(*self),
    {
        match self {
            ScalarType::U8 | ScalarType::I8 | ScalarType::Bool => 1,
            ScalarType::U16 | ScalarType::I16 => 2,
            ScalarType::U32 | ScalarType::I32 | ScalarType::F32 => 4,
            ScalarType::U64 | ScalarType::I64 | ScalarType::F64 => 8,
            ScalarType::String | ScalarType::Bytes => 4,
        }
    }
}

} // verus!
