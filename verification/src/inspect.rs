//! Statistics of a schema: how many messages, enums and fields it has, and
//! how many of the fields are optional, have a default or are vectors.

use vstd::prelude::*;
use vstd::string::*;
use crate::ast::{
    enums_of, messages_of, EnumView, FieldView, MessageView, Schema, SchemaItem, SchemaItemView,
    Message,
};

verus! {

/// What is counted of one message.
#[derive(Debug)]
pub struct MessageInsight {
    pub name: String,
    pub field_count: usize,
    pub optional_fields: usize,
    pub defaulted_fields: usize,
    pub vector_fields: usize,
}

/// What is counted of one enum.
#[derive(Debug)]
pub struct EnumInsight {
    pub name: String,
    pub variant_count: usize,
}

/// What is counted of a schema.
#[derive(Debug)]
pub struct SchemaInsight {
    pub messages: Vec<MessageInsight>,
    pub enums: Vec<EnumInsight>,
    pub total_fields: usize,
    pub optional_fields: usize,
    pub defaulted_fields: usize,
    pub vector_fields: usize,
}

/// The value of a [`MessageInsight`].
pub struct MessageInsightView {
    pub name: Seq<char>,
    pub field_count: nat,
    pub optional_fields: nat,
    pub defaulted_fields: nat,
    pub vector_fields: nat,
}

/// The value of an [`EnumInsight`].
pub struct EnumInsightView {
    pub name: Seq<char>,
    pub variant_count: nat,
}

impl View for MessageInsight {
    type V = MessageInsightView;

    open spec fn view(&self) -> MessageInsightView {
        MessageInsightView {
            name: self.name@,
            field_count: self.field_count as nat,
            optional_fields: self.optional_fields as nat,
            defaulted_fields: self.defaulted_fields as nat,
            vector_fields: self.vector_fields as nat,
        }
    }
}

impl View for EnumInsight {
    type V = EnumInsightView;

    open spec fn view(&self) -> EnumInsightView {
        EnumInsightView { name: self.name@, variant_count: self.variant_count as nat }
    }
}

/// A property of fields that is counted.
pub enum Counted {
    All,
    Optional,
    Defaulted,
    Vector,
}

/// Whether a field has the property.
pub open spec fn counts(what: Counted, f: FieldView) -> bool {
    match what {
        Counted::All => true,
        Counted::Optional => f.optional,
        Counted::Defaulted => f.default_value is Some,
        Counted::Vector => f.field_type is Vector,
    }
}

/// How many of the first `n` fields have the property.
pub open spec fn count_fields(what: Counted, fields: Seq<FieldView>, n: int) -> nat
    decreases n,
{
    if n <= 0 {
        0
    } else {
        count_fields(what, fields, n - 1) + if counts(what, fields[n - 1]) {
            1nat
        } else {
            0nat
        }
    }
}

/// How many fields of the first `n` items have the property.
pub open spec fn count_in_items(what: Counted, items: Seq<SchemaItemView>, n: int) -> nat
    decreases n,
{
    if n <= 0 {
        0
    } else {
        count_in_items(what, items, n - 1) + match items[n - 1] {
            SchemaItemView::Message(m) => count_fields(what, m.fields, m.fields.len() as int),
            SchemaItemView::Enum(_) => 0,
        }
    }
}

/// What is counted of a message.
pub open spec fn message_insight(m: MessageView) -> MessageInsightView {
    MessageInsightView {
        name: m.name,
        field_count: m.fields.len(),
        optional_fields: count_fields(Counted::Optional, m.fields, m.fields.len() as int),
        defaulted_fields: count_fields(Counted::Defaulted, m.fields, m.fields.len() as int),
        vector_fields: count_fields(Counted::Vector, m.fields, m.fields.len() as int),
    }
}

/// What is counted of an enum.
pub open spec fn enum_insight(e: EnumView) -> EnumInsightView {
    EnumInsightView { name: e.name, variant_count: e.variants.len() }
}

/// No more fields have a property than there are fields.
pub proof fn lemma_count_bounds(what: Counted, fields: Seq<FieldView>, n: int)
    requires
        0 <= n,
    ensures
        count_fields(what, fields, n) <= n,
        count_fields(Counted::All, fields, n) == n,
        count_fields(what, fields, n) <= count_fields(Counted::All, fields, n),
    decreases n,
{
    if n > 0 {
        lemma_count_bounds(what, fields, n - 1);
    }
}

/// No more fields of the items have a property than the items have
/// fields, and the count grows with the number of items.
pub proof fn lemma_count_in_items(what: Counted, items: Seq<SchemaItemView>, n: int, m: int)
    requires
        0 <= n <= m,
    ensures
        count_in_items(what, items, n) <= count_in_items(Counted::All, items, n),
        count_in_items(Counted::All, items, n) <= count_in_items(Counted::All, items, m),
    decreases m,
{
    if n > 0 {
        lemma_count_in_items(what, items, n - 1, n - 1);
        match items[n - 1] {
            SchemaItemView::Message(msg) => {
                lemma_count_bounds(what, msg.fields, msg.fields.len() as int);
            },
            SchemaItemView::Enum(_) => {},
        }
    }
    if n < m {
        lemma_count_in_items(what, items, n, m - 1);
    }
}

/// Counts the fields of a message.
fn analyze_message(message: &Message) -> (insight: MessageInsight)
    ensures
        insight@ == message_insight(message@),
{
    let mut msg_optional: usize = 0;
    let mut msg_defaulted: usize = 0;
    let mut msg_vectors: usize = 0;
    let mut i: usize = 0;
    while i < message.fields.len()
        invariant
            i <= message.fields@.len(),
            msg_optional == count_fields(Counted::Optional, message@.fields, i as int),
            msg_defaulted == count_fields(Counted::Defaulted, message@.fields, i as int),
            msg_vectors == count_fields(Counted::Vector, message@.fields, i as int),
        decreases message.fields@.len() - i,
    {
        proof {
            lemma_count_bounds(Counted::Optional, message@.fields, i as int);
            lemma_count_bounds(Counted::Defaulted, message@.fields, i as int);
            lemma_count_bounds(Counted::Vector, message@.fields, i as int);
        }
        let field = &message.fields[i];
        if field.optional {
            msg_optional += 1;
        }
        if field.default_value.is_some() {
            msg_defaulted += 1;
        }
        match field.field_type {
            crate::ast::FieldType::Vector(_) => {
                msg_vectors += 1;
            },
            _ => {},
        }
        i += 1;
    }
    MessageInsight {
        name: message.name.clone(),
        field_count: message.fields.len(),
        optional_fields: msg_optional,
        defaulted_fields: msg_defaulted,
        vector_fields: msg_vectors,
    }
}

/// Counts the messages, enums and fields of a schema.
pub fn analyze_schema(schema: &Schema) -> (insight: SchemaInsight)
    requires
        count_in_items(Counted::All, schema@.items, schema@.items.len() as int) <= usize::MAX,
    ensures
        insight.messages@.map_values(|m: MessageInsight| m@) == messages_of(
            schema@.items,
        ).map_values(|m: MessageView| message_insight(m)),
        insight.enums@.map_values(|e: EnumInsight| e@) == enums_of(schema@.items).map_values(
            |e: EnumView| enum_insight(e),
        ),
        insight.total_fields == count_in_items(
            Counted::All,
            schema@.items,
            schema@.items.len() as int,
        ),
        insight.optional_fields == count_in_items(
            Counted::Optional,
            schema@.items,
            schema@.items.len() as int,
        ),
        insight.defaulted_fields == count_in_items(
            Counted::Defaulted,
            schema@.items,
            schema@.items.len() as int,
        ),
        insight.vector_fields == count_in_items(
            Counted::Vector,
            schema@.items,
            schema@.items.len() as int,
        ),
{
    let mut messages: Vec<MessageInsight> = Vec::new();
    let mut enums: Vec<EnumInsight> = Vec::new();
    let mut total_fields: usize = 0;
    let mut optional_fields: usize = 0;
    let mut defaulted_fields: usize = 0;
    let mut vector_fields: usize = 0;
    let ghost items = schema@.items;
    let mut i: usize = 0;
    while i < schema.items.len()
        invariant
            i <= schema.items@.len(),
            items == schema@.items,
            count_in_items(Counted::All, items, items.len() as int) <= usize::MAX,
            messages@.map_values(|m: MessageInsight| m@) == messages_of(
                items.take(i as int),
            ).map_values(|m: MessageView| message_insight(m)),
            enums@.map_values(|e: EnumInsight| e@) == enums_of(items.take(i as int)).map_values(
                |e: EnumView| enum_insight(e),
            ),
            total_fields == count_in_items(Counted::All, items, i as int),
            optional_fields == count_in_items(Counted::Optional, items, i as int),
            defaulted_fields == count_in_items(Counted::Defaulted, items, i as int),
            vector_fields == count_in_items(Counted::Vector, items, i as int),
        decreases schema.items@.len() - i,
    {
        let ghost before_messages = messages@.map_values(|m: MessageInsight| m@);
        let ghost before_enums = enums@.map_values(|e: EnumInsight| e@);
        proof {
            assert(items.take(i + 1).drop_last() =~= items.take(i as int));
            lemma_count_in_items(Counted::Optional, items, i + 1, items.len() as int);
            lemma_count_in_items(Counted::Defaulted, items, i + 1, items.len() as int);
            lemma_count_in_items(Counted::Vector, items, i + 1, items.len() as int);
        }
        match &schema.items[i] {
            SchemaItem::Message(message) => {
                let counted = analyze_message(message);
                proof {
                    lemma_count_bounds(
                        Counted::All,
                        message@.fields,
                        message@.fields.len() as int,
                    );
                    assert(messages@.push(counted).map_values(|m: MessageInsight| m@)
                        =~= before_messages.push(counted@));
                }
                total_fields += counted.field_count;
                optional_fields += counted.optional_fields;
                defaulted_fields += counted.defaulted_fields;
                vector_fields += counted.vector_fields;
                messages.push(counted);
            },
            SchemaItem::Enum(en) => {
                let counted = EnumInsight { name: en.name.clone(), variant_count: en.variants.len() };
                proof {
                    assert(enums@.push(counted).map_values(|e: EnumInsight| e@)
                        =~= before_enums.push(counted@));
                }
                enums.push(counted);
            },
        }
        i += 1;
    }
    assert(items.take(i as int) =~= items);
    SchemaInsight { messages, enums, total_fields, optional_fields, defaulted_fields, vector_fields }
}

} // verus!
