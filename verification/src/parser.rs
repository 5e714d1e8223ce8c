//! Parser of the schema language.
//!
//! The grammar is written down once, as specification functions over the
//! token stream ([`parse_spec`] and the functions it is built from). The
//! recursive-descent parser below returns exactly what they define.

use vstd::prelude::*;
use vstd::string::*;
use crate::ast::{
    DefaultValue, DefaultValueView, Enum, EnumVariant, EnumVariantView, EnumView, Field,
    FieldType, FieldTypeView, FieldView, Message, MessageView, ScalarType, Schema, SchemaItem,
    SchemaItemView, SchemaView,
};
use crate::errors::CompilerError;
use crate::lexer::{kind_of, token_views, tokenize, tokenize_spec, SyntaxError, Token, TokenKind, TokenView};
use crate::text::str_eq;

verus! {

/// Requires a token of kind `kind` at `pos`; gives the position after it.
pub open spec fn expect(ts: Seq<TokenView>, pos: int, kind: TokenKind) -> Result<int, SyntaxError> {
    if pos < 0 || pos >= ts.len() {
        Err(SyntaxError::ExpectedToken(kind, None))
    } else if kind_of(ts[pos]) == kind {
        Ok(pos + 1)
    } else {
        Err(SyntaxError::ExpectedToken(kind, Some(kind_of(ts[pos]))))
    }
}

/// Requires an identifier at `pos`; gives its text and the position after it.
pub open spec fn expect_identifier(ts: Seq<TokenView>, pos: int) -> Result<
    (Seq<char>, int),
    SyntaxError,
> {
    if pos < 0 || pos >= ts.len() {
        Err(SyntaxError::ExpectedIdentifier(true))
    } else {
        match ts[pos] {
            TokenView::Identifier(name) => Ok((name, pos + 1)),
            _ => Err(SyntaxError::ExpectedIdentifier(false)),
        }
    }
}

/// Requires an integer at `pos`; gives its value and the position after it.
pub open spec fn expect_integer(ts: Seq<TokenView>, pos: int) -> Result<(i64, int), SyntaxError> {
    if pos < 0 || pos >= ts.len() {
        Err(SyntaxError::ExpectedInteger(true))
    } else {
        match ts[pos] {
            TokenView::Integer(value) => Ok((value, pos + 1)),
            _ => Err(SyntaxError::ExpectedInteger(false)),
        }
    }
}

/// Whether the token at `pos` exists and is of kind `kind`.
pub open spec fn at_kind(ts: Seq<TokenView>, pos: int, kind: TokenKind) -> bool {
    0 <= pos < ts.len() && kind_of(ts[pos]) == kind
}

/// The type that a type name denotes: one of the thirteen scalars, or a
/// user-defined type of that name.
pub open spec fn named_type(name: Seq<char>) -> FieldTypeView {
    if name == "u8"@ {
        FieldTypeView::Scalar(ScalarType::U8)
    } else if name == "u16"@ {
        FieldTypeView::Scalar(ScalarType::U16)
    } else if name == "u32"@ {
        FieldTypeView::Scalar(ScalarType::U32)
    } else if name == "u64"@ {
        FieldTypeView::Scalar(ScalarType::U64)
    } else if name == "i8"@ {
        FieldTypeView::Scalar(ScalarType::I8)
    } else if name == "i16"@ {
        FieldTypeView::Scalar(ScalarType::I16)
    } else if name == "i32"@ {
        FieldTypeView::Scalar(ScalarType::I32)
    } else if name == "i64"@ {
        FieldTypeView::Scalar(ScalarType::I64)
    } else if name == "f32"@ {
        FieldTypeView::Scalar(ScalarType::F32)
    } else if name == "f64"@ {
        FieldTypeView::Scalar(ScalarType::F64)
    } else if name == "bool"@ {
        FieldTypeView::Scalar(ScalarType::Bool)
    } else if name == "string"@ {
        FieldTypeView::Scalar(ScalarType::String)
    } else if name == "bytes"@ {
        FieldTypeView::Scalar(ScalarType::Bytes)
    } else {
        FieldTypeView::UserDefined(name)
    }
}

/// `Type := Scalar | Ident | '[' Type ']'`
pub open spec fn parse_type_spec(ts: Seq<TokenView>, pos: int) -> Result<
    (FieldTypeView, int),
    SyntaxError,
>
    decreases ts.len() - pos,
{
    if at_kind(ts, pos, TokenKind::LeftBracket) {
        match parse_type_spec(ts, pos + 1) {
            Err(e) => Err(e),
            Ok((inner, after_inner)) => match expect(ts, after_inner, TokenKind::RightBracket) {
                Err(e) => Err(e),
                Ok(next) => Ok((FieldTypeView::Vector(Box::new(inner)), next)),
            },
        }
    } else {
        match expect_identifier(ts, pos) {
            Err(e) => Err(e),
            Ok((name, next)) => Ok((named_type(name), next)),
        }
    }
}

/// `DefaultVal := IntLit | FloatLit | BoolLit | StringLit`
pub open spec fn parse_default_spec(ts: Seq<TokenView>, pos: int) -> Result<
    (DefaultValueView, int),
    SyntaxError,
> {
    if pos < 0 || pos >= ts.len() {
        Err(SyntaxError::ExpectedDefaultValue(true))
    } else {
        match ts[pos] {
            TokenView::Integer(v) => Ok((DefaultValueView::Integer(v), pos + 1)),
            TokenView::Float(text) => Ok((DefaultValueView::Float(text), pos + 1)),
            TokenView::True => Ok((DefaultValueView::Bool(true), pos + 1)),
            TokenView::False => Ok((DefaultValueView::Bool(false), pos + 1)),
            TokenView::StringLiteral(text) => Ok((DefaultValueView::String(text), pos + 1)),
            _ => Err(SyntaxError::ExpectedDefaultValue(false)),
        }
    }
}

/// The optional `'=' DefaultVal` of a field.
pub open spec fn parse_default_clause_spec(ts: Seq<TokenView>, pos: int) -> Result<
    (Option<DefaultValueView>, int),
    SyntaxError,
> {
    if at_kind(ts, pos, TokenKind::Equals) {
        match parse_default_spec(ts, pos + 1) {
            Err(e) => Err(e),
            Ok((value, next)) => Ok((Some(value), next)),
        }
    } else {
        Ok((None, pos))
    }
}

/// `Field := Ident ':' Type ('?')? ('=' DefaultVal)? ';'`
pub open spec fn parse_field_spec(ts: Seq<TokenView>, pos: int) -> Result<
    (FieldView, int),
    SyntaxError,
> {
    match expect_identifier(ts, pos) {
        Err(e) => Err(e),
        Ok((name, after_name)) => match expect(ts, after_name, TokenKind::Colon) {
            Err(e) => Err(e),
            Ok(after_colon) => match parse_type_spec(ts, after_colon) {
                Err(e) => Err(e),
                Ok((field_type, after_type)) => {
                    let optional = at_kind(ts, after_type, TokenKind::Question);
                    let after_mark = if optional { after_type + 1 } else { after_type };
                    match parse_default_clause_spec(ts, after_mark) {
                        Err(e) => Err(e),
                        Ok((default_value, after_default)) => match expect(
                            ts,
                            after_default,
                            TokenKind::Semicolon,
                        ) {
                            Err(e) => Err(e),
                            Ok(next) => Ok(
                                (FieldView { name, field_type, optional, default_value }, next),
                            ),
                        },
                    }
                },
            },
        },
    }
}

/// A type, where it parses, ends behind its start and within the tokens.
pub proof fn lemma_parse_type_advances(ts: Seq<TokenView>, pos: int)
    requires
        0 <= pos,
    ensures
        parse_type_spec(ts, pos) matches Ok((_, next)) ==> pos < next <= ts.len(),
    decreases ts.len() - pos,
{
    if at_kind(ts, pos, TokenKind::LeftBracket) {
        lemma_parse_type_advances(ts, pos + 1);
    }
}

/// A field, where it parses, ends behind its start and within the tokens.
pub proof fn lemma_parse_field_advances(ts: Seq<TokenView>, pos: int)
    requires
        0 <= pos,
    ensures
        parse_field_spec(ts, pos) matches Ok((_, next)) ==> pos < next <= ts.len(),
{
    if expect_identifier(ts, pos) is Ok && expect(ts, pos + 1, TokenKind::Colon) is Ok {
        lemma_parse_type_advances(ts, pos + 2);
    }
}

/// `Field*` up to a `}` or the end of the tokens, each field optionally
/// followed by a `,`; the fields are appended to `acc`.
pub open spec fn parse_fields_spec(ts: Seq<TokenView>, pos: int, acc: Seq<FieldView>) -> Result<
    (Seq<FieldView>, int),
    SyntaxError,
>
    decreases ts.len() - pos,
{
    if pos < 0 || pos >= ts.len() || at_kind(ts, pos, TokenKind::RightBrace) {
        Ok((acc, pos))
    } else {
        proof {
            lemma_parse_field_advances(ts, pos);
        }
        match parse_field_spec(ts, pos) {
            Err(e) => Err(e),
            Ok((field, after_field)) => {
                let next = if at_kind(ts, after_field, TokenKind::Comma) {
                    after_field + 1
                } else {
                    after_field
                };
                parse_fields_spec(ts, next, acc.push(field))
            },
        }
    }
}

/// `Message := 'message' Ident '{' Field* '}'`
pub open spec fn parse_message_spec(ts: Seq<TokenView>, pos: int) -> Result<
    (MessageView, int),
    SyntaxError,
> {
    match expect(ts, pos, TokenKind::Message) {
        Err(e) => Err(e),
        Ok(after_keyword) => match expect_identifier(ts, after_keyword) {
            Err(e) => Err(e),
            Ok((name, after_name)) => match expect(ts, after_name, TokenKind::LeftBrace) {
                Err(e) => Err(e),
                Ok(after_brace) => match parse_fields_spec(ts, after_brace, Seq::empty()) {
                    Err(e) => Err(e),
                    Ok((fields, after_fields)) => match expect(
                        ts,
                        after_fields,
                        TokenKind::RightBrace,
                    ) {
                        Err(e) => Err(e),
                        Ok(next) => Ok((MessageView { name, fields }, next)),
                    },
                },
            },
        },
    }
}

/// `Variant := Ident '=' IntLit ';'`
pub open spec fn parse_variant_spec(ts: Seq<TokenView>, pos: int) -> Result<
    (EnumVariantView, int),
    SyntaxError,
> {
    match expect_identifier(ts, pos) {
        Err(e) => Err(e),
        Ok((name, after_name)) => match expect(ts, after_name, TokenKind::Equals) {
            Err(e) => Err(e),
            Ok(after_equals) => match expect_integer(ts, after_equals) {
                Err(e) => Err(e),
                Ok((value, after_value)) => match expect(ts, after_value, TokenKind::Semicolon) {
                    Err(e) => Err(e),
                    Ok(next) => Ok((EnumVariantView { name, value: Some(value) }, next)),
                },
            },
        },
    }
}

/// `Variant*` up to a `}` or the end of the tokens; the variants are
/// appended to `acc`.
pub open spec fn parse_variants_spec(
    ts: Seq<TokenView>,
    pos: int,
    acc: Seq<EnumVariantView>,
) -> Result<(Seq<EnumVariantView>, int), SyntaxError>
    decreases ts.len() - pos,
{
    if pos < 0 || pos >= ts.len() || at_kind(ts, pos, TokenKind::RightBrace) {
        Ok((acc, pos))
    } else {
        match parse_variant_spec(ts, pos) {
            Err(e) => Err(e),
            Ok((variant, next)) => parse_variants_spec(ts, next, acc.push(variant)),
        }
    }
}

/// `Enum := 'enum' Ident '{' Variant* '}'`
pub open spec fn parse_enum_spec(ts: Seq<TokenView>, pos: int) -> Result<
    (EnumView, int),
    SyntaxError,
> {
    match expect(ts, pos, TokenKind::Enum) {
        Err(e) => Err(e),
        Ok(after_keyword) => match expect_identifier(ts, after_keyword) {
            Err(e) => Err(e),
            Ok((name, after_name)) => match expect(ts, after_name, TokenKind::LeftBrace) {
                Err(e) => Err(e),
                Ok(after_brace) => match parse_variants_spec(ts, after_brace, Seq::empty()) {
                    Err(e) => Err(e),
                    Ok((variants, after_variants)) => match expect(
                        ts,
                        after_variants,
                        TokenKind::RightBrace,
                    ) {
                        Err(e) => Err(e),
                        Ok(next) => Ok((EnumView { name, variants }, next)),
                    },
                },
            },
        },
    }
}

/// `Item := Message | Enum`
pub open spec fn parse_item_spec(ts: Seq<TokenView>, pos: int) -> Result<
    (SchemaItemView, int),
    SyntaxError,
> {
    if at_kind(ts, pos, TokenKind::Message) {
        match parse_message_spec(ts, pos) {
            Err(e) => Err(e),
            Ok((message, next)) => Ok((SchemaItemView::Message(message), next)),
        }
    } else if at_kind(ts, pos, TokenKind::Enum) {
        match parse_enum_spec(ts, pos) {
            Err(e) => Err(e),
            Ok((definition, next)) => Ok((SchemaItemView::Enum(definition), next)),
        }
    } else {
        Err(SyntaxError::ExpectedItem)
    }
}

/// The fields of a message, where they parse, end at or behind their start.
pub proof fn lemma_parse_fields_advances(ts: Seq<TokenView>, pos: int, acc: Seq<FieldView>)
    requires
        0 <= pos,
    ensures
        parse_fields_spec(ts, pos, acc) matches Ok((_, next)) ==> pos <= next,
    decreases ts.len() - pos,
{
    if !(pos >= ts.len() || at_kind(ts, pos, TokenKind::RightBrace)) {
        lemma_parse_field_advances(ts, pos);
        match parse_field_spec(ts, pos) {
            Err(_) => {},
            Ok((field, after_field)) => {
                let next = if at_kind(ts, after_field, TokenKind::Comma) {
                    after_field + 1
                } else {
                    after_field
                };
                lemma_parse_fields_advances(ts, next, acc.push(field));
            },
        }
    }
}

/// The variants of an enum, where they parse, end at or behind their start.
pub proof fn lemma_parse_variants_advances(
    ts: Seq<TokenView>,
    pos: int,
    acc: Seq<EnumVariantView>,
)
    requires
        0 <= pos,
    ensures
        parse_variants_spec(ts, pos, acc) matches Ok((_, next)) ==> pos <= next,
    decreases ts.len() - pos,
{
    if !(pos >= ts.len() || at_kind(ts, pos, TokenKind::RightBrace)) {
        match parse_variant_spec(ts, pos) {
            Err(_) => {},
            Ok((variant, next)) => {
                lemma_parse_variants_advances(ts, next, acc.push(variant));
            },
        }
    }
}

/// An item, where it parses, ends behind its start.
pub proof fn lemma_parse_item_advances(ts: Seq<TokenView>, pos: int)
    requires
        0 <= pos,
    ensures
        parse_item_spec(ts, pos) matches Ok((_, next)) ==> pos < next,
{
    lemma_parse_fields_advances(ts, pos + 3, Seq::empty());
    lemma_parse_variants_advances(ts, pos + 3, Seq::empty());
}

/// `Item*` to the end of the tokens; the items are appended to `acc`.
pub open spec fn parse_items_spec(ts: Seq<TokenView>, pos: int, acc: Seq<SchemaItemView>) -> Result<
    Seq<SchemaItemView>,
    SyntaxError,
>
    decreases ts.len() - pos,
{
    if pos < 0 || pos >= ts.len() {
        Ok(acc)
    } else {
        proof {
            lemma_parse_item_advances(ts, pos);
        }
        match parse_item_spec(ts, pos) {
            Err(e) => Err(e),
            Ok((item, next)) => parse_items_spec(ts, next, acc.push(item)),
        }
    }
}

/// `Schema := Item*`: the schema that a token stream denotes.
pub open spec fn parse_tokens_spec(ts: Seq<TokenView>) -> Result<SchemaView, SyntaxError> {
    match parse_items_spec(ts, 0, Seq::empty()) {
        Err(e) => Err(e),
        Ok(items) => Ok(SchemaView { items }),
    }
}

/// The schema that a text denotes, or the first error in it.
pub open spec fn parse_spec(text: Seq<char>) -> Result<SchemaView, SyntaxError> {
    match tokenize_spec(text) {
        Err(e) => Err(e),
        Ok(ts) => parse_tokens_spec(ts),
    }
}

/// The name of a token kind in messages.
pub open spec fn kind_name(kind: TokenKind) -> Seq<char> {
    match kind {
        TokenKind::Identifier => "identifier"@,
        TokenKind::Integer => "integer"@,
        TokenKind::Float => "float"@,
        TokenKind::StringLiteral => "string literal"@,
        TokenKind::Message => "'message'"@,
        TokenKind::Enum => "'enum'"@,
        TokenKind::True => "'true'"@,
        TokenKind::False => "'false'"@,
        TokenKind::Colon => "':'"@,
        TokenKind::Semicolon => "';'"@,
        TokenKind::Comma => "','"@,
        TokenKind::LeftBrace => "'{'"@,
        TokenKind::RightBrace => "'}'"@,
        TokenKind::LeftBracket => "'['"@,
        TokenKind::RightBracket => "']'"@,
        TokenKind::Equals => "'='"@,
        TokenKind::Question => "'?'"@,
    }
}

/// The message of a syntax error.
pub open spec fn syntax_error_message(e: SyntaxError) -> Seq<char> {
    match e {
        SyntaxError::UnexpectedCharacter(c) => "Unexpected character: "@.push(c),
        SyntaxError::IntegerOutOfRange => "Integer literal out of range"@,
        SyntaxError::ExpectedItem => "Expected message or enum"@,
        SyntaxError::ExpectedToken(kind, None) => "Expected "@ + kind_name(kind)
            + ", found end of input"@,
        SyntaxError::ExpectedToken(kind, Some(found)) => "Expected "@ + kind_name(kind)
            + ", found "@ + kind_name(found),
        SyntaxError::ExpectedIdentifier(true) => "Expected identifier, found end of input"@,
        SyntaxError::ExpectedIdentifier(false) => "Expected identifier"@,
        SyntaxError::ExpectedInteger(true) => "Expected integer, found end of input"@,
        SyntaxError::ExpectedInteger(false) => "Expected integer"@,
        SyntaxError::ExpectedDefaultValue(true) => "Expected default value"@,
        SyntaxError::ExpectedDefaultValue(false) =>
            "Expected default value (integer, float, bool, or string)"@,
    }
}

impl TokenKind {
    /// The name of this kind in messages.
    pub fn name(&self) -> (s: &'static str)
        ensures
            s@ == kind_name(*self),
    {
        match self {
            TokenKind::Identifier => "identifier",
            TokenKind::Integer => "integer",
            TokenKind::Float => "float",
            TokenKind::StringLiteral => "string literal",
            TokenKind::Message => "'message'",
            TokenKind::Enum => "'enum'",
            TokenKind::True => "'true'",
            TokenKind::False => "'false'",
            TokenKind::Colon => "':'",
            TokenKind::Semicolon => "';'",
            TokenKind::Comma => "','",
            TokenKind::LeftBrace => "'{'",
            TokenKind::RightBrace => "'}'",
            TokenKind::LeftBracket => "'['",
            TokenKind::RightBracket => "']'",
            TokenKind::Equals => "'='",
            TokenKind::Question => "'?'",
        }
    }
}

impl SyntaxError {
    /// A message for a human reader.
    pub fn message(&self) -> (s: String)
        ensures
            s@ == syntax_error_message(*self),
    {
        match self {
            SyntaxError::UnexpectedCharacter(c) => {
                let mut s = "Unexpected character: ".to_owned();
                crate::text::push_char(&mut s, *c);
                s
            },
            SyntaxError::IntegerOutOfRange => "Integer literal out of range".to_owned(),
            SyntaxError::ExpectedItem => "Expected message or enum".to_owned(),
            SyntaxError::ExpectedToken(kind, None) => {
                let mut s = "Expected ".to_owned();
                s.append(kind.name());
                s.append(", found end of input");
                s
            },
            SyntaxError::ExpectedToken(kind, Some(found)) => {
                let mut s = "Expected ".to_owned();
                s.append(kind.name());
                s.append(", found ");
                s.append(found.name());
                s
            },
            SyntaxError::ExpectedIdentifier(true) => "Expected identifier, found end of input".to_owned(),
            SyntaxError::ExpectedIdentifier(false) => "Expected identifier".to_owned(),
            SyntaxError::ExpectedInteger(true) => "Expected integer, found end of input".to_owned(),
            SyntaxError::ExpectedInteger(false) => "Expected integer".to_owned(),
            SyntaxError::ExpectedDefaultValue(true) => "Expected default value".to_owned(),
            SyntaxError::ExpectedDefaultValue(false) =>
                "Expected default value (integer, float, bool, or string)".to_owned(),
        }
    }
}

/// The type that the name `name` denotes.
fn type_of_name(name: String) -> (t: FieldType)
    ensures
        t@ == named_type(name@),
{
    let s = name.as_str();
    if str_eq(s, "u8") {
        FieldType::Scalar(ScalarType::U8)
    } else if str_eq(s, "u16") {
        FieldType::Scalar(ScalarType::U16)
    } else if str_eq(s, "u32") {
        FieldType::Scalar(ScalarType::U32)
    } else if str_eq(s, "u64") {
        FieldType::Scalar(ScalarType::U64)
    } else if str_eq(s, "i8") {
        FieldType::Scalar(ScalarType::I8)
    } else if str_eq(s, "i16") {
        FieldType::Scalar(ScalarType::I16)
    } else if str_eq(s, "i32") {
        FieldType::Scalar(ScalarType::I32)
    } else if str_eq(s, "i64") {
        FieldType::Scalar(ScalarType::I64)
    } else if str_eq(s, "f32") {
        FieldType::Scalar(ScalarType::F32)
    } else if str_eq(s, "f64") {
        FieldType::Scalar(ScalarType::F64)
    } else if str_eq(s, "bool") {
        FieldType::Scalar(ScalarType::Bool)
    } else if str_eq(s, "string") {
        FieldType::Scalar(ScalarType::String)
    } else if str_eq(s, "bytes") {
        FieldType::Scalar(ScalarType::Bytes)
    } else {
        FieldType::UserDefined(name)
    }
}

/// A recursive-descent parser over a token stream.
struct SchemaParser {
    tokens: Vec<Token>,
    position: usize,
}

impl SchemaParser {
    /// The values of the tokens.
    spec fn ts(&self) -> Seq<TokenView> {
        token_views(self.tokens@)
    }

    /// The position is within the tokens or at their end.
    spec fn wf(&self) -> bool {
        self.position <= self.tokens@.len() <= usize::MAX
    }

    fn new(tokens: Vec<Token>) -> (p: SchemaParser)
        ensures
            p.wf(),
            p.tokens == tokens,
            p.position == 0,
    {
        let _ = tokens.len();
        SchemaParser { tokens, position: 0 }
    }

    fn at_end(&self) -> (b: bool)
        ensures
            b == (self.position >= self.tokens@.len()),
    {
        self.position >= self.tokens.len()
    }

    /// The token at the position.
    fn peek(&self) -> (t: &Token)
        requires
            self.position < self.tokens@.len(),
        ensures
            t@ == self.ts()[self.position as int],
    {
        &self.tokens[self.position]
    }

    /// Whether the token at the position exists and is of kind `kind`.
    fn at(&self, kind: TokenKind) -> (b: bool)
        requires
            self.wf(),
        ensures
            b == at_kind(self.ts(), self.position as int, kind),
    {
        !self.at_end() && self.peek().kind() == kind
    }

    fn consume(&mut self, expected: TokenKind) -> (r: Result<(), SyntaxError>)
        requires
            old(self).wf(),
        ensures
            final(self).tokens == old(self).tokens,
            final(self).wf(),
            match expect(old(self).ts(), old(self).position as int, expected) {
                Ok(next) => r is Ok && final(self).position == next,
                Err(e) => r == Err::<(), SyntaxError>(e),
            },
    {
        if self.at_end() {
            return Err(SyntaxError::ExpectedToken(expected, None));
        }
        let found = self.peek().kind();
        if found == expected {
            self.position += 1;
            Ok(())
        } else {
            Err(SyntaxError::ExpectedToken(expected, Some(found)))
        }
    }

    fn consume_identifier(&mut self) -> (r: Result<String, SyntaxError>)
        requires
            old(self).wf(),
        ensures
            final(self).tokens == old(self).tokens,
            final(self).wf(),
            match expect_identifier(old(self).ts(), old(self).position as int) {
                Ok((name, next)) => r matches Ok(s) && s@ == name && final(self).position == next,
                Err(e) => r matches Err(x) && x == e,
            },
    {
        if self.at_end() {
            return Err(SyntaxError::ExpectedIdentifier(true));
        }
        match &self.tokens[self.position] {
            Token::Identifier(name) => {
                let name = name.clone();
                self.position += 1;
                Ok(name)
            },
            _ => Err(SyntaxError::ExpectedIdentifier(false)),
        }
    }

    fn consume_integer(&mut self) -> (r: Result<i64, SyntaxError>)
        requires
            old(self).wf(),
        ensures
            final(self).tokens == old(self).tokens,
            final(self).wf(),
            match expect_integer(old(self).ts(), old(self).position as int) {
                Ok((value, next)) => r matches Ok(v) && v == value && final(self).position == next,
                Err(e) => r matches Err(x) && x == e,
            },
    {
        if self.at_end() {
            return Err(SyntaxError::ExpectedInteger(true));
        }
        match &self.tokens[self.position] {
            Token::Integer(value) => {
                let value = *value;
                self.position += 1;
                Ok(value)
            },
            _ => Err(SyntaxError::ExpectedInteger(false)),
        }
    }

    fn parse_type(&mut self) -> (r: Result<FieldType, SyntaxError>)
        requires
            old(self).wf(),
        ensures
            final(self).tokens == old(self).tokens,
            final(self).wf(),
            match parse_type_spec(old(self).ts(), old(self).position as int) {
                Ok((t, next)) => r matches Ok(x) && x@ == t && final(self).position == next,
                Err(e) => r matches Err(x) && x == e,
            },
        decreases old(self).tokens@.len() - old(self).position,
    {
        if self.at(TokenKind::LeftBracket) {
            self.position += 1;
            let inner = match self.parse_type() {
                Ok(inner) => inner,
                Err(e) => {
                    return Err(e);
                },
            };
            match self.consume(TokenKind::RightBracket) {
                Ok(()) => Ok(FieldType::Vector(Box::new(inner))),
                Err(e) => Err(e),
            }
        } else {
            match self.consume_identifier() {
                Ok(name) => Ok(type_of_name(name)),
                Err(e) => Err(e),
            }
        }
    }

    fn parse_default_value(&mut self) -> (r: Result<DefaultValue, SyntaxError>)
        requires
            old(self).wf(),
        ensures
            final(self).tokens == old(self).tokens,
            final(self).wf(),
            match parse_default_spec(old(self).ts(), old(self).position as int) {
                Ok((d, next)) => r matches Ok(x) && x@ == d && final(self).position == next,
                Err(e) => r matches Err(x) && x == e,
            },
    {
        if self.at_end() {
            return Err(SyntaxError::ExpectedDefaultValue(true));
        }
        let value = match &self.tokens[self.position] {
            Token::Integer(v) => DefaultValue::Integer(*v),
            Token::Float(text) => DefaultValue::Float(text.clone()),
            Token::True => DefaultValue::Bool(true),
            Token::False => DefaultValue::Bool(false),
            Token::StringLiteral(text) => DefaultValue::String(text.clone()),
            _ => {
                return Err(SyntaxError::ExpectedDefaultValue(false));
            },
        };
        self.position += 1;
        Ok(value)
    }

    fn parse_field(&mut self) -> (r: Result<Field, SyntaxError>)
        requires
            old(self).wf(),
        ensures
            final(self).tokens == old(self).tokens,
            final(self).wf(),
            match parse_field_spec(old(self).ts(), old(self).position as int) {
                Ok((f, next)) => r matches Ok(x) && x@ == f && final(self).position == next,
                Err(e) => r matches Err(x) && x == e,
            },
    {
        let name = match self.consume_identifier() {
            Ok(name) => name,
            Err(e) => {
                return Err(e);
            },
        };
        match self.consume(TokenKind::Colon) {
            Ok(()) => {},
            Err(e) => {
                return Err(e);
            },
        }
        let field_type = match self.parse_type() {
            Ok(t) => t,
            Err(e) => {
                return Err(e);
            },
        };
        let optional = self.at(TokenKind::Question);
        if optional {
            self.position += 1;
        }
        let default_value = if self.at(TokenKind::Equals) {
            self.position += 1;
            match self.parse_default_value() {
                Ok(d) => Some(d),
                Err(e) => {
                    return Err(e);
                },
            }
        } else {
            None
        };
        match self.consume(TokenKind::Semicolon) {
            Ok(()) => {},
            Err(e) => {
                return Err(e);
            },
        }
        Ok(Field { name, field_type, optional, default_value })
    }

    fn parse_message_fields(&mut self) -> (r: Result<Vec<Field>, SyntaxError>)
        requires
            old(self).wf(),
        ensures
            final(self).tokens == old(self).tokens,
            final(self).wf(),
            match parse_fields_spec(old(self).ts(), old(self).position as int, Seq::empty()) {
                Ok((fields, next)) => r matches Ok(v) && v@.map_values(|f: Field| f@) == fields
                    && final(self).position == next,
                Err(e) => r matches Err(x) && x == e,
            },
    {
        let mut fields: Vec<Field> = Vec::new();
        assert(fields@.map_values(|f: Field| f@) =~= Seq::empty());
        while !self.at_end() && !self.at(TokenKind::RightBrace)
            invariant
                self.wf(),
                self.tokens == old(self).tokens,
                parse_fields_spec(old(self).ts(), old(self).position as int, Seq::empty())
                    == parse_fields_spec(
                    self.ts(),
                    self.position as int,
                    fields@.map_values(|f: Field| f@),
                ),
            decreases self.tokens@.len() - self.position,
        {
            let ghost before = fields@.map_values(|f: Field| f@);
            proof {
                lemma_parse_field_advances(self.ts(), self.position as int);
            }
            match self.parse_field() {
                Err(e) => {
                    return Err(e);
                },
                Ok(field) => {
                    proof {
                        assert(fields@.push(field).map_values(|f: Field| f@) =~= before.push(
                            field@,
                        ));
                    }
                    fields.push(field);
                },
            }
            if self.at(TokenKind::Comma) {
                self.position += 1;
            }
        }
        Ok(fields)
    }

    fn parse_message(&mut self) -> (r: Result<SchemaItem, SyntaxError>)
        requires
            old(self).wf(),
        ensures
            final(self).tokens == old(self).tokens,
            final(self).wf(),
            match parse_message_spec(old(self).ts(), old(self).position as int) {
                Ok((m, next)) => r matches Ok(x) && x@ == SchemaItemView::Message(m)
                    && final(self).position == next,
                Err(e) => r matches Err(x) && x == e,
            },
    {
        match self.consume(TokenKind::Message) {
            Ok(()) => {},
            Err(e) => {
                return Err(e);
            },
        }
        let name = match self.consume_identifier() {
            Ok(name) => name,
            Err(e) => {
                return Err(e);
            },
        };
        match self.consume(TokenKind::LeftBrace) {
            Ok(()) => {},
            Err(e) => {
                return Err(e);
            },
        }
        let fields = match self.parse_message_fields() {
            Ok(fields) => fields,
            Err(e) => {
                return Err(e);
            },
        };
        match self.consume(TokenKind::RightBrace) {
            Ok(()) => {},
            Err(e) => {
                return Err(e);
            },
        }
        Ok(SchemaItem::Message(Message { name, fields }))
    }

    fn parse_enum_variant(&mut self) -> (r: Result<EnumVariant, SyntaxError>)
        requires
            old(self).wf(),
        ensures
            final(self).tokens == old(self).tokens,
            final(self).wf(),
            match parse_variant_spec(old(self).ts(), old(self).position as int) {
                Ok((v, next)) => r matches Ok(x) && x@ == v && final(self).position == next
                    && next > old(self).position,
                Err(e) => r matches Err(x) && x == e,
            },
    {
        let name = match self.consume_identifier() {
            Ok(name) => name,
            Err(e) => {
                return Err(e);
            },
        };
        match self.consume(TokenKind::Equals) {
            Ok(()) => {},
            Err(e) => {
                return Err(e);
            },
        }
        let value = match self.consume_integer() {
            Ok(value) => value,
            Err(e) => {
                return Err(e);
            },
        };
        match self.consume(TokenKind::Semicolon) {
            Ok(()) => {},
            Err(e) => {
                return Err(e);
            },
        }
        Ok(EnumVariant { name, value: Some(value) })
    }

    fn parse_enum_variants(&mut self) -> (r: Result<Vec<EnumVariant>, SyntaxError>)
        requires
            old(self).wf(),
        ensures
            final(self).tokens == old(self).tokens,
            final(self).wf(),
            match parse_variants_spec(old(self).ts(), old(self).position as int, Seq::empty()) {
                Ok((variants, next)) => r matches Ok(v) && v@.map_values(|x: EnumVariant| x@)
                    == variants && final(self).position == next,
                Err(e) => r matches Err(x) && x == e,
            },
    {
        let mut variants: Vec<EnumVariant> = Vec::new();
        assert(variants@.map_values(|v: EnumVariant| v@) =~= Seq::empty());
        while !self.at_end() && !self.at(TokenKind::RightBrace)
            invariant
                self.wf(),
                self.tokens == old(self).tokens,
                parse_variants_spec(old(self).ts(), old(self).position as int, Seq::empty())
                    == parse_variants_spec(
                    self.ts(),
                    self.position as int,
                    variants@.map_values(|v: EnumVariant| v@),
                ),
            decreases self.tokens@.len() - self.position,
        {
            let ghost before = variants@.map_values(|v: EnumVariant| v@);
            match self.parse_enum_variant() {
                Err(e) => {
                    return Err(e);
                },
                Ok(variant) => {
                    proof {
                        assert(variants@.push(variant).map_values(|v: EnumVariant| v@)
                            =~= before.push(variant@));
                    }
                    variants.push(variant);
                },
            }
        }
        Ok(variants)
    }

    fn parse_enum(&mut self) -> (r: Result<SchemaItem, SyntaxError>)
        requires
            old(self).wf(),
        ensures
            final(self).tokens == old(self).tokens,
            final(self).wf(),
            match parse_enum_spec(old(self).ts(), old(self).position as int) {
                Ok((e, next)) => r matches Ok(x) && x@ == SchemaItemView::Enum(e)
                    && final(self).position == next,
                Err(e) => r matches Err(x) && x == e,
            },
    {
        match self.consume(TokenKind::Enum) {
            Ok(()) => {},
            Err(e) => {
                return Err(e);
            },
        }
        let name = match self.consume_identifier() {
            Ok(name) => name,
            Err(e) => {
                return Err(e);
            },
        };
        match self.consume(TokenKind::LeftBrace) {
            Ok(()) => {},
            Err(e) => {
                return Err(e);
            },
        }
        let variants = match self.parse_enum_variants() {
            Ok(variants) => variants,
            Err(e) => {
                return Err(e);
            },
        };
        match self.consume(TokenKind::RightBrace) {
            Ok(()) => {},
            Err(e) => {
                return Err(e);
            },
        }
        Ok(SchemaItem::Enum(Enum { name, variants }))
    }

    /// Parses the whole token stream.
    fn parse(&mut self) -> (r: Result<Schema, SyntaxError>)
        requires
            old(self).wf(),
            old(self).position == 0,
        ensures
            match parse_tokens_spec(old(self).ts()) {
                Ok(schema) => r matches Ok(x) && x@ == schema,
                Err(e) => r matches Err(x) && x == e,
            },
    {
        let mut items: Vec<SchemaItem> = Vec::new();
        assert(items@.map_values(|i: SchemaItem| i@) =~= Seq::empty());
        while !self.at_end()
            invariant
                self.wf(),
                self.tokens == old(self).tokens,
                parse_items_spec(old(self).ts(), 0, Seq::empty()) == parse_items_spec(
                    self.ts(),
                    self.position as int,
                    items@.map_values(|i: SchemaItem| i@),
                ),
            decreases self.tokens@.len() - self.position,
        {
            let ghost before = items@.map_values(|i: SchemaItem| i@);
            proof {
                lemma_parse_item_advances(self.ts(), self.position as int);
            }
            let parsed = if self.at(TokenKind::Message) {
                self.parse_message()
            } else if self.at(TokenKind::Enum) {
                self.parse_enum()
            } else {
                Err(SyntaxError::ExpectedItem)
            };
            match parsed {
                Err(e) => {
                    return Err(e);
                },
                Ok(item) => {
                    proof {
                        assert(items@.push(item).map_values(|i: SchemaItem| i@) =~= before.push(
                            item@,
                        ));
                    }
                    items.push(item);
                },
            }
        }
        Ok(Schema { items })
    }
}

/// Parses a token stream into a schema.
pub fn parse_tokens(tokens: Vec<Token>) -> (r: Result<Schema, SyntaxError>)
    ensures
        match parse_tokens_spec(token_views(tokens@)) {
            Ok(schema) => r matches Ok(x) && x@ == schema,
            Err(e) => r matches Err(x) && x == e,
        },
{
    let mut parser = SchemaParser::new(tokens);
    parser.parse()
}

/// Parses a schema text.
///
/// Returns the schema that [`parse_spec`] defines for the text, or a
/// `Parse` error that carries the message of the first syntax error.
pub fn parse(input: &str) -> (r: Result<Schema, CompilerError>)
    ensures
        match parse_spec(input@) {
            Ok(schema) => r matches Ok(x) && x@ == schema,
            Err(e) => r matches Err(CompilerError::Parse(message)) && message@
                == syntax_error_message(e),
        },
{
    let tokens = match tokenize(input) {
        Ok(tokens) => tokens,
        Err(e) => {
            return Err(CompilerError::Parse(e.message()));
        },
    };
    match parse_tokens(tokens) {
        Ok(schema) => Ok(schema),
        Err(e) => Err(CompilerError::Parse(e.message())),
    }
}

} // verus!
