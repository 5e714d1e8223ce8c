//! Assembling generated source text.
//!
//! The text of readers and builders comes from an emitter outside this
//! library; what is decided here is the constants of a message and the
//! order and spacing in which the pieces of a module follow each other.

use vstd::prelude::*;
use vstd::string::*;
use crate::ir::{field_offsets, sizes_before, IrMessage, IrMessageView, IrUtils};
use crate::text::{decimal, push_decimal};

verus! {

/// The line that declares one offset constant.
pub open spec fn constant_line(name: Seq<char>, offset: int) -> Seq<char> {
    "pub const "@ + name + ": usize = "@ + decimal(offset as nat) + ";\n"@
}

/// The lines that declare the first `n` of `offsets`.
pub open spec fn constant_lines(offsets: Seq<(Seq<char>, int)>, n: int) -> Seq<char>
    decreases n,
{
    if n <= 0 {
        Seq::empty()
    } else {
        constant_lines(offsets, n - 1) + constant_line(offsets[n - 1].0, offsets[n - 1].1)
    }
}

/// The declarations of the offset constants of a message, one line each.
pub open spec fn constants_text(m: IrMessageView) -> Seq<char> {
    constant_lines(field_offsets(m), m.fields.len() as int)
}

/// The text of a message: its constants, its reader and its builder, a
/// blank line between them.
pub open spec fn message_text(m: IrMessageView, reader: Seq<char>, builder: Seq<char>) -> Seq<char> {
    constants_text(m) + "\n\n"@ + reader + "\n\n"@ + builder
}

/// The first `n` of `blocks`, each followed by a blank line.
pub open spec fn blocks_text(blocks: Seq<Seq<char>>, n: int) -> Seq<char>
    decreases n,
{
    if n <= 0 {
        Seq::empty()
    } else {
        blocks_text(blocks, n - 1) + blocks[n - 1] + "\n\n"@
    }
}

/// The text of a module: the import of the runtime, then the enums, then
/// the messages, each followed by a blank line.
pub open spec fn module_text(enums: Seq<Seq<char>>, messages: Seq<Seq<char>>) -> Seq<char> {
    "use zeroproto::*;\n\n"@ + blocks_text(enums, enums.len() as int) + blocks_text(
        messages,
        messages.len() as int,
    )
}

/// The declarations of the first `n` of `names` as public modules, one
/// line each.
pub open spec fn module_lines(names: Seq<Seq<char>>, n: int) -> Seq<char>
    decreases n,
{
    if n <= 0 {
        Seq::empty()
    } else {
        module_lines(names, n - 1) + "pub mod "@ + names[n - 1] + ";\n"@
    }
}

/// The texts of a list of strings.
pub open spec fn string_views(strings: Seq<String>) -> Seq<Seq<char>> {
    strings.map_values(|s: String| s@)
}

/// The declarations of the offset constants of a message.
pub fn generate_constants(message: &IrMessage) -> (code: String)
    requires
        2 + 5 * message@.fields.len() + sizes_before(message@.fields, message@.fields.len() as int)
            <= usize::MAX,
    ensures
        code@ == constants_text(message@),
{
    let offsets = IrUtils::generate_field_offsets(message);
    let ghost expected = field_offsets(message@);
    let mut code = String::new();
    let mut i: usize = 0;
    assert(offsets@.len() == expected.len());
    while i < offsets.len()
        invariant
            i <= offsets@.len() == expected.len(),
            crate::ir::offset_views(offsets@) == expected,
            code@ == constant_lines(expected, i as int),
        decreases offsets@.len() - i,
    {
        code.append("pub const ");
        code.append(offsets[i].0.as_str());
        code.append(": usize = ");
        push_decimal(&mut code, offsets[i].1 as u64);
        code.append(";\n");
        i += 1;
    }
    code
}

/// The text of a message, from the text of its reader and of its builder.
pub fn generate_message(message: &IrMessage, reader_code: &str, builder_code: &str) -> (code: String)
    requires
        2 + 5 * message@.fields.len() + sizes_before(message@.fields, message@.fields.len() as int)
            <= usize::MAX,
    ensures
        code@ == message_text(message@, reader_code@, builder_code@),
{
    let mut code = generate_constants(message);
    code.append("\n\n");
    code.append(reader_code);
    code.append("\n\n");
    code.append(builder_code);
    code
}

/// Appends `blocks`, each followed by a blank line.
fn append_blocks(code: &mut String, blocks: &Vec<String>)
    ensures
        final(code)@ == old(code)@ + blocks_text(string_views(blocks@), blocks@.len() as int),
{
    let ghost texts = string_views(blocks@);
    let mut i: usize = 0;
    while i < blocks.len()
        invariant
            i <= blocks@.len(),
            texts == string_views(blocks@),
            code@ == old(code)@ + blocks_text(texts, i as int),
        decreases blocks@.len() - i,
    {
        code.append(blocks[i].as_str());
        code.append("\n\n");
        i += 1;
    }
}

/// The text of a module, from the texts of its enums and of its messages.
pub fn generate_rust_code(enum_blocks: &Vec<String>, message_blocks: &Vec<String>) -> (code: String)
    ensures
        code@ == module_text(string_views(enum_blocks@), string_views(message_blocks@)),
{
    let mut code = "use zeroproto::*;\n\n".to_owned();
    append_blocks(&mut code, enum_blocks);
    append_blocks(&mut code, message_blocks);
    code
}

/// The text of the module file of a directory of generated code: one
/// public module for each of `module_names`, in their order.
pub fn generate_mod_rs(module_names: &Vec<String>) -> (code: String)
    ensures
        code@ == module_lines(string_views(module_names@), module_names@.len() as int),
{
    let ghost names = string_views(module_names@);
    let mut code = String::new();
    let mut i: usize = 0;
    while i < module_names.len()
        invariant
            i <= module_names@.len(),
            names == string_views(module_names@),
            code@ == module_lines(names, i as int),
        decreases module_names@.len() - i,
    {
        code.append("pub mod ");
        code.append(module_names[i].as_str());
        code.append(";\n");
        i += 1;
    }
    code
}

} // verus!
