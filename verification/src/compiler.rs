//! The schema compiler from text to intermediate representation.

use vstd::prelude::*;
use vstd::string::*;
use crate::errors::CompilerError;
use crate::ir::{lower_ast, lower_spec, IrSchema};
use crate::parser::{parse, parse_spec, syntax_error_message};
use crate::validator::{issue_message, schema_well_formed, validate, validate_spec};

verus! {

/// Compiles a schema text: parses it, validates the schema and lowers it.
///
/// The first syntax error is returned as a `Parse` error and the first
/// rule that the schema breaks as a `Validation` error; otherwise the
/// result is the lowered form of the schema that the text denotes.
pub fn compile_source(input: &str) -> (r: Result<IrSchema, CompilerError>)
    ensures
        match parse_spec(input@) {
            Err(e) => r matches Err(CompilerError::Parse(message)) && message@
                == syntax_error_message(e),
            Ok(schema) => match validate_spec(schema) {
                Some(issue) => r matches Err(CompilerError::Validation(message)) && message@
                    == issue_message(issue),
                None => r matches Ok(ir) && ir@ == lower_spec(schema) && schema_well_formed(
                    schema,
                ),
            },
        },
{
    let schema = match parse(input) {
        Ok(schema) => schema,
        Err(e) => {
            return Err(e);
        },
    };
    match validate(&schema) {
        Ok(()) => {},
        Err(e) => {
            return Err(e);
        },
    }
    Ok(lower_ast(&schema))
}

} // verus!
