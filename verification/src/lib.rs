//! Zero-copy binary serialization: a wire codec for self-describing message
//! buffers and the semantic phases of the schema compiler that targets it.
//!
//! The codec: [`MessageBuilder`] makes a buffer, [`MessageReader`] reads
//! one, and the module `roundtrip` proves that what is written is read
//! back. The compiler: `parser::parse`, `validator::validate` and
//! `ir::lower_ast`, each with its result defined as a function of its
//! input.

pub mod ast;
pub mod builder;
pub mod codec;
pub mod codegen;
pub mod compiler;
pub mod errors;
pub mod inspect;
pub mod ir;
pub mod lexer;
pub mod parser;
pub mod primitives;
pub mod reader;
pub mod roundtrip;
pub mod search;
pub mod text;
pub mod validator;
pub mod vector;

pub use builder::{MessageBuilder, VectorBuilder, FIELD_ENTRY_SIZE, MAX_FIELDS};
pub use codec::{F32Bits, F64Bits, ZpRead, ZpScalar, ZpType, ZpWrite, ENDIANNESS};
pub use compiler::compile_source;
pub use errors::{CompilerError, Error};
pub use parser::parse;
pub use primitives::{Endian, PrimitiveType};
pub use reader::{MessageReader, VectorReader};
pub use validator::validate;
pub use vector::{Vector, VectorUtils};
