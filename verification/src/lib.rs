//! Parsing, writing, validating and expanding Webots PROTO documents.
pub mod ast;
pub mod text;
pub mod lexer;
pub mod error;
pub mod header;
pub mod parser_spec;
pub mod parser;
pub mod writer;
pub mod document;
pub mod builtin_nodes;
pub mod schema;
pub mod diagnostics;
pub mod validation_spec;
pub mod validation;
pub mod resolver;
pub mod r2025a;
pub mod expand_spec;
pub mod expand;
pub mod json;
pub mod conversion_spec;
pub mod number;
pub mod conversion;
pub mod canonical;
pub mod builders;
pub mod canonical_declarations;
pub mod builtin_names;
