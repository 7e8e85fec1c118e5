//! Log-coverage analysis for C/C++ sources.
//!
//! The library measures how much of a codebase's control flow (functions,
//! branches, exception handling) is accompanied by logging calls. It works
//! in three stages, each specified and verified here: extraction of
//! structural facts from a parsed syntax tree, identification of logging
//! call sites in the same tree, and computation of coverage by correlating
//! call sites against structural facts.
//!
//! Parsing, file enumeration and report rendering live outside the library;
//! they hand in plain values ([`ast::AstNode`] trees, path strings) and take
//! plain values back.

pub mod ast;
pub mod config;
pub mod coverage;
pub mod extractor;
pub mod log_identifier;
pub mod path_utils;
pub mod source_scan;
pub mod string_utils;
