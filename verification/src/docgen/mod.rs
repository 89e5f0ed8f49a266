//! Docgen: symbols harvested from Rust sources and the documentation
//! formats rendered from them (tomllm, rustdoc comment blocks, HTML).
//!
//! Walking a directory and reading files is I/O and stays with the caller;
//! this module holds the symbol model, the selection of symbols from a
//! parsed file, and everything computed from them.
use vstd::prelude::*;

pub mod format;
pub mod harvest;

verus! {

/// The kind of a harvested symbol.
#[derive(Debug, Clone, Copy, PartialEq, Eq, Structural)]
pub enum SymbolKind {
    Function,
    Struct,
    Enum,
    Trait,
    Type,
    Macro,
    Mod,
    Const,
    Static,
}

/// The keyword that names a symbol kind in every output format.
pub open spec fn kind_name(k: SymbolKind) -> Seq<char> {
    match k {
        SymbolKind::Function => "fn"@,
        SymbolKind::Struct => "struct"@,
        SymbolKind::Enum => "enum"@,
        SymbolKind::Trait => "trait"@,
        SymbolKind::Type => "type"@,
        SymbolKind::Macro => "macro"@,
        SymbolKind::Mod => "mod"@,
        SymbolKind::Const => "const"@,
        SymbolKind::Static => "static"@,
    }
}

impl SymbolKind {
    /// The keyword for this kind (`fn`, `struct`, ...).
    pub fn as_str(&self) -> (r: &'static str)
        ensures
            r@ == kind_name(*self),
    {
        match self {
            SymbolKind::Function => "fn",
            SymbolKind::Struct => "struct",
            SymbolKind::Enum => "enum",
            SymbolKind::Trait => "trait",
            SymbolKind::Type => "type",
            SymbolKind::Macro => "macro",
            SymbolKind::Mod => "mod",
            SymbolKind::Const => "const",
            SymbolKind::Static => "static",
        }
    }
}

/// A harvested code symbol (function, struct, enum, trait, ...).
#[derive(Debug, Clone, PartialEq, Eq)]
pub struct Symbol {
    pub name: String,
    pub qualified_name: String,
    pub file_path: String,
    pub kind: SymbolKind,
    pub signature: String,
    pub return_type: String,
    pub start_line: Option<u64>,
    pub complexity: Option<u64>,
    pub docstring: String,
}

} // verus!
