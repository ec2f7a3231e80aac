use vstd::prelude::*;

use crate::language::Language;

verus! {

/// What a symbol is: the kinds that the queries extract, plus the semantic
/// kinds (component, hook, test) assigned after extraction.
#[derive(Debug, Clone, Copy, PartialEq, Eq, Structural)]
pub enum SymbolKind {
    Function,
    Method,
    Class,
    Struct,
    Enum,
    Interface,
    Type,
    Constant,
    Module,
    Trait,
    Component,
    Hook,
    Test,
}

/// The short name of a kind, as shown in the listing and accepted by `--kind`.
pub open spec fn kind_short_name(k: SymbolKind) -> Seq<char> {
    match k {
        SymbolKind::Function => "fn"@,
        SymbolKind::Method => "method"@,
        SymbolKind::Class => "class"@,
        SymbolKind::Struct => "struct"@,
        SymbolKind::Enum => "enum"@,
        SymbolKind::Interface => "interface"@,
        SymbolKind::Type => "type"@,
        SymbolKind::Constant => "const"@,
        SymbolKind::Module => "mod"@,
        SymbolKind::Trait => "trait"@,
        SymbolKind::Component => "component"@,
        SymbolKind::Hook => "hook"@,
        SymbolKind::Test => "test"@,
    }
}

/// The ANSI color code of a kind.
pub open spec fn kind_color_code(k: SymbolKind) -> Seq<char> {
    match k {
        SymbolKind::Function | SymbolKind::Method => "35"@,
        SymbolKind::Class | SymbolKind::Struct | SymbolKind::Enum | SymbolKind::Component => "36"@,
        SymbolKind::Interface | SymbolKind::Type | SymbolKind::Trait => "34"@,
        SymbolKind::Constant | SymbolKind::Hook => "33"@,
        SymbolKind::Module | SymbolKind::Test => "32"@,
    }
}

impl SymbolKind {
    pub fn short_name(self) -> (r: &'static str)
        ensures
            r@ == kind_short_name(self),
    {
        match self {
            SymbolKind::Function => "fn",
            SymbolKind::Method => "method",
            SymbolKind::Class => "class",
            SymbolKind::Struct => "struct",
            SymbolKind::Enum => "enum",
            SymbolKind::Interface => "interface",
            SymbolKind::Type => "type",
            SymbolKind::Constant => "const",
            SymbolKind::Module => "mod",
            SymbolKind::Trait => "trait",
            SymbolKind::Component => "component",
            SymbolKind::Hook => "hook",
            SymbolKind::Test => "test",
        }
    }

    pub fn color_code(self) -> (r: &'static str)
        ensures
            r@ == kind_color_code(self),
    {
        match self {
            SymbolKind::Function | SymbolKind::Method => "35",
            SymbolKind::Class | SymbolKind::Struct | SymbolKind::Enum | SymbolKind::Component => "36",
            SymbolKind::Interface | SymbolKind::Type | SymbolKind::Trait => "34",
            SymbolKind::Constant | SymbolKind::Hook => "33",
            SymbolKind::Module | SymbolKind::Test => "32",
        }
    }
}

/// Whether a symbol is exported from its module or file.
#[derive(Debug, Clone, Copy, PartialEq, Eq, Structural)]
pub enum Visibility {
    Public,
    Private,
}

/// One symbol found in a source file.
///
/// `line`, `end_line` and `col` are 1-based; `col` counts bytes.
#[derive(Debug)]
pub struct Symbol {
    pub name: String,
    pub kind: SymbolKind,
    pub lang: Language,
    pub file: String,
    pub line: usize,
    pub end_line: usize,
    pub col: usize,
    pub signature: String,
    pub visibility: Option<Visibility>,
}

} // verus!
