use vstd::prelude::*;

use crate::custom::{kind_for_name, CustomLang};
use crate::filters::{sentinel_langs_spec, sentinel_names, custom_shorts, kind_names, lang_names, passes_filters, builtin_lang_names};
use crate::language::{builtin_for_extension, builtin_short_name, language_color_code, language_for_extension, language_short_name, Language};
use crate::parser::{bare_name, enclosing_name, field_text, parent_name, visibility_of, is_hook_name, extracted, extraction_of, finished_from, is_dedup_of, lang_in, pos_before, same_pos, semantic_kind, sound_symbol, reclassified, from_first, first_at, has_elem};
use crate::output::{
    colored_head, lemma_color_codes, lemma_kind_name_no_escape, lemma_pad_no_escape,
    lemma_strip_concat, lemma_strip_digits, lemma_strip_pieces, lemma_strip_plain,
    lemma_tail_no_escape, line_tail, no_escape, pad_right, plain_head, strip_ansi, strip_from,
    symbol_line, vis_tag_colored,
};
use crate::queries::Catalog;
use crate::symbol::{kind_color_code, kind_short_name, Symbol, SymbolKind, Visibility};
use crate::syntax::{arena_wf, parent_spec, SyntaxNode};
use crate::text::has_prefix;

verus! {

/// The short name of every built-in language is one of its file
/// extensions: looking it up gives the language back.
pub proof fn law_builtin_short_name_is_extension(custom: Seq<CustomLang>, l: Language)
    requires
        !(l is Custom),
    ensures
        language_for_extension(custom, builtin_short_name(l)) == Some(l),
{
    reveal_strlit("rs");
    assert("rs"@.len() == 2 && "rs"@[0] == 'r' && "rs"@[1] == 's');
    reveal_strlit("ts");
    assert("ts"@.len() == 2 && "ts"@[0] == 't' && "ts"@[1] == 's');
    reveal_strlit("cts");
    assert("cts"@.len() == 3 && "cts"@[0] == 'c' && "cts"@[1] == 't' && "cts"@[2] == 's');
    reveal_strlit("mts");
    assert("mts"@.len() == 3 && "mts"@[0] == 'm' && "mts"@[1] == 't' && "mts"@[2] == 's');
    reveal_strlit("tsx");
    assert("tsx"@.len() == 3 && "tsx"@[0] == 't' && "tsx"@[1] == 's' && "tsx"@[2] == 'x');
    reveal_strlit("js");
    assert("js"@.len() == 2 && "js"@[0] == 'j' && "js"@[1] == 's');
    reveal_strlit("cjs");
    assert("cjs"@.len() == 3 && "cjs"@[0] == 'c' && "cjs"@[1] == 'j' && "cjs"@[2] == 's');
    reveal_strlit("mjs");
    assert("mjs"@.len() == 3 && "mjs"@[0] == 'm' && "mjs"@[1] == 'j' && "mjs"@[2] == 's');
    reveal_strlit("jsx");
    assert("jsx"@.len() == 3 && "jsx"@[0] == 'j' && "jsx"@[1] == 's' && "jsx"@[2] == 'x');
    reveal_strlit("go");
    assert("go"@.len() == 2 && "go"@[0] == 'g' && "go"@[1] == 'o');
    reveal_strlit("py");
    assert("py"@.len() == 2 && "py"@[0] == 'p' && "py"@[1] == 'y');
    reveal_strlit("pyi");
    assert("pyi"@.len() == 3 && "pyi"@[0] == 'p' && "pyi"@[1] == 'y' && "pyi"@[2] == 'i');
    reveal_strlit("c");
    assert("c"@.len() == 1 && "c"@[0] == 'c');
    reveal_strlit("h");
    assert("h"@.len() == 1 && "h"@[0] == 'h');
    reveal_strlit("cpp");
    assert("cpp"@.len() == 3 && "cpp"@[0] == 'c' && "cpp"@[1] == 'p' && "cpp"@[2] == 'p');
    reveal_strlit("cc");
    assert("cc"@.len() == 2 && "cc"@[0] == 'c' && "cc"@[1] == 'c');
    reveal_strlit("cxx");
    assert("cxx"@.len() == 3 && "cxx"@[0] == 'c' && "cxx"@[1] == 'x' && "cxx"@[2] == 'x');
    reveal_strlit("hpp");
    assert("hpp"@.len() == 3 && "hpp"@[0] == 'h' && "hpp"@[1] == 'p' && "hpp"@[2] == 'p');
    reveal_strlit("hh");
    assert("hh"@.len() == 2 && "hh"@[0] == 'h' && "hh"@[1] == 'h');
    reveal_strlit("hxx");
    assert("hxx"@.len() == 3 && "hxx"@[0] == 'h' && "hxx"@[1] == 'x' && "hxx"@[2] == 'x');
    reveal_strlit("java");
    assert("java"@.len() == 4 && "java"@[0] == 'j' && "java"@[1] == 'a' && "java"@[2] == 'v' && "java"@[3] == 'a');
    reveal_strlit("rb");
    assert("rb"@.len() == 2 && "rb"@[0] == 'r' && "rb"@[1] == 'b');
    reveal_strlit("gemspec");
    assert("gemspec"@.len() == 7 && "gemspec"@[0] == 'g' && "gemspec"@[1] == 'e' && "gemspec"@[2] == 'm' && "gemspec"@[3] == 's' && "gemspec"@[4] == 'p' && "gemspec"@[5] == 'e' && "gemspec"@[6] == 'c');
    reveal_strlit("php");
    assert("php"@.len() == 3 && "php"@[0] == 'p' && "php"@[1] == 'h' && "php"@[2] == 'p');
    reveal_strlit("sh");
    assert("sh"@.len() == 2 && "sh"@[0] == 's' && "sh"@[1] == 'h');
    reveal_strlit("bash");
    assert("bash"@.len() == 4 && "bash"@[0] == 'b' && "bash"@[1] == 'a' && "bash"@[2] == 's' && "bash"@[3] == 'h');
    reveal_strlit("zsh");
    assert("zsh"@.len() == 3 && "zsh"@[0] == 'z' && "zsh"@[1] == 's' && "zsh"@[2] == 'h');
    reveal_strlit("css");
    assert("css"@.len() == 3 && "css"@[0] == 'c' && "css"@[1] == 's' && "css"@[2] == 's');
    reveal_strlit("lua");
    assert("lua"@.len() == 3 && "lua"@[0] == 'l' && "lua"@[1] == 'u' && "lua"@[2] == 'a');
    match l {
        Language::Rust => {
            assert(builtin_for_extension("rs"@) == Some(Language::Rust));
        },
        Language::TypeScript => {
            assert(builtin_for_extension("ts"@) == Some(Language::TypeScript));
        },
        Language::Tsx => {
            assert(builtin_for_extension("tsx"@) == Some(Language::Tsx));
        },
        Language::JavaScript => {
            assert(builtin_for_extension("js"@) == Some(Language::JavaScript));
        },
        Language::Go => {
            assert(builtin_for_extension("go"@) == Some(Language::Go));
        },
        Language::Python => {
            assert(builtin_for_extension("py"@) == Some(Language::Python));
        },
        Language::C => {
            assert(builtin_for_extension("c"@) == Some(Language::C));
        },
        Language::Cpp => {
            assert(builtin_for_extension("cpp"@) == Some(Language::Cpp));
        },
        Language::Java => {
            assert(builtin_for_extension("java"@) == Some(Language::Java));
        },
        Language::Ruby => {
            assert(builtin_for_extension("rb"@) == Some(Language::Ruby));
        },
        Language::Php => {
            assert(builtin_for_extension("php"@) == Some(Language::Php));
        },
        Language::Bash => {
            assert(builtin_for_extension("sh"@) == Some(Language::Bash));
        },
        Language::Css => {
            assert(builtin_for_extension("css"@) == Some(Language::Css));
        },
        Language::Lua => {
            assert(builtin_for_extension("lua"@) == Some(Language::Lua));
        },
        Language::Custom(_) => {},
    }
}

/// Every kind's short name names that kind in a custom language's
/// configuration.
pub proof fn law_kind_short_name_parses(k: SymbolKind)
    ensures
        kind_for_name(kind_short_name(k)) == Some(k),
{
    reveal_strlit("fn");
    assert("fn"@.len() == 2 && "fn"@[0] == 'f' && "fn"@[1] == 'n');
    reveal_strlit("function");
    assert("function"@.len() == 8 && "function"@[0] == 'f' && "function"@[1] == 'u' && "function"@[2] == 'n' && "function"@[3] == 'c' && "function"@[4] == 't' && "function"@[5] == 'i' && "function"@[6] == 'o' && "function"@[7] == 'n');
    reveal_strlit("method");
    assert("method"@.len() == 6 && "method"@[0] == 'm' && "method"@[1] == 'e' && "method"@[2] == 't' && "method"@[3] == 'h' && "method"@[4] == 'o' && "method"@[5] == 'd');
    reveal_strlit("class");
    assert("class"@.len() == 5 && "class"@[0] == 'c' && "class"@[1] == 'l' && "class"@[2] == 'a' && "class"@[3] == 's' && "class"@[4] == 's');
    reveal_strlit("struct");
    assert("struct"@.len() == 6 && "struct"@[0] == 's' && "struct"@[1] == 't' && "struct"@[2] == 'r' && "struct"@[3] == 'u' && "struct"@[4] == 'c' && "struct"@[5] == 't');
    reveal_strlit("enum");
    assert("enum"@.len() == 4 && "enum"@[0] == 'e' && "enum"@[1] == 'n' && "enum"@[2] == 'u' && "enum"@[3] == 'm');
    reveal_strlit("interface");
    assert("interface"@.len() == 9 && "interface"@[0] == 'i' && "interface"@[1] == 'n' && "interface"@[2] == 't' && "interface"@[3] == 'e' && "interface"@[4] == 'r' && "interface"@[5] == 'f' && "interface"@[6] == 'a' && "interface"@[7] == 'c' && "interface"@[8] == 'e');
    reveal_strlit("type");
    assert("type"@.len() == 4 && "type"@[0] == 't' && "type"@[1] == 'y' && "type"@[2] == 'p' && "type"@[3] == 'e');
    reveal_strlit("const");
    assert("const"@.len() == 5 && "const"@[0] == 'c' && "const"@[1] == 'o' && "const"@[2] == 'n' && "const"@[3] == 's' && "const"@[4] == 't');
    reveal_strlit("constant");
    assert("constant"@.len() == 8 && "constant"@[0] == 'c' && "constant"@[1] == 'o' && "constant"@[2] == 'n' && "constant"@[3] == 's' && "constant"@[4] == 't' && "constant"@[5] == 'a' && "constant"@[6] == 'n' && "constant"@[7] == 't');
    reveal_strlit("mod");
    assert("mod"@.len() == 3 && "mod"@[0] == 'm' && "mod"@[1] == 'o' && "mod"@[2] == 'd');
    reveal_strlit("module");
    assert("module"@.len() == 6 && "module"@[0] == 'm' && "module"@[1] == 'o' && "module"@[2] == 'd' && "module"@[3] == 'u' && "module"@[4] == 'l' && "module"@[5] == 'e');
    reveal_strlit("trait");
    assert("trait"@.len() == 5 && "trait"@[0] == 't' && "trait"@[1] == 'r' && "trait"@[2] == 'a' && "trait"@[3] == 'i' && "trait"@[4] == 't');
    reveal_strlit("component");
    assert("component"@.len() == 9 && "component"@[0] == 'c' && "component"@[1] == 'o' && "component"@[2] == 'm' && "component"@[3] == 'p' && "component"@[4] == 'o' && "component"@[5] == 'n' && "component"@[6] == 'e' && "component"@[7] == 'n' && "component"@[8] == 't');
    reveal_strlit("hook");
    assert("hook"@.len() == 4 && "hook"@[0] == 'h' && "hook"@[1] == 'o' && "hook"@[2] == 'o' && "hook"@[3] == 'k');
    reveal_strlit("test");
    assert("test"@.len() == 4 && "test"@[0] == 't' && "test"@[1] == 'e' && "test"@[2] == 's' && "test"@[3] == 't');
}

/// `--kind` accepts exactly the short names of the kinds.
pub proof fn law_kind_filter_accepts_short_names(s: Seq<char>)
    ensures
        kind_names().contains(s) <==> exists|k: SymbolKind| kind_short_name(k) == s,
{
    let names = kind_names();
    if names.contains(s) {
        let i = choose|i: int| 0 <= i < names.len() && names[i] == s;
        let k = if i == 0 {
            SymbolKind::Function
        } else if i == 1 {
            SymbolKind::Method
        } else if i == 2 {
            SymbolKind::Class
        } else if i == 3 {
            SymbolKind::Struct
        } else if i == 4 {
            SymbolKind::Enum
        } else if i == 5 {
            SymbolKind::Type
        } else if i == 6 {
            SymbolKind::Interface
        } else if i == 7 {
            SymbolKind::Constant
        } else if i == 8 {
            SymbolKind::Module
        } else if i == 9 {
            SymbolKind::Trait
        } else if i == 10 {
            SymbolKind::Component
        } else if i == 11 {
            SymbolKind::Hook
        } else {
            SymbolKind::Test
        };
        assert(kind_short_name(k) == s);
    }
    if exists|k: SymbolKind| kind_short_name(k) == s {
        let k = choose|k: SymbolKind| kind_short_name(k) == s;
        let i: int = match k {
            SymbolKind::Function => 0,
            SymbolKind::Method => 1,
            SymbolKind::Class => 2,
            SymbolKind::Struct => 3,
            SymbolKind::Enum => 4,
            SymbolKind::Type => 5,
            SymbolKind::Interface => 6,
            SymbolKind::Constant => 7,
            SymbolKind::Module => 8,
            SymbolKind::Trait => 9,
            SymbolKind::Component => 10,
            SymbolKind::Hook => 11,
            SymbolKind::Test => 12,
        };
        assert(names[i] == s);
    }
}

/// `--lang` accepts the short name of every language of the run.
pub proof fn law_lang_filter_accepts_short_names(custom: Seq<CustomLang>, l: Language)
    requires
        lang_in(custom.len(), l),
    ensures
        lang_names(custom).contains(language_short_name(custom, l)),
{
    let all = lang_names(custom);
    let b = builtin_lang_names();
    match l {
        Language::Custom(i) => {
            assert(custom_shorts(custom)[i as int] == custom[i as int].short@);
            assert(all[b.len() + i] == language_short_name(custom, l));
        },
        _ => {
            let i: int = match l {
                Language::Rust => 0,
                Language::TypeScript => 1,
                Language::Tsx => 2,
                Language::JavaScript => 3,
                Language::Go => 4,
                Language::Python => 5,
                Language::C => 6,
                Language::Cpp => 7,
                Language::Java => 8,
                Language::Ruby => 9,
                Language::Php => 10,
                Language::Bash => 11,
                Language::Css => 12,
                _ => 13,
            };
            assert(all[i] == language_short_name(custom, l));
        },
    }
}

/// With no filter set, every symbol passes.
pub proof fn law_no_filters_pass_everything(sym: Symbol, custom: Seq<CustomLang>)
    ensures
        passes_filters(sym, Seq::empty(), Seq::empty(), false, custom),
{
}

/// Reclassification only ever turns functions and methods into components,
/// hooks or tests.
pub proof fn law_reclassification_scope(l: Language, k: SymbolKind, name: Seq<char>)
    ensures
        semantic_kind(l, k, name) != k ==> (k == SymbolKind::Function || k == SymbolKind::Method) && (
        semantic_kind(l, k, name) == SymbolKind::Component || semantic_kind(l, k, name)
            == SymbolKind::Hook || semantic_kind(l, k, name) == SymbolKind::Test),
{
}

/// The symbols of a file are ordered by position, no two share a position,
/// and each names the file and has a name.
pub proof fn law_extracted_symbols_ordered(
    catalog: Catalog,
    path: Seq<char>,
    source: Seq<u8>,
    lang: Language,
    syms: Seq<Symbol>,
)
    requires
        extracted(catalog, path, source, lang, syms),
    ensures
        forall|a: int, b: int| 0 <= a < b < syms.len() ==> pos_before(#[trigger] syms[a], #[trigger] syms[b]),
        forall|a: int, b: int| 0 <= a < syms.len() && 0 <= b < syms.len() && a != b ==> !same_pos(#[trigger] syms[a], #[trigger] syms[b]),
        forall|i: int| 0 <= i < syms.len() ==> (#[trigger] syms[i]).file@ == path && syms[i].name@.len() > 0,
{
    let raw = choose|raw: Seq<Symbol>|
        #[trigger] finished_from(raw, syms) && extraction_of(catalog, path, source, lang, Seq::empty(), 0, raw)
            && forall|i: int| 0 <= i < raw.len() ==> sound_symbol(#[trigger] raw[i], path);
    let d = choose|d: Seq<Symbol>|
        is_dedup_of(raw, d) && d.len() == syms.len() && forall|i: int| 0 <= i < syms.len() ==> reclassified(#[trigger] d[i], syms[i]);
    assert forall|a: int, b: int| 0 <= a < b < syms.len() implies pos_before(#[trigger] syms[a], #[trigger] syms[b]) by {
        assert(reclassified(d[a], syms[a]));
        assert(reclassified(d[b], syms[b]));
        assert(pos_before(d[a], d[b]));
    }
    assert forall|a: int, b: int| 0 <= a < syms.len() && 0 <= b < syms.len() && a != b implies !same_pos(#[trigger] syms[a], #[trigger] syms[b]) by {
        if a < b {
            assert(pos_before(syms[a], syms[b]));
        } else {
            assert(pos_before(syms[b], syms[a]));
        }
    }
    assert forall|i: int| 0 <= i < syms.len() implies (#[trigger] syms[i]).file@ == path && syms[i].name@.len() > 0 by {
        assert(reclassified(d[i], syms[i]));
        assert(from_first(raw, d, i));
        let j = choose|j: int| first_at(raw, j) && raw[j] == d[i];
        assert(sound_symbol(raw[j], path));
    }
}

/// In TSX a function named `use` and an uppercase letter is a hook, never
/// a component: its name starts with a lowercase `u`.
pub proof fn law_tsx_hook_names(name: Seq<char>)
    requires
        is_hook_name(bare_name(name)),
    ensures
        semantic_kind(Language::Tsx, SymbolKind::Function, name) == SymbolKind::Hook,
{
    reveal_strlit("use");
    let b = bare_name(name);
    assert(b.subrange(0, 3) == "use"@);
    assert(b[0] == b.subrange(0, 3)[0]);
    assert(b[0] == 'u');
}

/// `s` is, reclassified, the first symbol of `raw` at some position.
pub open spec fn reclassified_first(raw: Seq<Symbol>, s: Symbol) -> bool {
    exists|j: int| first_at(raw, j) && #[trigger] reclassified(raw[j], s)
}

/// Some symbol of `syms` is `x` reclassified.
pub open spec fn kept_as(syms: Seq<Symbol>, x: Symbol) -> bool {
    exists|i: int| 0 <= i < syms.len() && #[trigger] reclassified(x, syms[i])
}

/// Every symbol of a file is, reclassified, the first raw symbol at its
/// position, and the first raw symbol at every position is kept; the raw
/// symbols are those of the extraction (the language's queries in table
/// order, one symbol per yielding match, then the injected regions), so at
/// a shared position the earlier query wins.
pub proof fn law_first_symbol_at_each_position_wins(
    catalog: Catalog,
    path: Seq<char>,
    source: Seq<u8>,
    lang: Language,
    syms: Seq<Symbol>,
)
    requires
        extracted(catalog, path, source, lang, syms),
    ensures
        exists|raw: Seq<Symbol>|
            #[trigger] extraction_of(catalog, path, source, lang, Seq::empty(), 0, raw)
                && (forall|i: int| 0 <= i < syms.len() ==> reclassified_first(raw, #[trigger] syms[i]))
                && (forall|j: int| #[trigger] first_at(raw, j) ==> kept_as(syms, raw[j])),
{
    let raw = choose|raw: Seq<Symbol>|
        #[trigger] finished_from(raw, syms) && extraction_of(catalog, path, source, lang, Seq::empty(), 0, raw)
            && forall|i: int| 0 <= i < raw.len() ==> sound_symbol(#[trigger] raw[i], path);
    let d = choose|d: Seq<Symbol>|
        is_dedup_of(raw, d) && d.len() == syms.len() && forall|i: int| 0 <= i < syms.len() ==> reclassified(#[trigger] d[i], syms[i]);
    assert forall|i: int| 0 <= i < syms.len() implies reclassified_first(raw, #[trigger] syms[i]) by {
        assert(from_first(raw, d, i));
        let j = choose|j: int| first_at(raw, j) && raw[j] == d[i];
        assert(reclassified(d[i], syms[i]));
        assert(first_at(raw, j) && reclassified(raw[j], syms[i]));
    }
    assert forall|j: int| #[trigger] first_at(raw, j) implies kept_as(syms, raw[j]) by {
        assert(has_elem(d, raw[j]));
        let i = choose|i: int| 0 <= i < d.len() && d[i] == raw[j];
        assert(reclassified(d[i], syms[i]));
    }
    assert(extraction_of(catalog, path, source, lang, Seq::empty(), 0, raw));
}

/// The colored listing line of a symbol, with its ANSI escape sequences
/// taken out, is its plain listing line, provided that no field of it holds
/// an `ESC` character.
pub proof fn law_colored_line_without_escapes_is_plain_line(sym: Symbol, custom: Seq<CustomLang>)
    requires
        no_escape(sym.name@),
        no_escape(sym.file@),
        no_escape(sym.signature@),
        no_escape(language_short_name(custom, sym.lang)),
    ensures
        strip_ansi(symbol_line(sym, true, custom)) == symbol_line(sym, false, custom),
{
    let c1 = language_color_code(sym.lang);
    let c2 = kind_color_code(sym.kind);
    let p1 = pad_right(language_short_name(custom, sym.lang), 4);
    let p2 = pad_right(kind_short_name(sym.kind), 10);
    let v = vis_tag_colored(sym.visibility);
    let n = sym.name@;
    let t = line_tail(sym);
    lemma_strip_pieces(sym.visibility);
    lemma_color_codes(sym.lang, sym.kind);
    lemma_strip_digits(c1);
    lemma_strip_digits(c2);
    lemma_pad_no_escape(language_short_name(custom, sym.lang), 4);
    lemma_kind_name_no_escape(sym.kind);
    lemma_pad_no_escape(kind_short_name(sym.kind), 10);
    lemma_strip_plain(p1);
    lemma_strip_plain(p2);
    lemma_strip_plain(n);
    lemma_tail_no_escape(sym);
    lemma_strip_plain(t);
    let x1 = "\x1b["@;
    let x2 = x1 + c1;
    lemma_strip_concat(x1, c1, false);
    let x3 = x2 + "m"@;
    lemma_strip_concat(x2, "m"@, false);
    let x4 = x3 + p1;
    lemma_strip_concat(x3, p1, false);
    let x5 = x4 + "\x1b[0m \x1b["@;
    lemma_strip_concat(x4, "\x1b[0m \x1b["@, false);
    let x6 = x5 + c2;
    lemma_strip_concat(x5, c2, false);
    let x7 = x6 + "m"@;
    lemma_strip_concat(x6, "m"@, false);
    let x8 = x7 + p2;
    lemma_strip_concat(x7, p2, false);
    let x9 = x8 + "\x1b[0m "@;
    lemma_strip_concat(x8, "\x1b[0m "@, false);
    let x10 = x9 + v;
    lemma_strip_concat(x9, v, false);
    let x11 = x10 + "\x1b[1m"@;
    lemma_strip_concat(x10, "\x1b[1m"@, false);
    let x12 = x11 + n;
    lemma_strip_concat(x11, n, false);
    let x13 = x12 + "\x1b[0m"@;
    lemma_strip_concat(x12, "\x1b[0m"@, false);
    lemma_strip_concat(x13, t, false);
    assert(x13 == colored_head(sym, custom));
    assert(strip_from(x13 + t, false) =~= plain_head(sym, custom) + t);
}

/// A symbol passes the filters exactly when its kind's short name is one of
/// the `--kind` values (at any position) or there are none, its language's
/// short name is one of the `--lang` values (at any position) or there are
/// none, and, with `--exported`, it is not known to be private.
pub proof fn law_filters_test_membership(
    sym: Symbol,
    kinds: Seq<Seq<char>>,
    langs: Seq<Seq<char>>,
    exported_only: bool,
    custom: Seq<CustomLang>,
)
    ensures
        passes_filters(sym, kinds, langs, exported_only, custom) <==> (
            (kinds.len() == 0 || exists|i: int| 0 <= i < kinds.len() && kinds[i] == kind_short_name(sym.kind))
            && (langs.len() == 0 || exists|i: int|
                0 <= i < langs.len() && langs[i] == language_short_name(custom, sym.lang))
            && (!exported_only || sym.visibility != Some(Visibility::Private))),
{
}

/// Adding values to `--lang` never drops a symbol that passed: a symbol that
/// passes with the values `langs` passes with `langs` followed by `more`.
pub proof fn law_more_lang_values_keep_symbols(
    sym: Symbol,
    kinds: Seq<Seq<char>>,
    langs: Seq<Seq<char>>,
    more: Seq<Seq<char>>,
    exported_only: bool,
    custom: Seq<CustomLang>,
)
    requires
        langs.len() > 0,
        passes_filters(sym, kinds, langs, exported_only, custom),
    ensures
        passes_filters(sym, kinds, langs + more, exported_only, custom),
{
    let l = language_short_name(custom, sym.lang);
    let i = choose|i: int| 0 <= i < langs.len() && langs[i] == l;
    assert((langs + more)[i] == l);
}

/// A method in `impl [Trait for] T { ... }` is qualified by the text of the
/// impl's `type` child, `T`, whatever trait the impl names.
pub proof fn law_impl_methods_are_qualified_by_the_impl_type(
    ns: Seq<SyntaxNode>,
    src: Seq<u8>,
    node: int,
    f: int,
    d: int,
    i: int,
)
    requires
        arena_wf(ns),
        0 <= node < ns.len(),
        parent_spec(ns, node) == Some(f),
        ns[f].kind@ == "function_item"@,
        parent_spec(ns, f) == Some(d),
        ns[d].kind@ == "declaration_list"@,
        parent_spec(ns, d) == Some(i),
        ns[i].kind@ == "impl_item"@,
    ensures
        parent_name(ns, src, node, SymbolKind::Method) == field_text(ns, src, i, "type"@),
{
    reveal_strlit("function_item");
    reveal_strlit("declaration_list");
    reveal_strlit("impl_item");
    reveal_strlit("class_declaration");
    reveal_strlit("class");
    reveal_strlit("class_body");
    reveal_strlit("class_definition");
    reveal_strlit("trait_declaration");
    reveal_strlit("interface_declaration");
    reveal_strlit("method_declaration");
    reveal_strlit("object");
    assert("function_item"@.len() == 13);
    assert("declaration_list"@.len() == 16);
    assert("impl_item"@.len() == 9);
    assert("class_declaration"@.len() == 17);
    assert("class"@.len() == 5);
    assert("class_body"@.len() == 10);
    assert("class_definition"@.len() == 16);
    assert("trait_declaration"@.len() == 17);
    assert("interface_declaration"@.len() == 21);
    assert("method_declaration"@.len() == 18);
    assert("object"@.len() == 6);
    assert("declaration_list"@[0] != "class_definition"@[0]);
    assert("declaration_list"@ != "class_definition"@);
    assert(f < node);
    assert(d < f);
    assert(i < d);
    assert(0 <= i);
    assert(enclosing_name(ns, src, i) == field_text(ns, src, i, "type"@));
    assert(enclosing_name(ns, src, d) == enclosing_name(ns, src, i));
    assert(enclosing_name(ns, src, f) == enclosing_name(ns, src, d));
}

/// In TypeScript, TSX and JavaScript a definition is public exactly when it
/// is an `export_statement` or sits directly inside one; otherwise it is
/// private.
pub proof fn law_ts_exports_are_public(ns: Seq<SyntaxNode>, d: int, lang: Language, name: Seq<char>)
    requires
        lang == Language::TypeScript || lang == Language::Tsx || lang == Language::JavaScript,
        0 <= d < ns.len(),
    ensures
        visibility_of(ns, Some(d), lang, name) == Some(
            if ns[d].kind@ == "export_statement"@ || (exists|p: int|
                parent_spec(ns, d) == Some(p) && ns[p].kind@ == "export_statement"@) {
                Visibility::Public
            } else {
                Visibility::Private
            },
        ),
{
}

/// A Go function is a test exactly when its name is `Test` followed by at
/// least one more character, whatever that character is (`Test_x`,
/// `Testx` and `TestX` are all tests; `Test` alone is not).
pub proof fn law_go_test_functions(name: Seq<char>)
    ensures
        semantic_kind(Language::Go, SymbolKind::Function, name) == (if exists|rest: Seq<char>|
            rest.len() > 0 && bare_name(name) == "Test"@ + rest {
            SymbolKind::Test
        } else {
            SymbolKind::Function
        }),
{
    reveal_strlit("Test");
    let b = bare_name(name);
    if has_prefix(b, "Test"@) && b.len() > 4 {
        assert(b == "Test"@ + b.skip(4));
    }
    if exists|rest: Seq<char>| rest.len() > 0 && b == "Test"@ + rest {
        let rest = choose|rest: Seq<char>| rest.len() > 0 && b == "Test"@ + rest;
        assert(b.take(4) =~= "Test"@);
    }
}

/// The languages each project sentinel selects, by the sentinel's file
/// name: `artisan` and `composer.json` select PHP, `Cargo.toml` Rust,
/// `go.mod` Go, `pyproject.toml` and `requirements.txt` Python, and
/// `package.json` TypeScript and TSX.
pub proof fn law_sentinel_languages(i: int)
    requires
        0 <= i < sentinel_names().len(),
    ensures
        sentinel_names()[i] == "artisan"@ || sentinel_names()[i] == "composer.json"@ ==> sentinel_langs_spec(i)
            == seq!["php"@],
        sentinel_names()[i] == "Cargo.toml"@ ==> sentinel_langs_spec(i) == seq!["rs"@],
        sentinel_names()[i] == "go.mod"@ ==> sentinel_langs_spec(i) == seq!["go"@],
        sentinel_names()[i] == "pyproject.toml"@ || sentinel_names()[i] == "requirements.txt"@
            ==> sentinel_langs_spec(i) == seq!["py"@],
        sentinel_names()[i] == "package.json"@ ==> sentinel_langs_spec(i) == seq!["ts"@, "tsx"@],
{
    reveal_strlit("artisan");
    reveal_strlit("composer.json");
    reveal_strlit("Cargo.toml");
    reveal_strlit("go.mod");
    reveal_strlit("pyproject.toml");
    reveal_strlit("requirements.txt");
    reveal_strlit("package.json");
    reveal_strlit("php");
    reveal_strlit("rs");
    reveal_strlit("go");
    reveal_strlit("py");
    reveal_strlit("ts");
    reveal_strlit("tsx");
    let n = sentinel_names();
    assert("artisan"@.len() == 7);
    assert("composer.json"@.len() == 13);
    assert("Cargo.toml"@.len() == 10);
    assert("go.mod"@.len() == 6);
    assert("pyproject.toml"@.len() == 14);
    assert("requirements.txt"@.len() == 16);
    assert("package.json"@.len() == 12);
    if i == 0 {
        assert(n[i] == "artisan"@);
    } else if i == 1 {
        assert(n[i] == "composer.json"@);
    } else if i == 2 {
        assert(n[i] == "Cargo.toml"@);
    } else if i == 3 {
        assert(n[i] == "go.mod"@);
    } else if i == 4 {
        assert(n[i] == "pyproject.toml"@);
    } else if i == 5 {
        assert(n[i] == "requirements.txt"@);
    } else {
        assert(n[i] == "package.json"@);
    }
}

} // verus!
