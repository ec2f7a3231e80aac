use vstd::prelude::*;

use crate::custom::CustomLang;
use crate::language::Language;
use crate::symbol::SymbolKind;
use crate::text::{str_eq, string_from};
use crate::ts::{query_capture_index, query_new, query_pattern_settings};

verus! {

/// A query before compilation: tree-sitter query text and the kind of
/// symbol it extracts.
pub struct RawQueryDef {
    pub query_str: &'static str,
    pub kind: SymbolKind,
}

/// A compiled symbol query: the kind of symbol it extracts and the indices
/// of its `@name` and `@def` captures.
pub struct CompiledQuery {
    pub query: tree_sitter::Query,
    pub kind: SymbolKind,
    pub name_idx: u32,
    pub def_idx: Option<u32>,
}

/// A compiled injection query.
pub struct CompiledInjectionQuery {
    pub query: tree_sitter::Query,
    /// Capture index of `@injection.content`.
    pub content_idx: u32,
    /// Capture index of `@injection.language` (a language chosen per match).
    pub language_capture_idx: Option<u32>,
    /// The language that each pattern sets with
    /// `#set! injection.language "..."`.
    pub pattern_languages: Vec<Option<String>>,
}

/// The position of a built-in language in the tables below.
pub open spec fn builtin_index(l: Language) -> int {
    match l {
        Language::Rust => 0,
        Language::TypeScript => 1,
        Language::Tsx => 2,
        Language::JavaScript => 3,
        Language::Go => 4,
        Language::Python => 5,
        Language::C => 6,
        Language::Cpp => 7,
        Language::Java => 8,
        Language::Ruby => 9,
        Language::Php => 10,
        Language::Bash => 11,
        Language::Css => 12,
        Language::Lua => 13,
        Language::Custom(_) => 14,
    }
}

/// The built-in language at table position `k`.
pub open spec fn builtin_language(k: int) -> Language {
    if k == 0 {
        Language::Rust
    } else if k == 1 {
        Language::TypeScript
    } else if k == 2 {
        Language::Tsx
    } else if k == 3 {
        Language::JavaScript
    } else if k == 4 {
        Language::Go
    } else if k == 5 {
        Language::Python
    } else if k == 6 {
        Language::C
    } else if k == 7 {
        Language::Cpp
    } else if k == 8 {
        Language::Java
    } else if k == 9 {
        Language::Ruby
    } else if k == 10 {
        Language::Php
    } else if k == 11 {
        Language::Bash
    } else if k == 12 {
        Language::Css
    } else {
        Language::Lua
    }
}

/// The built-in languages, in table order.
pub fn builtin_languages() -> (r: Vec<Language>)
    ensures
        r@.len() == 14,
        forall|i: int| 0 <= i < 14 ==> builtin_index(#[trigger] r@[i]) == i,
        forall|i: int| 0 <= i < 14 ==> #[trigger] r@[i] == builtin_language(i),
{
    vec![
        Language::Rust,
        Language::TypeScript,
        Language::Tsx,
        Language::JavaScript,
        Language::Go,
        Language::Python,
        Language::C,
        Language::Cpp,
        Language::Java,
        Language::Ruby,
        Language::Php,
        Language::Bash,
        Language::Css,
        Language::Lua,
    ]
}

/// The symbol queries of a built-in language (TSX shares TypeScript's).
pub fn raw_queries(lang: Language) -> (r: Vec<RawQueryDef>)
    ensures
        query_defs(r@) == builtin_query_table(lang),
{
    match lang {
        Language::Rust => rust_queries(),
        Language::TypeScript | Language::Tsx => typescript_queries(),
        Language::JavaScript => javascript_queries(),
        Language::Go => go_queries(),
        Language::Python => python_queries(),
        Language::C => c_queries(),
        Language::Cpp => cpp_queries(),
        Language::Java => java_queries(),
        Language::Ruby => ruby_queries(),
        Language::Php => php_queries(),
        Language::Bash => bash_queries(),
        Language::Css => css_queries(),
        Language::Lua => lua_queries(),
        Language::Custom(_) => Vec::new(),
    }
}

/// `picked` lists positions below `n` in strictly increasing order: entry
/// `k` of a selection came from position `picked[k]` of its source.
pub open spec fn picks_in_order(picked: Seq<int>, n: int) -> bool {
    &&& forall|k: int| 0 <= k < picked.len() ==> 0 <= #[trigger] picked[k] < n
    &&& forall|a: int, b: int| 0 <= a < b < picked.len() ==> #[trigger] picked[a] < #[trigger] picked[b]
}

/// `r` keeps, in order, queries of some of the kinds `kinds`: entry `k` of
/// `r` has the kind at position `picked[k]`, and the positions increase.
pub open spec fn selects_kinds(r: Seq<CompiledQuery>, kinds: Seq<SymbolKind>) -> bool {
    exists|picked: Seq<int>|
        #![trigger picks_in_order(picked, kinds.len() as int)]
        picked.len() == r.len() && picks_in_order(picked, kinds.len() as int) && forall|k: int|
            0 <= k < r.len() ==> (#[trigger] r[k]).kind == kinds[picked[k]]
}

/// The kinds of a list of query definitions.
pub open spec fn def_kinds(defs: Seq<RawQueryDef>) -> Seq<SymbolKind> {
    defs.map_values(|d: RawQueryDef| d.kind)
}

/// The kinds of a query table.
pub open spec fn table_kinds(table: Seq<(SymbolKind, Seq<char>)>) -> Seq<SymbolKind> {
    table.map_values(|e: (SymbolKind, Seq<char>)| e.0)
}

/// Puts a compiled symbol query together from the indices of its `@name`
/// and `@def` captures: a query without an `@name` capture gives none.
pub fn compiled_query_from(
    query: tree_sitter::Query,
    kind: SymbolKind,
    name_idx: Option<u32>,
    def_idx: Option<u32>,
) -> (r: Option<CompiledQuery>)
    ensures
        match name_idx {
            None => r is None,
            Some(n) => r matches Some(c) && c.query == query && c.kind == kind && c.name_idx == n
                && c.def_idx == def_idx,
        },
{
    match name_idx {
        Some(n) => Some(CompiledQuery { query, kind, name_idx: n, def_idx }),
        None => None,
    }
}

/// Compiles symbol queries for a language. A query that does not compile,
/// or that has no `@name` capture, is left out.
pub fn compile(lang: Language, raw: &[RawQueryDef], custom: &[CustomLang]) -> (r: Vec<
    CompiledQuery,
>)
    requires
        lang matches Language::Custom(i) ==> i < custom@.len(),
    ensures
        r@.len() <= raw@.len(),
        selects_kinds(r@, def_kinds(raw@)),
{
    let ts_lang = lang.ts_language(custom);
    let mut out: Vec<CompiledQuery> = Vec::new();
    let n = raw.len();
    let ghost mut picked: Seq<int> = Seq::empty();
    for j in 0..n
        invariant
            n == raw@.len(),
            out@.len() <= j,
            picked.len() == out@.len(),
            forall|k: int| 0 <= k < picked.len() ==> 0 <= #[trigger] picked[k] < j,
            forall|a: int, b: int| 0 <= a < b < picked.len() ==> #[trigger] picked[a] < #[trigger] picked[b],
            forall|k: int| 0 <= k < out@.len() ==> (#[trigger] out@[k]).kind == raw@[picked[k]].kind,
    {
        let def = &raw[j];
        match query_new(&ts_lang, def.query_str) {
            Ok(query) => {
                let name_idx = query_capture_index(&query, "name");
                let def_idx = query_capture_index(&query, "def");
                match compiled_query_from(query, def.kind, name_idx, def_idx) {
                Some(cq) => {
                    let ghost before = out@;
                    out.push(cq);
                    proof {
                        let old_picked = picked;
                        picked = picked.push(j as int);
                        assert forall|k: int| 0 <= k < out@.len() implies (#[trigger] out@[k]).kind
                            == raw@[picked[k]].kind by {
                            if k < before.len() {
                                assert(out@[k] == before[k]);
                                assert(picked[k] == old_picked[k]);
                            }
                        }
                    }
                },
                None => {},
                }
            },
            Err(_) => {},
        }
    }
    assert(picks_in_order(picked, def_kinds(raw@).len() as int));
    assert forall|k: int| 0 <= k < out@.len() implies (#[trigger] out@[k]).kind == def_kinds(raw@)[picked[k]] by {
        assert(0 <= picked[k] < raw@.len());
    }
    out
}

/// The value of the last `injection.language` setting among a pattern's
/// `#set!` properties.
pub open spec fn set_language(settings: Seq<(String, Option<String>)>) -> Option<Seq<char>>
    decreases settings.len(),
{
    if settings.len() == 0 {
        None
    } else if settings.last().0@ == "injection.language"@ {
        match settings.last().1 {
            Some(v) => Some(v@),
            None => None,
        }
    } else {
        set_language(settings.drop_last())
    }
}

fn pattern_language(settings: &Vec<(String, Option<String>)>) -> (r: Option<String>)
    ensures
        r matches Some(s) ==> set_language(settings@) == Some(s@),
        r is None ==> set_language(settings@) is None,
{
    let mut k = settings.len();
    assert(settings@.take(k as int) == settings@);
    while k > 0
        invariant
            k <= settings@.len(),
            set_language(settings@) == set_language(settings@.take(k as int)),
        decreases k,
    {
        assert(settings@.take(k as int).drop_last() == settings@.take(k - 1));
        let (key, value) = &settings[k - 1];
        if str_eq(key.as_str(), "injection.language") {
            return match value {
                Some(v) => Some(string_from(v.as_str())),
                None => None,
            };
        }
        k = k - 1;
    }
    None
}

/// The injection query text of a language: built-in languages have none,
/// custom languages take theirs from their configuration.
pub open spec fn injection_text_of(custom: Seq<CustomLang>, lang: Language) -> Option<Seq<char>> {
    match lang {
        Language::Custom(i) => if (i as int) < custom.len() {
            match custom[i as int].injection_query_text {
                Some(t) => Some(t@),
                None => None,
            }
        } else {
            None
        },
        _ => None,
    }
}

/// The raw injection query text for a language.
pub fn injection_query_text(custom: &[CustomLang], lang: Language) -> (r: Option<&str>)
    ensures
        r matches Some(s) ==> injection_text_of(custom@, lang) == Some(s@),
        r is None ==> injection_text_of(custom@, lang) is None,
{
    match lang {
        Language::Custom(idx) => if (idx as usize) < custom.len() {
            match &custom[idx as usize].injection_query_text {
                Some(t) => Some(t.as_str()),
                None => None,
            }
        } else {
            None
        },
        _ => None,
    }
}

/// `o` holds the value `s` describes.
pub open spec fn holds_language(o: Option<String>, s: Option<Seq<char>>) -> bool {
    match s {
        Some(v) => o matches Some(x) && x@ == v,
        None => o is None,
    }
}

/// Puts a compiled injection query together from the index of its
/// `@injection.content` capture, that of its `@injection.language` capture
/// and the `#set!` properties of each pattern: without a content capture it
/// gives none; each pattern's language is its last `injection.language`
/// setting.
pub fn injection_query_from(
    query: tree_sitter::Query,
    content_idx: Option<u32>,
    language_capture_idx: Option<u32>,
    settings: &Vec<Vec<(String, Option<String>)>>,
) -> (r: Option<CompiledInjectionQuery>)
    ensures
        match content_idx {
            None => r is None,
            Some(ci) => r matches Some(q) && q.query == query && q.content_idx == ci
                && q.language_capture_idx == language_capture_idx
                && q.pattern_languages@.len() == settings@.len() && forall|i: int|
                0 <= i < settings@.len() ==> holds_language(
                    #[trigger] q.pattern_languages@[i],
                    set_language(settings@[i]@),
                ),
        },
{
    let ci = match content_idx {
        Some(ci) => ci,
        None => {
            return None;
        },
    };
    let mut pattern_languages: Vec<Option<String>> = Vec::new();
    let n = settings.len();
    for i in 0..n
        invariant
            n == settings@.len(),
            pattern_languages@.len() == i,
            forall|k: int|
                0 <= k < i ==> holds_language(
                    #[trigger] pattern_languages@[k],
                    set_language(settings@[k]@),
                ),
    {
        let pl = pattern_language(&settings[i]);
        let ghost before = pattern_languages@;
        pattern_languages.push(pl);
        assert forall|k: int| 0 <= k < i + 1 implies holds_language(
            #[trigger] pattern_languages@[k],
            set_language(settings@[k]@),
        ) by {
            if k < i {
                assert(pattern_languages@[k] == before[k]);
            }
        }
    }
    Some(CompiledInjectionQuery { query, content_idx: ci, language_capture_idx, pattern_languages })
}

/// Compiles the injection query of a language, when it has one that
/// compiles and that captures `@injection.content`.
pub fn compile_injection_query(custom: &[CustomLang], lang: Language) -> (r: Option<
    CompiledInjectionQuery,
>)
    requires
        lang matches Language::Custom(i) ==> i < custom@.len(),
    ensures
        injection_text_of(custom@, lang) is None ==> r is None,
{
    let src = match injection_query_text(custom, lang) {
        Some(s) => s,
        None => {
            return None;
        },
    };
    let ts_lang = lang.ts_language(custom);
    let query = match query_new(&ts_lang, src) {
        Ok(q) => q,
        Err(_) => {
            return None;
        },
    };
    let content_idx = query_capture_index(&query, "injection.content");
    let language_capture_idx = query_capture_index(&query, "injection.language");
    let settings = query_pattern_settings(&query);
    injection_query_from(query, content_idx, language_capture_idx, &settings)
}

/// The languages of a run and their compiled queries: the custom languages,
/// the queries of each built-in language and the injection query of each
/// custom language, all compiled once.
pub struct Catalog {
    custom: Vec<CustomLang>,
    builtin: Vec<Vec<CompiledQuery>>,
    injections: Vec<Option<CompiledInjectionQuery>>,
}

impl Catalog {
    #[verifier::type_invariant]
    spec fn inv(self) -> bool {
        &&& self.builtin@.len() == 14
        &&& self.injections@.len() == self.custom@.len()
        &&& self.custom@.len() <= 0x10000
        &&& forall|i: int|
            0 <= i < self.injections@.len() && (#[trigger] self.injections@[i]) is Some ==> injection_text_of(
                self.custom@,
                Language::Custom(i as u16),
            ) is Some
    }

    /// The custom languages.
    pub closed spec fn custom_view(self) -> Seq<CustomLang> {
        self.custom@
    }

    /// The compiled queries of the built-in language at table position `k`.
    pub closed spec fn builtin_compiled(self, k: int) -> Seq<CompiledQuery> {
        self.builtin@[k]@
    }

    /// The compiled injection query of the custom language at position `i`.
    pub closed spec fn injection_compiled(self, i: int) -> Option<CompiledInjectionQuery> {
        self.injections@[i]
    }

    /// The compiled injection query of a language: only custom languages in
    /// the catalog have one.
    pub open spec fn injection_of(self, lang: Language) -> Option<CompiledInjectionQuery> {
        match lang {
            Language::Custom(i) => if (i as int) < self.custom_view().len() {
                self.injection_compiled(i as int)
            } else {
                None
            },
            _ => None,
        }
    }

    /// The compiled symbol queries of a language: a built-in language's from
    /// its table position, a custom language's from its definition.
    pub open spec fn queries_of(self, lang: Language) -> Seq<CompiledQuery> {
        match lang {
            Language::Custom(i) => if (i as int) < self.custom_view().len() {
                self.custom_view()[i as int].queries@
            } else {
                Seq::empty()
            },
            _ => self.builtin_compiled(builtin_index(lang)),
        }
    }

    /// Compiles the queries of all built-in languages and the injection
    /// queries of the custom ones.
    pub fn new(custom: Vec<CustomLang>) -> (c: Catalog)
        requires
            custom@.len() <= 0x10000,
        ensures
            c.custom_view() == custom@,
            forall|k: int|
                0 <= k < 14 ==> selects_kinds(
                    #[trigger] c.builtin_compiled(k),
                    table_kinds(builtin_query_table(builtin_language(k))),
                ),
            forall|i: int|
                0 <= i < custom@.len() && injection_text_of(custom@, Language::Custom(i as u16)) is None
                    ==> (#[trigger] c.injection_compiled(i)) is None,
    {
        let langs = builtin_languages();
        let mut builtin: Vec<Vec<CompiledQuery>> = Vec::new();
        for i in 0..14
            invariant
                langs@.len() == 14,
                builtin@.len() == i,
                forall|k: int| 0 <= k < 14 ==> builtin_index(#[trigger] langs@[k]) == k,
                forall|k: int| 0 <= k < 14 ==> #[trigger] langs@[k] == builtin_language(k),
                forall|k: int|
                    0 <= k < i ==> selects_kinds(
                        #[trigger] builtin@[k]@,
                        table_kinds(builtin_query_table(builtin_language(k))),
                    ),
        {
            let lang = langs[i];
            assert(builtin_index(lang) == i);
            let raw = raw_queries(lang);
            let compiled = compile(lang, raw.as_slice(), custom.as_slice());
            proof {
                assert(def_kinds(raw@) =~= table_kinds(query_defs(raw@)));
                assert(lang == builtin_language(i as int));
            }
            let ghost before = builtin@;
            builtin.push(compiled);
            proof {
                assert forall|k: int| 0 <= k < i + 1 implies selects_kinds(
                    #[trigger] builtin@[k]@,
                    table_kinds(builtin_query_table(builtin_language(k))),
                ) by {
                    if k < i {
                        assert(builtin@[k] == before[k]);
                    }
                }
            }
        }
        let mut injections: Vec<Option<CompiledInjectionQuery>> = Vec::new();
        let n = custom.len();
        for i in 0..n
            invariant
                n == custom@.len(),
                n <= 0x10000,
                injections@.len() == i,
                forall|k: int|
                    0 <= k < injections@.len() && (#[trigger] injections@[k]) is Some ==> injection_text_of(
                        custom@,
                        Language::Custom(k as u16),
                    ) is Some,
                forall|k: int|
                    0 <= k < 14 ==> selects_kinds(
                        #[trigger] builtin@[k]@,
                        table_kinds(builtin_query_table(builtin_language(k))),
                    ),
        {
            let q = compile_injection_query(custom.as_slice(), Language::Custom(i as u16));
            let ghost before = injections@;
            injections.push(q);
            assert forall|k: int|
                0 <= k < injections@.len() && (#[trigger] injections@[k]) is Some implies injection_text_of(
                    custom@,
                    Language::Custom(k as u16),
                ) is Some by {
                if k < before.len() {
                    assert(injections@[k] == before[k]);
                }
            }
        }
        Catalog { custom, builtin, injections }
    }

    /// The custom languages.
    pub fn custom(&self) -> (r: &[CustomLang])
        ensures
            r@ == self.custom_view(),
            r@.len() <= 0x10000,
    {
        proof {
            use_type_invariant(self);
        }
        self.custom.as_slice()
    }

}

/// The compiled symbol queries of a language (none for an unknown custom
/// language).
pub fn compiled_queries(catalog: &Catalog, lang: Language) -> (r: &[CompiledQuery])
    ensures
        r@ == catalog.queries_of(lang),
{
    proof {
        use_type_invariant(catalog);
    }
    match lang {
        Language::Custom(idx) => if (idx as usize) < catalog.custom.len() {
            catalog.custom[idx as usize].queries.as_slice()
        } else {
            &[]
        },
        Language::Rust => catalog.builtin[0].as_slice(),
        Language::TypeScript => catalog.builtin[1].as_slice(),
        Language::Tsx => catalog.builtin[2].as_slice(),
        Language::JavaScript => catalog.builtin[3].as_slice(),
        Language::Go => catalog.builtin[4].as_slice(),
        Language::Python => catalog.builtin[5].as_slice(),
        Language::C => catalog.builtin[6].as_slice(),
        Language::Cpp => catalog.builtin[7].as_slice(),
        Language::Java => catalog.builtin[8].as_slice(),
        Language::Ruby => catalog.builtin[9].as_slice(),
        Language::Php => catalog.builtin[10].as_slice(),
        Language::Bash => catalog.builtin[11].as_slice(),
        Language::Css => catalog.builtin[12].as_slice(),
        Language::Lua => catalog.builtin[13].as_slice(),
    }
}

/// The compiled injection query of a language, if it has one.
pub fn compiled_injection_query(catalog: &Catalog, lang: Language) -> (r: Option<
    &CompiledInjectionQuery,
>)
    ensures
        !(lang is Custom) ==> r is None,
        injection_text_of(catalog.custom_view(), lang) is None ==> r is None,
        match catalog.injection_of(lang) {
            Some(q) => r matches Some(x) && *x == q,
            None => r is None,
        },
{
    proof {
        use_type_invariant(catalog);
    }
    match lang {
        Language::Custom(idx) => if (idx as usize) < catalog.injections.len() {
            match &catalog.injections[idx as usize] {
                Some(q) => {
                    assert(catalog.injections@[idx as int] is Some);
                    Some(q)
                },
                None => None,
            }
        } else {
            None
        },
        _ => None,
    }
}

// ----------------------------------------------------------------------
// The queries of the built-in languages
// ----------------------------------------------------------------------

fn rust_queries() -> (r: Vec<RawQueryDef>)
    ensures
        query_defs(r@) == rust_query_table(),
{
    vec![
        // methods before functions, so that a method wins the dedup
        RawQueryDef { kind: SymbolKind::Method, query_str: "(impl_item body: (declaration_list (function_item name: (identifier) @name) @def))" },
        RawQueryDef { kind: SymbolKind::Function, query_str: "(function_item name: (identifier) @name) @def" },
        RawQueryDef { kind: SymbolKind::Struct, query_str: "(struct_item name: (type_identifier) @name) @def" },
        RawQueryDef { kind: SymbolKind::Enum, query_str: "(enum_item name: (type_identifier) @name) @def" },
        RawQueryDef { kind: SymbolKind::Trait, query_str: "(trait_item name: (type_identifier) @name) @def" },
        RawQueryDef { kind: SymbolKind::Type, query_str: "(type_item name: (type_identifier) @name) @def" },
        RawQueryDef { kind: SymbolKind::Constant, query_str: "(const_item name: (identifier) @name) @def" },
        RawQueryDef { kind: SymbolKind::Module, query_str: "(mod_item name: (identifier) @name) @def" },
    ]
}

fn typescript_queries() -> (r: Vec<RawQueryDef>)
    ensures
        query_defs(r@) == typescript_query_table(),
{
    vec![
        // exported declarations before bare ones, so that they win the dedup
        RawQueryDef { kind: SymbolKind::Function, query_str: "(export_statement (function_declaration name: (identifier) @name)) @def" },
        RawQueryDef { kind: SymbolKind::Class, query_str: "(export_statement (class_declaration name: (type_identifier) @name)) @def" },
        RawQueryDef { kind: SymbolKind::Interface, query_str: "(export_statement (interface_declaration name: (type_identifier) @name)) @def" },
        RawQueryDef { kind: SymbolKind::Type, query_str: "(export_statement (type_alias_declaration name: (type_identifier) @name)) @def" },
        RawQueryDef { kind: SymbolKind::Function, query_str: "(function_declaration name: (identifier) @name) @def" },
        RawQueryDef { kind: SymbolKind::Class, query_str: "(class_declaration name: (type_identifier) @name) @def" },
        RawQueryDef { kind: SymbolKind::Interface, query_str: "(interface_declaration name: (type_identifier) @name) @def" },
        RawQueryDef { kind: SymbolKind::Type, query_str: "(type_alias_declaration name: (type_identifier) @name) @def" },
        RawQueryDef { kind: SymbolKind::Enum, query_str: "(enum_declaration name: (identifier) @name) @def" },
        RawQueryDef { kind: SymbolKind::Method, query_str: "(method_definition name: (property_identifier) @name) @def" },
        RawQueryDef { kind: SymbolKind::Function, query_str: "(lexical_declaration (variable_declarator name: (identifier) @name value: (arrow_function) @_val)) @def" },
    ]
}

fn javascript_queries() -> (r: Vec<RawQueryDef>)
    ensures
        query_defs(r@) == javascript_query_table(),
{
    vec![
        RawQueryDef { kind: SymbolKind::Function, query_str: "(export_statement (function_declaration name: (identifier) @name)) @def" },
        RawQueryDef { kind: SymbolKind::Class, query_str: "(export_statement (class_declaration name: (identifier) @name)) @def" },
        RawQueryDef { kind: SymbolKind::Function, query_str: "(function_declaration name: (identifier) @name) @def" },
        RawQueryDef { kind: SymbolKind::Class, query_str: "(class_declaration name: (identifier) @name) @def" },
        RawQueryDef { kind: SymbolKind::Method, query_str: "(method_definition name: (property_identifier) @name) @def" },
        RawQueryDef { kind: SymbolKind::Function, query_str: "(lexical_declaration (variable_declarator name: (identifier) @name value: (arrow_function) @_val)) @def" },
    ]
}

fn go_queries() -> (r: Vec<RawQueryDef>)
    ensures
        query_defs(r@) == go_query_table(),
{
    vec![
        RawQueryDef { kind: SymbolKind::Method, query_str: "(method_declaration name: (field_identifier) @name) @def" },
        RawQueryDef { kind: SymbolKind::Function, query_str: "(function_declaration name: (identifier) @name) @def" },
        RawQueryDef { kind: SymbolKind::Struct, query_str: "(type_declaration (type_spec name: (type_identifier) @name type: (struct_type))) @def" },
        RawQueryDef { kind: SymbolKind::Interface, query_str: "(type_declaration (type_spec name: (type_identifier) @name type: (interface_type))) @def" },
        RawQueryDef { kind: SymbolKind::Type, query_str: "(type_declaration (type_spec name: (type_identifier) @name)) @def" },
        RawQueryDef { kind: SymbolKind::Constant, query_str: "(const_declaration (const_spec name: (identifier) @name)) @def" },
    ]
}

fn python_queries() -> (r: Vec<RawQueryDef>)
    ensures
        query_defs(r@) == python_query_table(),
{
    vec![
        // methods before functions, decorated before bare definitions
        RawQueryDef { kind: SymbolKind::Method, query_str: "(class_definition body: (block (function_definition name: (identifier) @name) @def))" },
        RawQueryDef { kind: SymbolKind::Method, query_str: "(class_definition body: (block (decorated_definition definition: (function_definition name: (identifier) @name)) @def))" },
        RawQueryDef { kind: SymbolKind::Function, query_str: "(decorated_definition definition: (function_definition name: (identifier) @name)) @def" },
        RawQueryDef { kind: SymbolKind::Class, query_str: "(decorated_definition definition: (class_definition name: (identifier) @name)) @def" },
        RawQueryDef { kind: SymbolKind::Function, query_str: "(function_definition name: (identifier) @name) @def" },
        RawQueryDef { kind: SymbolKind::Class, query_str: "(class_definition name: (identifier) @name) @def" },
    ]
}

fn c_queries() -> (r: Vec<RawQueryDef>)
    ensures
        query_defs(r@) == c_query_table(),
{
    vec![
        RawQueryDef { kind: SymbolKind::Function, query_str: "(function_definition declarator: (function_declarator declarator: (identifier) @name)) @def" },
        RawQueryDef { kind: SymbolKind::Function, query_str: "(function_definition declarator: (pointer_declarator declarator: (function_declarator declarator: (identifier) @name))) @def" },
        RawQueryDef { kind: SymbolKind::Struct, query_str: "(struct_specifier name: (type_identifier) @name body: (_)) @def" },
        RawQueryDef { kind: SymbolKind::Enum, query_str: "(enum_specifier name: (type_identifier) @name) @def" },
        RawQueryDef { kind: SymbolKind::Type, query_str: "(type_definition declarator: (type_identifier) @name) @def" },
        RawQueryDef { kind: SymbolKind::Constant, query_str: "(preproc_def name: (identifier) @name) @def" },
    ]
}

fn cpp_queries() -> (r: Vec<RawQueryDef>)
    ensures
        query_defs(r@) == cpp_query_table(),
{
    vec![
        // qualified methods (Class::method) first
        RawQueryDef { kind: SymbolKind::Method, query_str: "(function_definition declarator: (function_declarator declarator: (qualified_identifier name: (identifier) @name))) @def" },
        RawQueryDef { kind: SymbolKind::Function, query_str: "(function_definition declarator: (function_declarator declarator: (identifier) @name)) @def" },
        RawQueryDef { kind: SymbolKind::Class, query_str: "(class_specifier name: (type_identifier) @name) @def" },
        RawQueryDef { kind: SymbolKind::Struct, query_str: "(struct_specifier name: (type_identifier) @name body: (_)) @def" },
        RawQueryDef { kind: SymbolKind::Module, query_str: "(namespace_definition name: (namespace_identifier) @name) @def" },
        RawQueryDef { kind: SymbolKind::Enum, query_str: "(enum_specifier name: (type_identifier) @name) @def" },
        RawQueryDef { kind: SymbolKind::Type, query_str: "(type_definition declarator: (type_identifier) @name) @def" },
    ]
}

fn java_queries() -> (r: Vec<RawQueryDef>)
    ensures
        query_defs(r@) == java_query_table(),
{
    vec![
        RawQueryDef { kind: SymbolKind::Method, query_str: "(method_declaration name: (identifier) @name) @def" },
        RawQueryDef { kind: SymbolKind::Method, query_str: "(constructor_declaration name: (identifier) @name) @def" },
        RawQueryDef { kind: SymbolKind::Class, query_str: "(class_declaration name: (identifier) @name) @def" },
        RawQueryDef { kind: SymbolKind::Interface, query_str: "(interface_declaration name: (identifier) @name) @def" },
        RawQueryDef { kind: SymbolKind::Enum, query_str: "(enum_declaration name: (identifier) @name) @def" },
    ]
}

fn ruby_queries() -> (r: Vec<RawQueryDef>)
    ensures
        query_defs(r@) == ruby_query_table(),
{
    vec![
        RawQueryDef { kind: SymbolKind::Method, query_str: "(method name: (_) @name) @def" },
        RawQueryDef { kind: SymbolKind::Method, query_str: "(singleton_method name: (_) @name) @def" },
        RawQueryDef { kind: SymbolKind::Class, query_str: "(class name: (constant) @name) @def" },
        RawQueryDef { kind: SymbolKind::Module, query_str: "(module name: (constant) @name) @def" },
    ]
}

fn php_queries() -> (r: Vec<RawQueryDef>)
    ensures
        query_defs(r@) == php_query_table(),
{
    vec![
        RawQueryDef { kind: SymbolKind::Method, query_str: "(method_declaration name: (name) @name) @def" },
        RawQueryDef { kind: SymbolKind::Function, query_str: "(function_definition name: (name) @name) @def" },
        RawQueryDef { kind: SymbolKind::Class, query_str: "(class_declaration name: (name) @name) @def" },
        RawQueryDef { kind: SymbolKind::Interface, query_str: "(interface_declaration name: (name) @name) @def" },
        RawQueryDef { kind: SymbolKind::Trait, query_str: "(trait_declaration name: (name) @name) @def" },
        RawQueryDef { kind: SymbolKind::Enum, query_str: "(enum_declaration name: (name) @name) @def" },
        RawQueryDef { kind: SymbolKind::Module, query_str: "(namespace_definition name: (namespace_name) @name) @def" },
    ]
}

fn bash_queries() -> (r: Vec<RawQueryDef>)
    ensures
        query_defs(r@) == bash_query_table(),
{
    vec![
        RawQueryDef { kind: SymbolKind::Function, query_str: "(function_definition name: (word) @name) @def" },
    ]
}

fn css_queries() -> (r: Vec<RawQueryDef>)
    ensures
        query_defs(r@) == css_query_table(),
{
    vec![
        RawQueryDef { kind: SymbolKind::Class, query_str: "(rule_set (selectors) @name) @def" },
        RawQueryDef { kind: SymbolKind::Function, query_str: "(keyframes_statement (keyframes_name) @name) @def" },
    ]
}

fn lua_queries() -> (r: Vec<RawQueryDef>)
    ensures
        query_defs(r@) == lua_query_table(),
{
    vec![
        RawQueryDef { kind: SymbolKind::Function, query_str: "(function_declaration name: (identifier) @name) @def" },
        RawQueryDef { kind: SymbolKind::Method, query_str: "(function_declaration name: (method_index_expression method: (identifier) @name)) @def" },
        RawQueryDef { kind: SymbolKind::Function, query_str: "(function_declaration name: (dot_index_expression field: (identifier) @name)) @def" },
    ]
}

// ----------------------------------------------------------------------
// The query tables, as (kind, query text) pairs
// ----------------------------------------------------------------------

/// A list of query definitions as (kind, query text) pairs.
pub open spec fn query_defs(defs: Seq<RawQueryDef>) -> Seq<(SymbolKind, Seq<char>)> {
    defs.map_values(|d: RawQueryDef| (d.kind, d.query_str@))
}

/// The symbol queries of each built-in language, in order (TSX shares
/// TypeScript's; custom languages have none here).
pub open spec fn builtin_query_table(lang: Language) -> Seq<(SymbolKind, Seq<char>)> {
    match lang {
        Language::Rust => rust_query_table(),
        Language::TypeScript | Language::Tsx => typescript_query_table(),
        Language::JavaScript => javascript_query_table(),
        Language::Go => go_query_table(),
        Language::Python => python_query_table(),
        Language::C => c_query_table(),
        Language::Cpp => cpp_query_table(),
        Language::Java => java_query_table(),
        Language::Ruby => ruby_query_table(),
        Language::Php => php_query_table(),
        Language::Bash => bash_query_table(),
        Language::Css => css_query_table(),
        Language::Lua => lua_query_table(),
        Language::Custom(_) => Seq::empty(),
    }
}

pub open spec fn rust_query_table() -> Seq<(SymbolKind, Seq<char>)> {
    seq![
        (SymbolKind::Method, "(impl_item body: (declaration_list (function_item name: (identifier) @name) @def))"@),
        (SymbolKind::Function, "(function_item name: (identifier) @name) @def"@),
        (SymbolKind::Struct, "(struct_item name: (type_identifier) @name) @def"@),
        (SymbolKind::Enum, "(enum_item name: (type_identifier) @name) @def"@),
        (SymbolKind::Trait, "(trait_item name: (type_identifier) @name) @def"@),
        (SymbolKind::Type, "(type_item name: (type_identifier) @name) @def"@),
        (SymbolKind::Constant, "(const_item name: (identifier) @name) @def"@),
        (SymbolKind::Module, "(mod_item name: (identifier) @name) @def"@),
    ]
}

pub open spec fn typescript_query_table() -> Seq<(SymbolKind, Seq<char>)> {
    seq![
        (SymbolKind::Function, "(export_statement (function_declaration name: (identifier) @name)) @def"@),
        (SymbolKind::Class, "(export_statement (class_declaration name: (type_identifier) @name)) @def"@),
        (SymbolKind::Interface, "(export_statement (interface_declaration name: (type_identifier) @name)) @def"@),
        (SymbolKind::Type, "(export_statement (type_alias_declaration name: (type_identifier) @name)) @def"@),
        (SymbolKind::Function, "(function_declaration name: (identifier) @name) @def"@),
        (SymbolKind::Class, "(class_declaration name: (type_identifier) @name) @def"@),
        (SymbolKind::Interface, "(interface_declaration name: (type_identifier) @name) @def"@),
        (SymbolKind::Type, "(type_alias_declaration name: (type_identifier) @name) @def"@),
        (SymbolKind::Enum, "(enum_declaration name: (identifier) @name) @def"@),
        (SymbolKind::Method, "(method_definition name: (property_identifier) @name) @def"@),
        (SymbolKind::Function, "(lexical_declaration (variable_declarator name: (identifier) @name value: (arrow_function) @_val)) @def"@),
    ]
}

pub open spec fn javascript_query_table() -> Seq<(SymbolKind, Seq<char>)> {
    seq![
        (SymbolKind::Function, "(export_statement (function_declaration name: (identifier) @name)) @def"@),
        (SymbolKind::Class, "(export_statement (class_declaration name: (identifier) @name)) @def"@),
        (SymbolKind::Function, "(function_declaration name: (identifier) @name) @def"@),
        (SymbolKind::Class, "(class_declaration name: (identifier) @name) @def"@),
        (SymbolKind::Method, "(method_definition name: (property_identifier) @name) @def"@),
        (SymbolKind::Function, "(lexical_declaration (variable_declarator name: (identifier) @name value: (arrow_function) @_val)) @def"@),
    ]
}

pub open spec fn go_query_table() -> Seq<(SymbolKind, Seq<char>)> {
    seq![
        (SymbolKind::Method, "(method_declaration name: (field_identifier) @name) @def"@),
        (SymbolKind::Function, "(function_declaration name: (identifier) @name) @def"@),
        (SymbolKind::Struct, "(type_declaration (type_spec name: (type_identifier) @name type: (struct_type))) @def"@),
        (SymbolKind::Interface, "(type_declaration (type_spec name: (type_identifier) @name type: (interface_type))) @def"@),
        (SymbolKind::Type, "(type_declaration (type_spec name: (type_identifier) @name)) @def"@),
        (SymbolKind::Constant, "(const_declaration (const_spec name: (identifier) @name)) @def"@),
    ]
}

pub open spec fn python_query_table() -> Seq<(SymbolKind, Seq<char>)> {
    seq![
        (SymbolKind::Method, "(class_definition body: (block (function_definition name: (identifier) @name) @def))"@),
        (SymbolKind::Method, "(class_definition body: (block (decorated_definition definition: (function_definition name: (identifier) @name)) @def))"@),
        (SymbolKind::Function, "(decorated_definition definition: (function_definition name: (identifier) @name)) @def"@),
        (SymbolKind::Class, "(decorated_definition definition: (class_definition name: (identifier) @name)) @def"@),
        (SymbolKind::Function, "(function_definition name: (identifier) @name) @def"@),
        (SymbolKind::Class, "(class_definition name: (identifier) @name) @def"@),
    ]
}

pub open spec fn c_query_table() -> Seq<(SymbolKind, Seq<char>)> {
    seq![
        (SymbolKind::Function, "(function_definition declarator: (function_declarator declarator: (identifier) @name)) @def"@),
        (SymbolKind::Function, "(function_definition declarator: (pointer_declarator declarator: (function_declarator declarator: (identifier) @name))) @def"@),
        (SymbolKind::Struct, "(struct_specifier name: (type_identifier) @name body: (_)) @def"@),
        (SymbolKind::Enum, "(enum_specifier name: (type_identifier) @name) @def"@),
        (SymbolKind::Type, "(type_definition declarator: (type_identifier) @name) @def"@),
        (SymbolKind::Constant, "(preproc_def name: (identifier) @name) @def"@),
    ]
}

pub open spec fn cpp_query_table() -> Seq<(SymbolKind, Seq<char>)> {
    seq![
        (SymbolKind::Method, "(function_definition declarator: (function_declarator declarator: (qualified_identifier name: (identifier) @name))) @def"@),
        (SymbolKind::Function, "(function_definition declarator: (function_declarator declarator: (identifier) @name)) @def"@),
        (SymbolKind::Class, "(class_specifier name: (type_identifier) @name) @def"@),
        (SymbolKind::Struct, "(struct_specifier name: (type_identifier) @name body: (_)) @def"@),
        (SymbolKind::Module, "(namespace_definition name: (namespace_identifier) @name) @def"@),
        (SymbolKind::Enum, "(enum_specifier name: (type_identifier) @name) @def"@),
        (SymbolKind::Type, "(type_definition declarator: (type_identifier) @name) @def"@),
    ]
}

pub open spec fn java_query_table() -> Seq<(SymbolKind, Seq<char>)> {
    seq![
        (SymbolKind::Method, "(method_declaration name: (identifier) @name) @def"@),
        (SymbolKind::Method, "(constructor_declaration name: (identifier) @name) @def"@),
        (SymbolKind::Class, "(class_declaration name: (identifier) @name) @def"@),
        (SymbolKind::Interface, "(interface_declaration name: (identifier) @name) @def"@),
        (SymbolKind::Enum, "(enum_declaration name: (identifier) @name) @def"@),
    ]
}

pub open spec fn ruby_query_table() -> Seq<(SymbolKind, Seq<char>)> {
    seq![
        (SymbolKind::Method, "(method name: (_) @name) @def"@),
        (SymbolKind::Method, "(singleton_method name: (_) @name) @def"@),
        (SymbolKind::Class, "(class name: (constant) @name) @def"@),
        (SymbolKind::Module, "(module name: (constant) @name) @def"@),
    ]
}

pub open spec fn php_query_table() -> Seq<(SymbolKind, Seq<char>)> {
    seq![
        (SymbolKind::Method, "(method_declaration name: (name) @name) @def"@),
        (SymbolKind::Function, "(function_definition name: (name) @name) @def"@),
        (SymbolKind::Class, "(class_declaration name: (name) @name) @def"@),
        (SymbolKind::Interface, "(interface_declaration name: (name) @name) @def"@),
        (SymbolKind::Trait, "(trait_declaration name: (name) @name) @def"@),
        (SymbolKind::Enum, "(enum_declaration name: (name) @name) @def"@),
        (SymbolKind::Module, "(namespace_definition name: (namespace_name) @name) @def"@),
    ]
}

pub open spec fn bash_query_table() -> Seq<(SymbolKind, Seq<char>)> {
    seq![
        (SymbolKind::Function, "(function_definition name: (word) @name) @def"@),
    ]
}

pub open spec fn css_query_table() -> Seq<(SymbolKind, Seq<char>)> {
    seq![
        (SymbolKind::Class, "(rule_set (selectors) @name) @def"@),
        (SymbolKind::Function, "(keyframes_statement (keyframes_name) @name) @def"@),
    ]
}

pub open spec fn lua_query_table() -> Seq<(SymbolKind, Seq<char>)> {
    seq![
        (SymbolKind::Function, "(function_declaration name: (identifier) @name) @def"@),
        (SymbolKind::Method, "(function_declaration name: (method_index_expression method: (identifier) @name)) @def"@),
        (SymbolKind::Function, "(function_declaration name: (dot_index_expression field: (identifier) @name)) @def"@),
    ]
}

} // verus!
