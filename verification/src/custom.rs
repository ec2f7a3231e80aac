use vstd::prelude::*;

use crate::queries::{compiled_query_from, picks_in_order, CompiledQuery};
use crate::text::{chars_of, has_prefix, starts_with, string_from, string_from_chars, sub_chars};
use crate::ts::{query_capture_index, query_new};
use vstd::string::StringExecFns;
use crate::symbol::SymbolKind;
use crate::syntax::{first_from, lemma_first_from_range};
use crate::text::str_eq;

verus! {

/// A language loaded from a configuration file: its names, the file
/// extensions it claims, its grammar and its compiled symbol queries.
pub struct CustomLang {
    /// The configuration file's stem.
    pub name: String,
    /// The name shown in the listing and accepted by `--lang`.
    pub short: String,
    pub extensions: Vec<String>,
    pub ts_language: tree_sitter::Language,
    pub queries: Vec<CompiledQuery>,
    /// The tree-sitter injection query, if the configuration gives one.
    pub injection_query_text: Option<String>,
}

/// Language `l` claims the file extension `e`.
pub open spec fn claims_extension(l: CustomLang, e: Seq<char>) -> bool {
    exists|k: int| 0 <= k < l.extensions@.len() && (#[trigger] l.extensions@[k])@ == e
}

/// Custom language `i` claims the extension `e`.
pub open spec fn claims_at(cs: Seq<CustomLang>, e: Seq<char>) -> spec_fn(int) -> bool {
    |i: int| claims_extension(cs[i], e)
}

/// Custom language `i` is named `n` (by name or short name).
pub open spec fn named_at(cs: Seq<CustomLang>, n: Seq<char>) -> spec_fn(int) -> bool {
    |i: int| cs[i].name@ == n || cs[i].short@ == n
}

/// The first custom language that claims the extension `e`.
pub open spec fn custom_for_extension(cs: Seq<CustomLang>, e: Seq<char>) -> Option<int> {
    first_from(cs.len() as int, claims_at(cs, e), 0)
}

/// The first custom language whose name or short name is `n`.
pub open spec fn custom_for_injection_name(cs: Seq<CustomLang>, n: Seq<char>) -> Option<int> {
    first_from(cs.len() as int, named_at(cs, n), 0)
}

pub proof fn lemma_custom_lookup_range(cs: Seq<CustomLang>, s: Seq<char>)
    ensures
        custom_for_extension(cs, s) matches Some(i) ==> 0 <= i < cs.len(),
        custom_for_injection_name(cs, s) matches Some(i) ==> 0 <= i < cs.len(),
{
    lemma_first_from_range(cs.len() as int, claims_at(cs, s), 0);
    lemma_first_from_range(cs.len() as int, named_at(cs, s), 0);
}

/// The index found, if any, fits a `u16` (it can name a custom language).
pub open spec fn index_fits(o: Option<int>) -> bool {
    match o {
        Some(i) => i < 0x10000,
        None => true,
    }
}

/// The short name of custom language `i`, or `?` where there is none.
pub open spec fn custom_short_name(cs: Seq<CustomLang>, i: int) -> Seq<char> {
    if 0 <= i < cs.len() {
        cs[i].short@
    } else {
        "?"@
    }
}

fn claims(l: &CustomLang, ext: &str) -> (r: bool)
    ensures
        r == claims_extension(*l, ext@),
{
    let n = l.extensions.len();
    for k in 0..n
        invariant
            n == l.extensions@.len(),
            forall|j: int| 0 <= j < k ==> (#[trigger] l.extensions@[j])@ != ext@,
    {
        if str_eq(l.extensions[k].as_str(), ext) {
            return true;
        }
    }
    false
}

/// The index of the first custom language that claims a file extension.
pub fn from_extension(custom: &[CustomLang], ext: &str) -> (r: Option<u16>)
    requires
        index_fits(custom_for_extension(custom@, ext@)),
    ensures
        r == (match custom_for_extension(custom@, ext@) {
            Some(i) => Some(i as u16),
            None => None,
        }),
{
    let ghost pred = claims_at(custom@, ext@);
    let n = custom.len();
    for i in 0..n
        invariant
            n == custom@.len(),
            index_fits(custom_for_extension(custom@, ext@)),
            custom_for_extension(custom@, ext@) == first_from(n as int, pred, 0),
            pred == claims_at(custom@, ext@),
            first_from(n as int, pred, 0) == first_from(n as int, pred, i as int),
    {
        if claims(&custom[i], ext) {
            assert(pred(i as int));
            return Some(i as u16);
        }
        assert(!pred(i as int));
    }
    None
}

/// The index of the first custom language whose name or short name is
/// `name`.
pub fn from_injection_name(custom: &[CustomLang], name: &str) -> (r: Option<u16>)
    requires
        index_fits(custom_for_injection_name(custom@, name@)),
    ensures
        r == (match custom_for_injection_name(custom@, name@) {
            Some(i) => Some(i as u16),
            None => None,
        }),
{
    let ghost pred = named_at(custom@, name@);
    let n = custom.len();
    for i in 0..n
        invariant
            n == custom@.len(),
            index_fits(custom_for_injection_name(custom@, name@)),
            custom_for_injection_name(custom@, name@) == first_from(n as int, pred, 0),
            pred == named_at(custom@, name@),
            first_from(n as int, pred, 0) == first_from(n as int, pred, i as int),
    {
        if str_eq(custom[i].name.as_str(), name) || str_eq(custom[i].short.as_str(), name) {
            assert(pred(i as int));
            return Some(i as u16);
        }
        assert(!pred(i as int));
    }
    None
}

/// The custom language at an index.
pub fn get(custom: &[CustomLang], index: u16) -> (r: Option<&CustomLang>)
    ensures
        r matches Some(l) ==> index < custom@.len() && *l == custom@[index as int],
        r is None ==> index >= custom@.len(),
{
    if (index as usize) < custom.len() {
        Some(&custom[index as usize])
    } else {
        None
    }
}

/// The short name of the custom language at an index, or `?`.
pub fn short_name(custom: &[CustomLang], index: u16) -> (r: &str)
    ensures
        r@ == custom_short_name(custom@, index as int),
{
    match get(custom, index) {
        Some(l) => l.short.as_str(),
        None => "?",
    }
}

/// The kind that a configuration names.
pub open spec fn kind_for_name(s: Seq<char>) -> Option<SymbolKind> {
    if s == "fn"@ || s == "function"@ {
        Some(SymbolKind::Function)
    } else if s == "method"@ {
        Some(SymbolKind::Method)
    } else if s == "class"@ {
        Some(SymbolKind::Class)
    } else if s == "struct"@ {
        Some(SymbolKind::Struct)
    } else if s == "enum"@ {
        Some(SymbolKind::Enum)
    } else if s == "interface"@ {
        Some(SymbolKind::Interface)
    } else if s == "type"@ {
        Some(SymbolKind::Type)
    } else if s == "const"@ || s == "constant"@ {
        Some(SymbolKind::Constant)
    } else if s == "mod"@ || s == "module"@ {
        Some(SymbolKind::Module)
    } else if s == "trait"@ {
        Some(SymbolKind::Trait)
    } else if s == "component"@ {
        Some(SymbolKind::Component)
    } else if s == "hook"@ {
        Some(SymbolKind::Hook)
    } else if s == "test"@ {
        Some(SymbolKind::Test)
    } else {
        None
    }
}

/// The kind that a query in a custom language's configuration names.
pub fn parse_kind(s: &str) -> (r: Option<SymbolKind>)
    ensures
        r == kind_for_name(s@),
{
    if str_eq(s, "fn") || str_eq(s, "function") {
        Some(SymbolKind::Function)
    } else if str_eq(s, "method") {
        Some(SymbolKind::Method)
    } else if str_eq(s, "class") {
        Some(SymbolKind::Class)
    } else if str_eq(s, "struct") {
        Some(SymbolKind::Struct)
    } else if str_eq(s, "enum") {
        Some(SymbolKind::Enum)
    } else if str_eq(s, "interface") {
        Some(SymbolKind::Interface)
    } else if str_eq(s, "type") {
        Some(SymbolKind::Type)
    } else if str_eq(s, "const") || str_eq(s, "constant") {
        Some(SymbolKind::Constant)
    } else if str_eq(s, "mod") || str_eq(s, "module") {
        Some(SymbolKind::Module)
    } else if str_eq(s, "trait") {
        Some(SymbolKind::Trait)
    } else if str_eq(s, "component") {
        Some(SymbolKind::Component)
    } else if str_eq(s, "hook") {
        Some(SymbolKind::Hook)
    } else if str_eq(s, "test") {
        Some(SymbolKind::Test)
    } else {
        None
    }
}

// ----------------------------------------------------------------------
// Loading a custom language
// ----------------------------------------------------------------------

/// One query of a custom language's configuration.
pub struct QueryConfig {
    pub kind: String,
    pub query: String,
}

/// What a custom language's configuration file gives, once read.
pub struct CustomConfig {
    pub extensions: Vec<String>,
    /// Path of the grammar's shared library.
    pub parser: String,
    /// The symbol to call in the library (default `tree_sitter_{name}`).
    pub symbol: Option<String>,
    /// The short name (default: the first extension).
    pub short: Option<String>,
    pub queries: Vec<QueryConfig>,
    /// The injection query, if any.
    pub injections: Option<String>,
}

/// The name of a custom language: its configuration file's stem.
pub open spec fn lang_name_spec(stem: Option<Seq<char>>) -> Seq<char> {
    match stem {
        Some(s) => s,
        None => "unknown"@,
    }
}

pub fn lang_name(stem: Option<&str>) -> (r: String)
    ensures
        r@ == lang_name_spec(match stem {
            Some(s) => Some(s@),
            None => None,
        }),
{
    match stem {
        Some(s) => string_from(s),
        None => string_from("unknown"),
    }
}

/// `~/` at the start of a path stands for the home directory (`.` when it
/// is not known).
pub open spec fn expand_home(path: Seq<char>, home: Option<Seq<char>>) -> Seq<char> {
    if has_prefix(path, "~/"@) {
        (match home {
            Some(h) => h,
            None => "."@,
        }) + "/"@ + path.skip(2)
    } else {
        path
    }
}

/// Expands a leading `~/` in a path.
pub fn shellexpand(path: &str, home: Option<&str>) -> (r: String)
    ensures
        r@ == expand_home(path@, match home {
            Some(h) => Some(h@),
            None => None,
        }),
{
    let cs = chars_of(path);
    if starts_with(cs.as_slice(), "~/") {
        proof {
            reveal_strlit("~/");
        }
        let mut out = match home {
            Some(h) => string_from(h),
            None => string_from("."),
        };
        out.append("/");
        let rest = sub_chars(cs.as_slice(), 2, cs.len());
        let rest_s = string_from_chars(rest.as_slice());
        out.append(rest_s.as_str());
        proof {
            assert(rest@ == path@.skip(2));
        }
        out
    } else {
        string_from(path)
    }
}

/// The library symbol that gives a custom language's grammar.
pub open spec fn symbol_name_spec(symbol: Option<Seq<char>>, name: Seq<char>) -> Seq<char> {
    match symbol {
        Some(s) => s,
        None => "tree_sitter_"@ + name,
    }
}

pub fn symbol_name(symbol: Option<&str>, name: &str) -> (r: String)
    ensures
        r@ == symbol_name_spec(match symbol {
            Some(s) => Some(s@),
            None => None,
        }, name@),
{
    match symbol {
        Some(s) => string_from(s),
        None => {
            let mut out = string_from("tree_sitter_");
            out.append(name);
            out
        },
    }
}

/// The short name of a custom language: the configured one, else its first
/// extension, else its name.
pub open spec fn short_spec(short: Option<Seq<char>>, extensions: Seq<String>, name: Seq<char>) -> Seq<char> {
    match short {
        Some(s) => s,
        None => if extensions.len() > 0 {
            extensions[0]@
        } else {
            name
        },
    }
}

pub fn default_short(short: Option<&str>, extensions: &[String], name: &str) -> (r: String)
    ensures
        r@ == short_spec(match short {
            Some(s) => Some(s@),
            None => None,
        }, extensions@, name@),
{
    match short {
        Some(s) => string_from(s),
        None => if extensions.len() > 0 {
            string_from(extensions[0].as_str())
        } else {
            string_from(name)
        },
    }
}

/// Compiles the queries of a custom language. A query whose kind is
/// unknown, that does not compile, or that has no `@name` capture is left
/// out.
pub fn compile_custom_queries(g: &tree_sitter::Language, configs: &[QueryConfig]) -> (r: Vec<
    CompiledQuery,
>)
    ensures
        r@.len() <= configs@.len(),
        exists|picked: Seq<int>|
            #![trigger picks_in_order(picked, configs@.len() as int)]
            picked.len() == r@.len() && picks_in_order(picked, configs@.len() as int) && forall|k: int|
                0 <= k < r@.len() ==> kind_for_name(configs@[picked[k]].kind@) == Some(
                    (#[trigger] r@[k]).kind,
                ),
{
    let mut out: Vec<CompiledQuery> = Vec::new();
    let n = configs.len();
    let ghost mut picked: Seq<int> = Seq::empty();
    for j in 0..n
        invariant
            n == configs@.len(),
            out@.len() <= j,
            picked.len() == out@.len(),
            forall|k: int| 0 <= k < picked.len() ==> 0 <= #[trigger] picked[k] < j,
            forall|a: int, b: int| 0 <= a < b < picked.len() ==> #[trigger] picked[a] < #[trigger] picked[b],
            forall|k: int|
                0 <= k < out@.len() ==> kind_for_name(configs@[picked[k]].kind@) == Some(
                    (#[trigger] out@[k]).kind,
                ),
    {
        let qc = &configs[j];
        if let Some(kind) = parse_kind(qc.kind.as_str()) {
            if let Ok(query) = query_new(g, qc.query.as_str()) {
                let name_idx = query_capture_index(&query, "name");
                let def_idx = query_capture_index(&query, "def");
                if let Some(cq) = compiled_query_from(query, kind, name_idx, def_idx) {
                    let ghost before = out@;
                    out.push(cq);
                    proof {
                        let old_picked = picked;
                        picked = picked.push(j as int);
                        assert forall|k: int| 0 <= k < out@.len() implies kind_for_name(
                            configs@[picked[k]].kind@,
                        ) == Some((#[trigger] out@[k]).kind) by {
                            if k < before.len() {
                                assert(out@[k] == before[k]);
                                assert(picked[k] == old_picked[k]);
                            }
                        }
                    }
                }
            }
        }
    }
    assert(picks_in_order(picked, configs@.len() as int));
    out
}

/// Puts a custom language together from its name, its configuration and
/// the grammar that its library gave.
pub fn build_custom_lang(name: String, config: CustomConfig, ts_language: tree_sitter::Language) -> (r:
    CustomLang)
    ensures
        r.name == name,
        r.short@ == short_spec(match config.short {
            Some(s) => Some(s@),
            None => None,
        }, config.extensions@, name@),
        r.extensions == config.extensions,
        r.injection_query_text == config.injections,
        r.ts_language == ts_language,
        r.queries@.len() <= config.queries@.len(),
        exists|picked: Seq<int>|
            #![trigger picks_in_order(picked, config.queries@.len() as int)]
            picked.len() == r.queries@.len() && picks_in_order(picked, config.queries@.len() as int)
                && forall|k: int|
                0 <= k < r.queries@.len() ==> kind_for_name(config.queries@[picked[k]].kind@) == Some(
                    (#[trigger] r.queries@[k]).kind,
                ),
{
    let queries = compile_custom_queries(&ts_language, config.queries.as_slice());
    let short = match &config.short {
        Some(s) => default_short(Some(s.as_str()), config.extensions.as_slice(), name.as_str()),
        None => default_short(None, config.extensions.as_slice(), name.as_str()),
    };
    CustomLang {
        name,
        short,
        extensions: config.extensions,
        ts_language,
        queries,
        injection_query_text: config.injections,
    }
}

/// Joins a relative path segment to a directory path, as
/// `std::path::Path::join` does on Unix: a `/` goes between them unless the
/// directory is empty or already ends with one.
pub open spec fn join_path(base: Seq<char>, seg: Seq<char>) -> Seq<char> {
    if base.len() == 0 || base.last() == '/' {
        base + seg
    } else {
        base + "/"@ + seg
    }
}

fn join(base: String, seg: &str) -> (r: String)
    ensures
        r@ == join_path(base@, seg@),
{
    let cs = chars_of(base.as_str());
    let mut out = base;
    if cs.len() == 0 || cs[cs.len() - 1] == '/' {
        out.append(seg);
    } else {
        out.append("/");
        out.append(seg);
    }
    out
}

/// The directory that custom language configurations are read from:
/// `$XDG_CONFIG_HOME/syms/languages`, else `$HOME/.config/syms/languages`
/// (`.` standing for an unknown home).
pub open spec fn config_dir_spec(xdg: Option<Seq<char>>, home: Option<Seq<char>>) -> Seq<char> {
    let base = match xdg {
        Some(x) => x,
        None => join_path(
            match home {
                Some(h) => h,
                None => "."@,
            },
            ".config"@,
        ),
    };
    join_path(join_path(base, "syms"@), "languages"@)
}

pub fn config_dir(xdg: Option<&str>, home: Option<&str>) -> (r: String)
    ensures
        r@ == config_dir_spec(match xdg {
            Some(x) => Some(x@),
            None => None,
        }, match home {
            Some(h) => Some(h@),
            None => None,
        }),
{
    let base = match xdg {
        Some(x) => string_from(x),
        None => {
            let h = match home {
                Some(h) => string_from(h),
                None => string_from("."),
            };
            join(h, ".config")
        },
    };
    join(join(base, "syms"), "languages")
}

} // verus!
