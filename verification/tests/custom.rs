use syms::custom::{
    build_custom_lang, config_dir, default_short, lang_name, parse_kind, shellexpand, symbol_name,
    CustomConfig, QueryConfig,
};
use syms::grammars;
use syms::language::Language;
use syms::parser::extract_symbols;
use syms::queries::{compile_injection_query, compiled_injection_query, compiled_queries, injection_query_text, Catalog};
use syms::symbol::SymbolKind;

#[test]
fn kinds_by_configuration_name() {
    assert_eq!(parse_kind("function"), Some(SymbolKind::Function));
    assert_eq!(parse_kind("constant"), Some(SymbolKind::Constant));
    assert_eq!(parse_kind("module"), Some(SymbolKind::Module));
    assert_eq!(parse_kind("Fn"), None);
    assert_eq!(parse_kind("bogus"), None);
}

#[test]
fn home_expansion() {
    assert_eq!(shellexpand("~/grammars/kak.so", Some("/home/u")), "/home/u/grammars/kak.so");
    assert_eq!(shellexpand("~/kak.so", None), "./kak.so");
    assert_eq!(shellexpand("/abs/kak.so", Some("/home/u")), "/abs/kak.so");
    assert_eq!(shellexpand("~kak.so", Some("/home/u")), "~kak.so");
    assert_eq!(shellexpand("~", Some("/home/u")), "~");
}

#[test]
fn names_and_defaults() {
    assert_eq!(symbol_name(None, "kak"), "tree_sitter_kak");
    assert_eq!(symbol_name(Some("ts_lang"), "kak"), "ts_lang");
    let exts = vec!["kak".to_string(), "kakrc".to_string()];
    assert_eq!(default_short(None, &exts, "kakoune"), "kak");
    assert_eq!(default_short(Some("k"), &exts, "kakoune"), "k");
    assert_eq!(default_short(None, &[], "kakoune"), "kakoune");
    assert_eq!(lang_name(Some("nix")), "nix");
    assert_eq!(lang_name(None), "unknown");
}

#[test]
fn configuration_directory() {
    assert_eq!(config_dir(Some("/xdg"), Some("/home/u")), "/xdg/syms/languages");
    assert_eq!(config_dir(Some("/xdg/"), None), "/xdg/syms/languages");
    assert_eq!(config_dir(None, Some("/home/u")), "/home/u/.config/syms/languages");
    assert_eq!(config_dir(None, None), "./.config/syms/languages");
    assert_eq!(config_dir(Some(""), None), "syms/languages");
}

fn rust_as_custom(injections: Option<&str>) -> syms::custom::CustomLang {
    let config = CustomConfig {
        extensions: vec!["rsx".to_string()],
        parser: "/nowhere/rsx.so".to_string(),
        symbol: None,
        short: None,
        queries: vec![
            QueryConfig { kind: "fn".to_string(), query: "(function_item name: (identifier) @name) @def".to_string() },
            QueryConfig { kind: "bogus".to_string(), query: "(struct_item name: (type_identifier) @name) @def".to_string() },
            QueryConfig { kind: "struct".to_string(), query: "((((".to_string() },
            QueryConfig { kind: "enum".to_string(), query: "(enum_item) @def".to_string() },
        ],
        injections: injections.map(|s| s.to_string()),
    };
    build_custom_lang("rsx".to_string(), config, grammars::rust())
}

#[test]
fn custom_language_queries_that_fail_are_left_out() {
    let lang = rust_as_custom(None);
    assert_eq!(lang.short, "rsx");
    assert_eq!(lang.queries.len(), 1);
    assert_eq!(lang.queries[0].kind, SymbolKind::Function);
    assert!(lang.queries[0].def_idx.is_some());
}

#[test]
fn every_builtin_query_compiles() {
    let catalog = Catalog::new(Vec::new());
    let langs = syms::queries::builtin_languages();
    let expected = [8usize, 11, 11, 6, 6, 6, 6, 7, 5, 4, 7, 1, 2, 3];
    for (lang, n) in langs.iter().zip(expected.iter()) {
        assert_eq!(compiled_queries(&catalog, *lang).len(), *n, "{lang:?}");
        assert_eq!(syms::queries::raw_queries(*lang).len(), *n);
        assert!(compiled_injection_query(&catalog, *lang).is_none());
    }
    assert_eq!(compiled_queries(&catalog, Language::Custom(0)).len(), 0);
}

#[test]
fn custom_language_extraction_and_injection() {
    let inj = "((string_literal (string_content) @injection.content) (#set! injection.language \"python\"))";
    let custom = vec![rust_as_custom(Some(inj))];
    assert_eq!(injection_query_text(&custom, Language::Custom(0)), Some(inj));
    assert_eq!(injection_query_text(&custom, Language::Rust), None);
    let compiled = compile_injection_query(&custom, Language::Custom(0));
    match compiled {
        Some(q) => assert_eq!(q.pattern_languages, vec![Some("python".to_string())]),
        None => panic!("injection query did not compile"),
    }
    let catalog = Catalog::new(custom);
    assert_eq!(compiled_queries(&catalog, Language::Custom(0)).len(), 1);
    assert!(compiled_injection_query(&catalog, Language::Custom(0)).is_some());
    let src = "fn outer() {\n    let s = \"def inner(): pass\";\n}\n";
    let syms = match extract_symbols("x.rsx", src.as_bytes(), Language::Custom(0), &catalog) {
        Ok(v) => v,
        Err(_) => panic!("extraction failed"),
    };
    let got: Vec<(String, SymbolKind, Language, usize, usize)> =
        syms.iter().map(|s| (s.name.clone(), s.kind, s.lang, s.line, s.col)).collect();
    assert_eq!(
        got,
        vec![
            ("outer".to_string(), SymbolKind::Function, Language::Custom(0), 1, 4),
            ("inner".to_string(), SymbolKind::Function, Language::Python, 2, 18),
        ]
    );
    assert_eq!(syms[0].visibility, None);
    assert_eq!(syms[1].visibility, Some(syms::symbol::Visibility::Public));
}

#[test]
fn injection_with_a_language_capture() {
    let inj = "(macro_invocation macro: (identifier) @injection.language (token_tree) @injection.content)";
    let custom = vec![rust_as_custom(Some(inj))];
    let catalog = Catalog::new(custom);
    let src = "fn a() {}\nbash!(greet() { echo; })\nnope!(fn b() {})\n";
    let syms = match extract_symbols("x.rsx", src.as_bytes(), Language::Custom(0), &catalog) {
        Ok(v) => v,
        Err(_) => panic!("extraction failed"),
    };
    let got: Vec<(String, Language)> = syms.iter().map(|s| (s.name.clone(), s.lang)).collect();
    assert_eq!(got, vec![("a".to_string(), Language::Custom(0)), ("greet".to_string(), Language::Bash)]);
}
