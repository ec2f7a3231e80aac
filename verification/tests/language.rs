use syms::custom::CustomLang;
use syms::grammars;
use syms::language::Language;
use syms::symbol::SymbolKind;

fn custom_lang(name: &str, short: &str, exts: &[&str]) -> CustomLang {
    CustomLang {
        name: name.to_string(),
        short: short.to_string(),
        extensions: exts.iter().map(|e| e.to_string()).collect(),
        ts_language: grammars::rust(),
        queries: Vec::new(),
        injection_query_text: None,
    }
}

#[test]
fn builtin_extensions() {
    let none: &[CustomLang] = &[];
    let cases = [
        ("rs", Language::Rust),
        ("ts", Language::TypeScript),
        ("cts", Language::TypeScript),
        ("mts", Language::TypeScript),
        ("tsx", Language::Tsx),
        ("js", Language::JavaScript),
        ("cjs", Language::JavaScript),
        ("mjs", Language::JavaScript),
        ("jsx", Language::JavaScript),
        ("go", Language::Go),
        ("py", Language::Python),
        ("pyi", Language::Python),
        ("c", Language::C),
        ("h", Language::C),
        ("cpp", Language::Cpp),
        ("cc", Language::Cpp),
        ("cxx", Language::Cpp),
        ("hpp", Language::Cpp),
        ("hh", Language::Cpp),
        ("hxx", Language::Cpp),
        ("java", Language::Java),
        ("rb", Language::Ruby),
        ("gemspec", Language::Ruby),
        ("php", Language::Php),
        ("sh", Language::Bash),
        ("bash", Language::Bash),
        ("zsh", Language::Bash),
        ("css", Language::Css),
        ("lua", Language::Lua),
    ];
    for (ext, lang) in cases {
        assert_eq!(Language::from_extension(ext, none), Some(lang), "{ext}");
    }
    assert_eq!(Language::from_extension("kak", none), None);
    assert_eq!(Language::from_extension("", none), None);
    assert_eq!(Language::from_extension("RS", none), None);
}

#[test]
fn custom_extensions_come_after_builtins() {
    let custom = vec![custom_lang("kak", "kak", &["kak", "rs"]), custom_lang("nix", "nx", &["nix"])];
    assert_eq!(Language::from_extension("kak", &custom), Some(Language::Custom(0)));
    assert_eq!(Language::from_extension("nix", &custom), Some(Language::Custom(1)));
    assert_eq!(Language::from_extension("rs", &custom), Some(Language::Rust));
    assert_eq!(Language::from_extension("zig", &custom), None);
    assert_eq!(syms::custom::from_extension(&custom, "nix"), Some(1));
    assert_eq!(syms::custom::from_extension(&custom, "rs"), Some(0));
}

#[test]
fn languages_from_paths() {
    let none: &[CustomLang] = &[];
    assert_eq!(Language::from_path("src/main.rs", none), Some(Language::Rust));
    assert_eq!(Language::from_path("./web/App.tsx", none), Some(Language::Tsx));
    assert_eq!(Language::from_path("Makefile", none), None);
    assert_eq!(Language::from_path(".bashrc", none), None);
    assert_eq!(Language::from_path("dir.rs/file", none), None);
    assert_eq!(Language::from_path("archive.tar.gz", none), None);
    assert_eq!(Language::from_path("x.d.ts", none), Some(Language::TypeScript));
}

#[test]
fn injection_names() {
    let custom = vec![custom_lang("kakoune", "kak", &["kak"])];
    assert_eq!(Language::from_injection_name("rust", &custom), Some(Language::Rust));
    assert_eq!(Language::from_injection_name("c++", &custom), Some(Language::Cpp));
    assert_eq!(Language::from_injection_name("cpp", &custom), Some(Language::Cpp));
    assert_eq!(Language::from_injection_name("sh", &custom), Some(Language::Bash));
    assert_eq!(Language::from_injection_name("typescript", &custom), Some(Language::TypeScript));
    assert_eq!(Language::from_injection_name("kakoune", &custom), Some(Language::Custom(0)));
    assert_eq!(Language::from_injection_name("kak", &custom), Some(Language::Custom(0)));
    assert_eq!(Language::from_injection_name("rs", &custom), None);
    assert_eq!(syms::custom::from_injection_name(&custom, "nope"), None);
}

#[test]
fn short_names_and_colors() {
    let custom = vec![custom_lang("kakoune", "kak", &["kak"])];
    let expected = [
        (Language::Rust, "rs", "33"),
        (Language::TypeScript, "ts", "36"),
        (Language::Tsx, "tsx", "36"),
        (Language::JavaScript, "js", "33"),
        (Language::Go, "go", "36"),
        (Language::Python, "py", "35"),
        (Language::C, "c", "32"),
        (Language::Cpp, "cpp", "32"),
        (Language::Java, "java", "31"),
        (Language::Ruby, "rb", "35"),
        (Language::Php, "php", "35"),
        (Language::Bash, "sh", "32"),
        (Language::Css, "css", "36"),
        (Language::Lua, "lua", "36"),
        (Language::Custom(0), "kak", "35"),
    ];
    for (lang, short, color) in expected {
        assert_eq!(lang.short_name(&custom), short);
        assert_eq!(lang.color_code(), color);
    }
    assert_eq!(Language::Custom(7).short_name(&custom), "?");
    assert_eq!(syms::custom::short_name(&custom, 3), "?");
    assert_eq!(syms::custom::short_name(&custom, 0), "kak");
    assert!(syms::custom::get(&custom, 0).is_some());
    assert!(syms::custom::get(&custom, 1).is_none());
}

#[test]
fn kind_names_and_colors() {
    let expected = [
        (SymbolKind::Function, "fn", "35"),
        (SymbolKind::Method, "method", "35"),
        (SymbolKind::Class, "class", "36"),
        (SymbolKind::Struct, "struct", "36"),
        (SymbolKind::Enum, "enum", "36"),
        (SymbolKind::Interface, "interface", "34"),
        (SymbolKind::Type, "type", "34"),
        (SymbolKind::Constant, "const", "33"),
        (SymbolKind::Module, "mod", "32"),
        (SymbolKind::Trait, "trait", "34"),
        (SymbolKind::Component, "component", "36"),
        (SymbolKind::Hook, "hook", "33"),
        (SymbolKind::Test, "test", "32"),
    ];
    for (kind, short, color) in expected {
        assert_eq!(kind.short_name(), short);
        assert_eq!(kind.color_code(), color);
        assert_eq!(syms::custom::parse_kind(short), Some(kind));
    }
}
