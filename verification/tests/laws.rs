use syms::custom::parse_kind;
use syms::filters::{matches_filters, validate_filters};
use syms::language::Language;
use syms::parser::extract_symbols;
use syms::queries::{builtin_languages, Catalog};
use syms::symbol::{Symbol, SymbolKind, Visibility};

const KINDS: [SymbolKind; 13] = [
    SymbolKind::Function,
    SymbolKind::Method,
    SymbolKind::Class,
    SymbolKind::Struct,
    SymbolKind::Enum,
    SymbolKind::Interface,
    SymbolKind::Type,
    SymbolKind::Constant,
    SymbolKind::Module,
    SymbolKind::Trait,
    SymbolKind::Component,
    SymbolKind::Hook,
    SymbolKind::Test,
];

#[test]
fn short_name_of_a_builtin_language_is_its_extension() {
    for lang in builtin_languages() {
        assert_eq!(Language::from_extension(lang.short_name(&[]), &[]), Some(lang));
    }
}

#[test]
fn short_name_of_a_kind_parses_back() {
    for kind in KINDS {
        assert_eq!(parse_kind(kind.short_name()), Some(kind));
    }
}

#[test]
fn filters_accept_every_short_name() {
    let kinds: Vec<String> = KINDS.iter().map(|k| k.short_name().to_string()).collect();
    let langs: Vec<String> = builtin_languages().iter().map(|l| l.short_name(&[]).to_string()).collect();
    assert!(validate_filters(&kinds, &langs, None, &[]).is_ok());
}

#[test]
fn without_filters_everything_passes() {
    for kind in KINDS {
        let s = Symbol {
            name: "n".to_string(),
            kind,
            lang: Language::Go,
            file: "f".to_string(),
            line: 1,
            end_line: 1,
            col: 1,
            signature: String::new(),
            visibility: Some(Visibility::Private),
        };
        assert!(matches_filters(&s, &[], &[], false, &[]));
    }
}

#[test]
fn extracted_symbols_are_ordered_and_unique() {
    let src = "impl A {\n    fn f() {}\n    fn g() {}\n}\nfn h() {}\nstruct S;\n";
    let catalog = Catalog::new(Vec::new());
    let syms = match extract_symbols("a.rs", src.as_bytes(), Language::Rust, &catalog) {
        Ok(v) => v,
        Err(_) => panic!("extraction failed"),
    };
    let positions: Vec<(usize, usize)> = syms.iter().map(|s| (s.line, s.col)).collect();
    assert_eq!(positions, vec![(2, 8), (3, 8), (5, 4), (6, 8)]);
    assert_eq!(syms[0].kind, SymbolKind::Method);
    assert!(syms.iter().all(|s| s.file == "a.rs" && !s.name.is_empty()));
}
