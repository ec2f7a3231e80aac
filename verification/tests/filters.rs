use syms::custom::CustomLang;
use syms::filters::{matches_filters, project_langs_for, sentinels, validate_filters, FilterError};
use syms::grammars;
use syms::language::Language;
use syms::symbol::{Symbol, SymbolKind, Visibility};

fn strings(v: &[&str]) -> Vec<String> {
    v.iter().map(|s| s.to_string()).collect()
}

fn custom() -> Vec<CustomLang> {
    vec![CustomLang {
        name: "kakoune".to_string(),
        short: "kak".to_string(),
        extensions: vec!["kak".to_string()],
        ts_language: grammars::rust(),
        queries: Vec::new(),
        injection_query_text: None,
    }]
}

#[test]
fn accepted_filters() {
    let c = custom();
    assert!(validate_filters(&strings(&["fn", "method", "test"]), &strings(&["rs", "kak"]), Some("jsonl"), &c).is_ok());
    assert!(validate_filters(&[], &[], None, &c).is_ok());
    assert!(validate_filters(&[], &[], Some("json"), &[]).is_ok());
}

#[test]
fn unknown_kind() {
    let c = custom();
    match validate_filters(&strings(&["fn", "fun", "bogus"]), &strings(&["zz"]), Some("xml"), &c) {
        Err(e) => {
            assert!(matches!(&e, FilterError::UnknownKind(k) if k == "fun"));
            assert_eq!(
                e.message(&c),
                "unknown kind 'fun'. Valid kinds: fn, method, class, struct, enum, type, interface, const, mod, trait, component, hook, test"
            );
        },
        Ok(()) => panic!("accepted"),
    }
}

#[test]
fn unknown_language() {
    let c = custom();
    match validate_filters(&strings(&["fn"]), &strings(&["rs", "zig"]), Some("xml"), &c) {
        Err(e) => {
            assert!(matches!(&e, FilterError::UnknownLanguage(l) if l == "zig"));
            assert_eq!(
                e.message(&c),
                "unknown language 'zig'. Valid languages: rs, ts, tsx, js, go, py, c, cpp, java, rb, php, sh, css, lua, kak"
            );
        },
        Ok(()) => panic!("accepted"),
    }
    assert!(matches!(validate_filters(&[], &strings(&["kak"]), None, &[]), Err(FilterError::UnknownLanguage(_))));
}

#[test]
fn unknown_format() {
    match validate_filters(&[], &[], Some("xml"), &[]) {
        Err(e) => {
            assert!(matches!(&e, FilterError::UnknownFormat(f) if f == "xml"));
            assert_eq!(e.message(&[]), "unknown format 'xml'. Valid formats: json, jsonl");
        },
        Ok(()) => panic!("accepted"),
    }
}

fn sym(kind: SymbolKind, lang: Language, vis: Option<Visibility>) -> Symbol {
    Symbol {
        name: "x".to_string(),
        kind,
        lang,
        file: "f".to_string(),
        line: 1,
        end_line: 1,
        col: 1,
        signature: String::new(),
        visibility: vis,
    }
}

#[test]
fn symbol_filters() {
    let c = custom();
    let f = sym(SymbolKind::Function, Language::Rust, Some(Visibility::Private));
    assert!(matches_filters(&f, &[], &[], false, &c));
    assert!(!matches_filters(&f, &[], &[], true, &c));
    assert!(matches_filters(&f, &strings(&["method", "fn"]), &strings(&["rs"]), false, &c));
    assert!(!matches_filters(&f, &strings(&["method"]), &[], false, &c));
    assert!(!matches_filters(&f, &[], &strings(&["go"]), false, &c));
    let k = sym(SymbolKind::Class, Language::Custom(0), None);
    assert!(matches_filters(&k, &strings(&["class"]), &strings(&["kak"]), true, &c));
    let p = sym(SymbolKind::Test, Language::Go, Some(Visibility::Public));
    assert!(matches_filters(&p, &strings(&["test"]), &strings(&["go", "py"]), true, &c));
}

#[test]
fn project_sentinels() {
    assert_eq!(
        sentinels(),
        vec!["artisan", "composer.json", "Cargo.toml", "go.mod", "pyproject.toml", "requirements.txt", "package.json"]
    );
    assert_eq!(project_langs_for(&[false, false, true, false, false, false, false]), Some(strings(&["rs"])));
    assert_eq!(project_langs_for(&[false, true, false, false, false, false, true]), Some(strings(&["php"])));
    assert_eq!(project_langs_for(&[false, false, false, false, false, false, true]), Some(strings(&["ts", "tsx"])));
    assert_eq!(project_langs_for(&[false, false, false, false, false, true, false]), Some(strings(&["py"])));
    assert_eq!(project_langs_for(&[false, false, false, true, true, false, false]), Some(strings(&["go"])));
    assert_eq!(project_langs_for(&[false; 7]), None);
    assert_eq!(project_langs_for(&[]), None);
}
