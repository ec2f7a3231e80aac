use syms::language::Language;
use syms::parser::{dedup_by_position, extract_signature, finish_symbols, go_receiver_type, reclassify_semantic_kind};
use syms::symbol::{Symbol, SymbolKind, Visibility};
use syms::syntax::TextRange;
use Language::{Go, JavaScript, Python, Rust, Tsx, TypeScript};
use SymbolKind::{Component, Function, Hook, Method, Test};

fn sym(name: &str, kind: SymbolKind, lang: Language, line: usize, col: usize) -> Symbol {
    Symbol {
        name: name.to_string(),
        kind,
        lang,
        file: "f".to_string(),
        line,
        end_line: line,
        col,
        signature: name.to_string(),
        visibility: Some(Visibility::Private),
    }
}

fn whole(src: &[u8]) -> TextRange {
    TextRange { start_byte: 0, end_byte: src.len(), start_row: 0, start_col: 0, end_row: 0, end_col: 0 }
}

#[test]
fn dedup_keeps_the_first_symbol_at_each_position() {
    let input = vec![
        sym("a", SymbolKind::Method, Language::Rust, 2, 1),
        sym("b", SymbolKind::Struct, Language::Rust, 1, 5),
        sym("a_again", SymbolKind::Function, Language::Rust, 2, 1),
        sym("c", SymbolKind::Enum, Language::Rust, 1, 2),
        sym("b_again", SymbolKind::Function, Language::Rust, 1, 5),
    ];
    let out = dedup_by_position(input);
    let names: Vec<(&str, SymbolKind)> = out.iter().map(|s| (s.name.as_str(), s.kind)).collect();
    assert_eq!(names, vec![("c", SymbolKind::Enum), ("b", SymbolKind::Struct), ("a", SymbolKind::Method)]);
    assert!(dedup_by_position(Vec::new()).is_empty());
}

#[test]
fn finishing_dedups_then_reclassifies() {
    let input = vec![
        sym("TestRun", SymbolKind::Function, Language::Go, 3, 6),
        sym("useAuth", SymbolKind::Function, Language::TypeScript, 1, 1),
        sym("useAuth", SymbolKind::Method, Language::TypeScript, 1, 1),
    ];
    let out = finish_symbols(input);
    let got: Vec<(&str, SymbolKind)> = out.iter().map(|s| (s.name.as_str(), s.kind)).collect();
    assert_eq!(got, vec![("useAuth", SymbolKind::Hook), ("TestRun", SymbolKind::Test)]);
}

fn reclassified(name: &str, kind: SymbolKind, lang: Language) -> SymbolKind {
    let mut s = sym(name, kind, lang, 1, 1);
    reclassify_semantic_kind(&mut s);
    assert_eq!(s.name, name);
    s.kind
}

#[test]
fn semantic_kinds() {
    assert_eq!(reclassified("TestRun", Function, Go), Test);
    assert_eq!(reclassified("Test", Function, Go), Function);
    assert_eq!(reclassified("Server.TestRun", Method, Go), Method);
    assert_eq!(reclassified("test_x", Function, Python), Test);
    assert_eq!(reclassified("Foo.test_x", Method, Python), Test);
    assert_eq!(reclassified("Foo.tests", Method, Python), Method);
    assert_eq!(reclassified("App", Function, Tsx), Component);
    assert_eq!(reclassified("x.Bar", Function, Tsx), Component);
    assert_eq!(reclassified("useThing", Function, Tsx), Hook);
    assert_eq!(reclassified("use", Function, Tsx), Function);
    assert_eq!(reclassified("App", Method, Tsx), Method);
    assert_eq!(reclassified("useX", Function, TypeScript), Hook);
    assert_eq!(reclassified("usex", Function, TypeScript), Function);
    assert_eq!(reclassified("useX", Method, JavaScript), Method);
    assert_eq!(reclassified("useX", Function, JavaScript), Hook);
    assert_eq!(reclassified("test_x", Function, Rust), Function);
    assert_eq!(reclassified("Widget", Function, TypeScript), Function);
}

#[test]
fn signatures_are_first_lines_trimmed() {
    let src = b"   fn x() {\r\n    body\n}";
    assert_eq!(extract_signature(src, whole(src)), "fn x() {");
    let src = b"\nsecond";
    assert_eq!(extract_signature(src, whole(src)), "");
    let src = b"only line \t";
    assert_eq!(extract_signature(src, whole(src)), "only line");
    let src = b"abc";
    let r = TextRange { start_byte: 1, end_byte: 99, start_row: 0, start_col: 0, end_row: 0, end_col: 0 };
    assert_eq!(extract_signature(src, r), "bc");
    let r = TextRange { start_byte: 9, end_byte: 99, start_row: 0, start_col: 0, end_row: 0, end_col: 0 };
    assert_eq!(extract_signature(src, r), "");
    let src: &[u8] = &[b'a', 0xff, b'b'];
    assert_eq!(extract_signature(src, whole(src)), "a\u{fffd}b");
}

#[test]
fn long_signatures_are_clipped_to_120_bytes() {
    let line = format!("fn {}() {{", "a".repeat(130));
    let sig = extract_signature(line.as_bytes(), whole(line.as_bytes()));
    assert_eq!(sig, format!("fn {}...", "a".repeat(114)));
    assert_eq!(sig.len(), 120);
    let exact = "b".repeat(120);
    assert_eq!(extract_signature(exact.as_bytes(), whole(exact.as_bytes())), exact);
    let wide = "é".repeat(70);
    let sig = extract_signature(wide.as_bytes(), whole(wide.as_bytes()));
    assert_eq!(sig, format!("{}...", "é".repeat(58)));
    assert_eq!(sig.len(), 119);
}

#[test]
fn go_receiver_types() {
    assert_eq!(go_receiver_type("(s *Server)"), Some("Server".to_string()));
    assert_eq!(go_receiver_type("(Server)"), Some("Server".to_string()));
    assert_eq!(go_receiver_type("(p **Pool[T])"), Some("Pool[T]".to_string()));
    assert_eq!(go_receiver_type("( )"), None);
    assert_eq!(go_receiver_type("()"), None);
}
