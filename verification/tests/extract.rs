use syms::language::Language;
use syms::parser::{extract_recursive, extract_symbols, ExtractError};
use syms::syntax::TextRange;
use syms::queries::Catalog;
use syms::symbol::{Symbol, SymbolKind, Visibility};

fn extract(path: &str, src: &str, lang: Language) -> Vec<Symbol> {
    let catalog = Catalog::new(Vec::new());
    match extract_symbols(path, src.as_bytes(), lang, &catalog) {
        Ok(v) => v,
        Err(_) => panic!("extraction failed"),
    }
}

fn summary(syms: &[Symbol]) -> Vec<(String, SymbolKind, Option<Visibility>, usize)> {
    syms.iter().map(|s| (s.name.clone(), s.kind, s.visibility, s.line)).collect()
}

fn row(name: &str, kind: SymbolKind, vis: Option<Visibility>, line: usize) -> (String, SymbolKind, Option<Visibility>, usize) {
    (name.to_string(), kind, vis, line)
}

use SymbolKind::{Class, Component, Constant, Enum, Function, Hook, Interface, Method, Module, Struct, Test, Trait, Type};
use Visibility::{Private, Public};

#[test]
fn rust_symbols_are_extracted() {
    let src = "pub struct Server {\n    port: u16,\n}\n\nimpl Server {\n    pub fn start(&self) -> bool {\n        true\n    }\n}\n\nfn helper() {}\n\n#[test]\nfn it_works() {}\n";
    let syms = extract("src/main.rs", src, Language::Rust);
    assert_eq!(
        summary(&syms),
        vec![
            row("Server", Struct, Some(Public), 1),
            row("Server.start", Method, Some(Public), 6),
            row("helper", Function, Some(Private), 11),
            row("it_works", Test, Some(Private), 14),
        ]
    );
    assert_eq!(syms[1].col, 12);
    assert_eq!(syms[1].end_line, 8);
    assert_eq!(syms[1].signature, "pub fn start(&self) -> bool {");
    assert_eq!(syms[0].file, "src/main.rs");
    assert!(syms.iter().all(|s| s.lang == Language::Rust));
}

#[test]
fn rust_other_items() {
    let src = "pub enum Color { Red }\ntrait Draw {}\ntype Id = u32;\nconst MAX: u32 = 1;\nmod inner {}\n#[tokio::test]\nasync fn runs() {}\n#[inline]\n#[cfg(test)]\nfn attributed() {}\n";
    let syms = extract("lib.rs", src, Language::Rust);
    assert_eq!(
        summary(&syms),
        vec![
            row("Color", Enum, Some(Public), 1),
            row("Draw", Trait, Some(Private), 2),
            row("Id", Type, Some(Private), 3),
            row("MAX", Constant, Some(Private), 4),
            row("inner", Module, Some(Private), 5),
            row("runs", Test, Some(Private), 7),
            row("attributed", Function, Some(Private), 10),
        ]
    );
}

#[test]
fn typescript_exports_hooks_and_arrows() {
    let src = "export function useAuth() {}\nexport class App {}\nfunction helper() {}\nconst handler = () => {};\ninterface Props {}\n";
    let syms = extract("a.ts", src, Language::TypeScript);
    assert_eq!(
        summary(&syms),
        vec![
            row("useAuth", Hook, Some(Public), 1),
            row("App", Class, Some(Public), 2),
            row("helper", Function, Some(Private), 3),
            row("handler", Function, Some(Private), 4),
            row("Props", Interface, Some(Private), 5),
        ]
    );
    assert_eq!(syms[0].col, 17);
    assert_eq!(syms[0].signature, "export function useAuth() {}");
}

#[test]
fn tsx_components_and_hooks() {
    let src = "export function App() { return null; }\nfunction useThing() {}\nfunction lower() {}\nfunction user() {}\n";
    let syms = extract("a.tsx", src, Language::Tsx);
    assert_eq!(
        summary(&syms),
        vec![
            row("App", Component, Some(Public), 1),
            row("useThing", Hook, Some(Private), 2),
            row("lower", Function, Some(Private), 3),
            row("user", Function, Some(Private), 4),
        ]
    );
}

#[test]
fn javascript_methods_get_their_class_or_object() {
    let src = "export function useData() {}\nclass Foo {\n  bar() {}\n}\nconst obj = {\n  method() {}\n};\n";
    let syms = extract("a.js", src, Language::JavaScript);
    assert_eq!(
        summary(&syms),
        vec![
            row("useData", Hook, Some(Public), 1),
            row("Foo", Class, Some(Private), 2),
            row("Foo.bar", Method, Some(Private), 3),
            row("obj.method", Method, Some(Private), 6),
        ]
    );
}

#[test]
fn go_receivers_tests_and_exports() {
    let src = "package main\n\ntype Server struct{}\n\nfunc (s *Server) Start() error { return nil }\n\nfunc TestStart(t *testing.T) {}\n\nfunc helper() {}\n\nfunc Test() {}\n";
    let syms = extract("main.go", src, Language::Go);
    assert_eq!(
        summary(&syms),
        vec![
            row("Server", Struct, Some(Public), 3),
            row("Server.Start", Method, Some(Public), 5),
            row("TestStart", Test, Some(Public), 7),
            row("helper", Function, Some(Private), 9),
            row("Test", Function, Some(Public), 11),
        ]
    );
}

#[test]
fn python_methods_tests_and_private_names() {
    let src = "class Foo:\n    def method(self):\n        pass\n\n    def _private(self):\n        pass\n\n    def test_in_class(self):\n        pass\n\ndef test_thing():\n    pass\n\ndef func():\n    pass\n";
    let syms = extract("a.py", src, Language::Python);
    assert_eq!(
        summary(&syms),
        vec![
            row("Foo", Class, Some(Public), 1),
            row("Foo.method", Method, Some(Public), 2),
            row("Foo._private", Method, Some(Private), 5),
            row("Foo.test_in_class", Test, Some(Public), 8),
            row("test_thing", Test, Some(Public), 11),
            row("func", Function, Some(Public), 14),
        ]
    );
}

#[test]
fn python_decorated_definitions_keep_the_decorator() {
    let src = "@cache\ndef cached():\n    pass\n";
    let syms = extract("a.py", src, Language::Python);
    assert_eq!(summary(&syms), vec![row("cached", Function, Some(Public), 2)]);
    assert_eq!(syms[0].signature, "@cache");
    assert_eq!(syms[0].end_line, 3);
}

#[test]
fn java_modifiers() {
    let src = "public class Main {\n    public void run() {}\n    private int count() { return 0; }\n    void pkg() {}\n}\n";
    let syms = extract("Main.java", src, Language::Java);
    assert_eq!(
        summary(&syms),
        vec![
            row("Main", Class, Some(Public), 1),
            row("Main.run", Method, Some(Public), 2),
            row("Main.count", Method, Some(Private), 3),
            row("Main.pkg", Method, Some(Private), 4),
        ]
    );
}

#[test]
fn php_visibility() {
    let src = "<?php\nfunction helper() {}\nclass Foo {\n    public function bar() {}\n    private function baz() {}\n    function qux() {}\n}\n";
    let syms = extract("a.php", src, Language::Php);
    assert_eq!(
        summary(&syms),
        vec![
            row("helper", Function, Some(Public), 2),
            row("Foo", Class, Some(Public), 3),
            row("Foo.bar", Method, Some(Public), 4),
            row("Foo.baz", Method, Some(Private), 5),
            row("Foo.qux", Method, Some(Public), 6),
        ]
    );
}

#[test]
fn ruby_classes_and_modules() {
    let src = "class Foo\n  def bar\n  end\n  def self.baz\n  end\nend\nmodule Util\nend\n";
    let syms = extract("a.rb", src, Language::Ruby);
    assert_eq!(
        summary(&syms),
        vec![
            row("Foo", Class, None, 1),
            row("Foo.bar", Method, None, 2),
            row("Foo.baz", Method, None, 4),
            row("Util", Module, None, 7),
        ]
    );
}

#[test]
fn c_items() {
    let src = "#define MAX 10\nstruct point { int x; };\nint main(void) { return 0; }\nstatic char *name(void) { return 0; }\ntypedef int myint;\nenum color { RED };\n";
    let syms = extract("a.c", src, Language::C);
    assert_eq!(
        summary(&syms),
        vec![
            row("MAX", Constant, None, 1),
            row("point", Struct, None, 2),
            row("main", Function, None, 3),
            row("name", Function, None, 4),
            row("myint", Type, None, 5),
            row("color", Enum, None, 6),
        ]
    );
}

#[test]
fn cpp_items() {
    let src = "namespace app {\nclass Widget {};\n}\nvoid Widget::draw() {}\nint helper() { return 0; }\n";
    let syms = extract("a.cpp", src, Language::Cpp);
    assert_eq!(
        summary(&syms),
        vec![
            row("app", Module, None, 1),
            row("Widget", Class, None, 2),
            row("draw", Method, None, 4),
            row("helper", Function, None, 5),
        ]
    );
}

#[test]
fn bash_css_and_lua() {
    let syms = extract("a.sh", "greet() {\n  echo hi\n}\n", Language::Bash);
    assert_eq!(summary(&syms), vec![row("greet", Function, None, 1)]);
    let syms = extract("a.css", ".btn { color: red; }\n@keyframes spin { }\n", Language::Css);
    assert_eq!(summary(&syms), vec![row(".btn", Class, None, 1), row("spin", Function, None, 2)]);
    assert_eq!(syms[0].signature, ".btn { color: red; }");
    let syms = extract("a.lua", "function M.setup() end\nfunction obj:method() end\nfunction plain() end\n", Language::Lua);
    assert_eq!(
        summary(&syms),
        vec![row("setup", Function, None, 1), row("method", Method, None, 2), row("plain", Function, None, 3)]
    );
}

#[test]
fn empty_and_invalid_sources_give_no_symbols() {
    assert!(extract("a.rs", "", Language::Rust).is_empty());
    let catalog = Catalog::new(Vec::new());
    let bytes: &[u8] = &[0xff, 0xfe, 0x00];
    match extract_symbols("a.rs", bytes, Language::Rust, &catalog) {
        Ok(v) => assert!(v.is_empty()),
        Err(_) => panic!("extraction failed"),
    }
}

#[test]
fn java_methods_are_qualified_by_their_class() {
    let syms = extract("A.java", "class A { void f() {} }\n", Language::Java);
    let names: Vec<(String, SymbolKind)> = syms.iter().map(|s| (s.name.clone(), s.kind)).collect();
    assert_eq!(names, vec![("A".to_string(), Class), ("A.f".to_string(), Method)]);
}

#[test]
fn only_test_and_tokio_test_attributes_mark_tests() {
    let src = "#[test]\nfn t() {}\n#[my_test_helper]\nfn h() {}\n#[cfg(test)]\nfn c() {}\n#[tokio::test]\nasync fn k() {}\n";
    let syms = extract("a.rs", src, Language::Rust);
    assert_eq!(
        summary(&syms),
        vec![
            row("t", Test, Some(Private), 2),
            row("h", Function, Some(Private), 4),
            row("c", Function, Some(Private), 6),
            row("k", Test, Some(Private), 8),
        ]
    );
    assert_eq!((syms[0].line, syms[0].col, syms[0].end_line), (2, 4, 2));
    assert_eq!(syms[0].signature, "fn t() {}");
}

#[test]
fn tsx_component_position_and_signature() {
    let syms = extract("src/App.tsx", "export function App() {\n  return null;\n}\n", Language::Tsx);
    assert_eq!(syms.len(), 1);
    assert_eq!(syms[0].name, "App");
    assert_eq!(syms[0].kind, Component);
    assert_eq!((syms[0].line, syms[0].col, syms[0].end_line), (1, 17, 3));
    assert_eq!(syms[0].signature, "export function App() {");
    assert_eq!(syms[0].visibility, Some(Public));
}

#[test]
fn rust_struct_and_impl_method() {
    let syms = extract("a.rs", "struct S;\nimpl S {\n    pub fn m(&self) {}\n}\n", Language::Rust);
    assert_eq!(syms.len(), 2);
    assert_eq!((syms[0].name.as_str(), syms[0].kind, syms[0].line, syms[0].col), ("S", Struct, 1, 8));
    assert_eq!(syms[0].visibility, Some(Private));
    assert_eq!(syms[1].name, "S.m");
    assert_eq!(syms[1].kind, Method);
    assert_eq!((syms[1].line, syms[1].col, syms[1].end_line), (3, 12, 3));
    assert_eq!(syms[1].signature, "pub fn m(&self) {}");
    assert_eq!(syms[1].visibility, Some(Public));
}

#[test]
fn python_test_function_position() {
    let syms = extract("tests/test_app.py", "def test_login_flow():\n    pass\n", Language::Python);
    assert_eq!(syms.len(), 1);
    assert_eq!(syms[0].name, "test_login_flow");
    assert_eq!(syms[0].kind, Test);
    assert_eq!((syms[0].line, syms[0].col, syms[0].end_line), (1, 5, 2));
    assert_eq!(syms[0].signature, "def test_login_flow():");
    assert_eq!(syms[0].visibility, Some(Public));
}

#[test]
fn recursive_extraction_at_the_depth_limit_runs_only_the_queries() {
    let catalog = Catalog::new(Vec::new());
    let mut symbols: Vec<Symbol> = Vec::new();
    let r = extract_recursive("a.rs", b"fn a() {}", Language::Rust, &[], 8, &mut symbols, &catalog);
    assert!(r.is_ok());
    assert_eq!(symbols.len(), 1);
    assert_eq!(symbols[0].name, "a");
    assert_eq!(symbols[0].kind, Function);
    assert_eq!(symbols[0].lang, Language::Rust);
    assert_eq!(symbols[0].file, "a.rs");
    assert_eq!((symbols[0].line, symbols[0].col, symbols[0].end_line), (1, 4, 1));
    assert_eq!(symbols[0].signature, "fn a() {}");
    assert_eq!(symbols[0].visibility, Some(Private));
}

#[test]
fn recursive_extraction_within_a_range() {
    let catalog = Catalog::new(Vec::new());
    let mut symbols: Vec<Symbol> = Vec::new();
    let range = TextRange { start_byte: 10, end_byte: 19, start_row: 1, start_col: 0, end_row: 1, end_col: 9 };
    let r = extract_recursive("a.rs", b"fn a() {}\nfn b() {}", Language::Rust, &[range], 1, &mut symbols, &catalog);
    assert!(r.is_ok());
    assert_eq!(symbols.len(), 1);
    assert_eq!(symbols[0].name, "b");
    assert_eq!(symbols[0].kind, Function);
    assert_eq!((symbols[0].line, symbols[0].col, symbols[0].end_line), (2, 4, 2));
    assert_eq!(symbols[0].signature, "fn b() {}");
}

#[test]
fn tokio_test_with_arguments_and_comments_before_the_item_mark_tests() {
    let src = "#[tokio::test(flavor = \"multi_thread\")]\nasync fn a() {}\n#[test]\n// checks b\nfn b() {}\n#[test]\n/* note */\n#[ignore]\nfn c() {}\n";
    let syms = extract("a.rs", src, Language::Rust);
    assert_eq!(
        summary(&syms),
        vec![
            row("a", Test, Some(Private), 2),
            row("b", Test, Some(Private), 5),
            row("c", Test, Some(Private), 9),
        ]
    );
}

#[test]
fn unordered_included_ranges_are_refused() {
    let catalog = Catalog::new(Vec::new());
    let mut symbols: Vec<Symbol> = Vec::new();
    let first = TextRange { start_byte: 10, end_byte: 19, start_row: 1, start_col: 0, end_row: 1, end_col: 9 };
    let second = TextRange { start_byte: 0, end_byte: 9, start_row: 0, start_col: 0, end_row: 0, end_col: 9 };
    let r = extract_recursive("a.rs", b"fn a() {}\nfn b() {}", Language::Rust, &[first, second], 1, &mut symbols, &catalog);
    assert!(matches!(r, Err(ExtractError::IncludedRanges(1))));
    assert!(symbols.is_empty());
}

#[test]
fn recursive_extraction_beyond_the_depth_limit_still_runs_the_queries() {
    let catalog = Catalog::new(Vec::new());
    let mut symbols: Vec<Symbol> = Vec::new();
    let r = extract_recursive("a.rs", b"fn a() {}", Language::Rust, &[], 12, &mut symbols, &catalog);
    assert!(r.is_ok());
    assert_eq!(symbols.len(), 1);
    assert_eq!(symbols[0].name, "a");
}
