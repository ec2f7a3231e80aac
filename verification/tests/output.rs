use syms::language::Language;
use syms::output::write_symbol;
use syms::picker::{exit_code_after_picker, picker_args, Picker};
use syms::symbol::{Symbol, SymbolKind, Visibility};

fn main_fn(vis: Option<Visibility>) -> Symbol {
    Symbol {
        name: "main".to_string(),
        kind: SymbolKind::Function,
        lang: Language::Rust,
        file: "src/main.rs".to_string(),
        line: 3,
        end_line: 15,
        col: 4,
        signature: "pub fn main() {".to_string(),
        visibility: vis,
    }
}

#[test]
fn plain_lines() {
    let mut out = String::new();
    write_symbol(&mut out, &main_fn(Some(Visibility::Public)), false, &[]);
    assert_eq!(out, "rs   fn         [pub] main\tsrc/main.rs:3:15:4\tpub fn main() {\n");
    let mut out = String::from("x");
    write_symbol(&mut out, &main_fn(Some(Visibility::Private)), false, &[]);
    assert_eq!(out, "xrs   fn         [prv] main\tsrc/main.rs:3:15:4\tpub fn main() {\n");
    let mut out = String::new();
    let mut s = main_fn(None);
    s.lang = Language::Java;
    s.kind = SymbolKind::Interface;
    write_symbol(&mut out, &s, false, &[]);
    assert_eq!(out, "java interface  main\tsrc/main.rs:3:15:4\tpub fn main() {\n");
}

#[test]
fn colored_lines() {
    let mut out = String::new();
    write_symbol(&mut out, &main_fn(Some(Visibility::Public)), true, &[]);
    assert_eq!(
        out,
        "\x1b[33mrs  \x1b[0m \x1b[35mfn        \x1b[0m \x1b[32m[pub]\x1b[0m \x1b[1mmain\x1b[0m\tsrc/main.rs:3:15:4\tpub fn main() {\n"
    );
    let mut out = String::new();
    write_symbol(&mut out, &main_fn(None), true, &[]);
    assert_eq!(out, "\x1b[33mrs  \x1b[0m \x1b[35mfn        \x1b[0m \x1b[1mmain\x1b[0m\tsrc/main.rs:3:15:4\tpub fn main() {\n");
    let mut out = String::new();
    write_symbol(&mut out, &main_fn(Some(Visibility::Private)), true, &[]);
    assert!(out.contains("\x1b[90m[prv]\x1b[0m "));
}

#[test]
fn picker_binaries_and_arguments() {
    assert_eq!(Picker::Fzf.bin(), "fzf");
    assert_eq!(Picker::Sk.bin(), "sk");
    let args = picker_args(Picker::Fzf, true, "nvim");
    assert_eq!(args.len(), 7);
    assert_eq!(args[0], "--ansi");
    assert_eq!(args[1], "--delimiter=\t");
    assert_eq!(args[2], "--with-nth=1,3");
    assert_eq!(
        args[3],
        "--preview=IFS=: read -r file start end col <<< {2}; bat --color=always --style=numbers --highlight-line=\"$start\" --line-range=\"$start:$end\" \"$file\""
    );
    assert_eq!(args[4], "--preview-window=right:60%:wrap");
    assert_eq!(args[5], "--bind=enter:become(IFS=: read -r file start end col <<< {2}; nvim +$start \"$file\")");
    assert_eq!(args[6], "--bind=ctrl-/:toggle-preview");
    let args = picker_args(Picker::Sk, false, "vim");
    assert_eq!(args[3], "--preview=IFS=: read -r file start end col <<< {2}; sed -n \"${start},${end}p\" \"$file\"");
    assert_eq!(args[5], "--bind=enter:execute(IFS=: read -r file start end col <<< {2}; vim +$start \"$file\")");
}

#[test]
fn picker_exit_codes() {
    assert_eq!(exit_code_after_picker(true, Some(0)), None);
    assert_eq!(exit_code_after_picker(false, Some(130)), None);
    assert_eq!(exit_code_after_picker(false, Some(2)), Some(2));
    assert_eq!(exit_code_after_picker(false, None), Some(1));
}

fn strip_escapes(s: &str) -> String {
    let mut out = String::new();
    let mut in_escape = false;
    for c in s.chars() {
        if in_escape {
            in_escape = c != 'm';
        } else if c == '\x1b' {
            in_escape = true;
        } else {
            out.push(c);
        }
    }
    out
}

#[test]
fn colored_lines_without_escapes_are_plain_lines() {
    for vis in [Some(Visibility::Public), Some(Visibility::Private), None] {
        let mut plain = String::new();
        let mut colored = String::new();
        write_symbol(&mut plain, &main_fn(vis), false, &[]);
        write_symbol(&mut colored, &main_fn(vis), true, &[]);
        assert_eq!(strip_escapes(&colored), plain);
    }
}
