use vstd::prelude::*;

use crate::custom::{self, custom_for_extension, custom_for_injection_name, custom_short_name, index_fits, CustomLang};
use crate::grammars;
use crate::text::str_eq;
use crate::ts::grammar_clone;

verus! {

/// A language that symbols are extracted from.
#[derive(Debug, Clone, Copy, PartialEq, Eq, Hash, Structural)]
pub enum Language {
    Rust,
    TypeScript,
    Tsx,
    JavaScript,
    Go,
    Python,
    C,
    Cpp,
    Java,
    Ruby,
    Php,
    Bash,
    Css,
    Lua,
    /// A language loaded from a configuration file: its index in the
    /// list of custom languages.
    Custom(u16),
}

/// The built-in language of a file extension.
pub open spec fn builtin_for_extension(e: Seq<char>) -> Option<Language> {
    if e == "rs"@ {
        Some(Language::Rust)
    } else if e == "ts"@ || e == "cts"@ || e == "mts"@ {
        Some(Language::TypeScript)
    } else if e == "tsx"@ {
        Some(Language::Tsx)
    } else if e == "js"@ || e == "cjs"@ || e == "mjs"@ || e == "jsx"@ {
        Some(Language::JavaScript)
    } else if e == "go"@ {
        Some(Language::Go)
    } else if e == "py"@ || e == "pyi"@ {
        Some(Language::Python)
    } else if e == "c"@ || e == "h"@ {
        Some(Language::C)
    } else if e == "cpp"@ || e == "cc"@ || e == "cxx"@ || e == "hpp"@ || e == "hh"@ || e == "hxx"@ {
        Some(Language::Cpp)
    } else if e == "java"@ {
        Some(Language::Java)
    } else if e == "rb"@ || e == "gemspec"@ {
        Some(Language::Ruby)
    } else if e == "php"@ {
        Some(Language::Php)
    } else if e == "sh"@ || e == "bash"@ || e == "zsh"@ {
        Some(Language::Bash)
    } else if e == "css"@ {
        Some(Language::Css)
    } else if e == "lua"@ {
        Some(Language::Lua)
    } else {
        None
    }
}

/// The language of a file extension: a built-in one first, else the first
/// custom language that claims the extension.
pub open spec fn language_for_extension(cs: Seq<CustomLang>, e: Seq<char>) -> Option<Language> {
    match builtin_for_extension(e) {
        Some(l) => Some(l),
        None => match custom_for_extension(cs, e) {
            Some(i) => Some(Language::Custom(i as u16)),
            None => None,
        },
    }
}

/// The built-in language that an injection names.
pub open spec fn builtin_for_injection_name(n: Seq<char>) -> Option<Language> {
    if n == "rust"@ {
        Some(Language::Rust)
    } else if n == "typescript"@ {
        Some(Language::TypeScript)
    } else if n == "tsx"@ {
        Some(Language::Tsx)
    } else if n == "javascript"@ {
        Some(Language::JavaScript)
    } else if n == "go"@ {
        Some(Language::Go)
    } else if n == "python"@ {
        Some(Language::Python)
    } else if n == "c"@ {
        Some(Language::C)
    } else if n == "cpp"@ || n == "c++"@ {
        Some(Language::Cpp)
    } else if n == "java"@ {
        Some(Language::Java)
    } else if n == "ruby"@ {
        Some(Language::Ruby)
    } else if n == "php"@ {
        Some(Language::Php)
    } else if n == "bash"@ || n == "sh"@ {
        Some(Language::Bash)
    } else if n == "css"@ {
        Some(Language::Css)
    } else if n == "lua"@ {
        Some(Language::Lua)
    } else {
        None
    }
}

/// The language that an injection names: a built-in one first, else the
/// first custom language with that name or short name.
pub open spec fn language_for_injection_name(cs: Seq<CustomLang>, n: Seq<char>) -> Option<Language> {
    match builtin_for_injection_name(n) {
        Some(l) => Some(l),
        None => match custom_for_injection_name(cs, n) {
            Some(i) => Some(Language::Custom(i as u16)),
            None => None,
        },
    }
}

/// The short name of a built-in language.
pub open spec fn builtin_short_name(l: Language) -> Seq<char> {
    match l {
        Language::Rust => "rs"@,
        Language::TypeScript => "ts"@,
        Language::Tsx => "tsx"@,
        Language::JavaScript => "js"@,
        Language::Go => "go"@,
        Language::Python => "py"@,
        Language::C => "c"@,
        Language::Cpp => "cpp"@,
        Language::Java => "java"@,
        Language::Ruby => "rb"@,
        Language::Php => "php"@,
        Language::Bash => "sh"@,
        Language::Css => "css"@,
        Language::Lua => "lua"@,
        Language::Custom(_) => "?"@,
    }
}

/// The short name of a language, as shown in the listing and accepted by
/// `--lang`.
pub open spec fn language_short_name(cs: Seq<CustomLang>, l: Language) -> Seq<char> {
    match l {
        Language::Custom(i) => custom_short_name(cs, i as int),
        _ => builtin_short_name(l),
    }
}

/// The ANSI color code of a language.
pub open spec fn language_color_code(l: Language) -> Seq<char> {
    match l {
        Language::Rust | Language::JavaScript => "33"@,
        Language::TypeScript | Language::Tsx | Language::Css | Language::Go | Language::Lua => "36"@,
        Language::Python | Language::Ruby | Language::Php | Language::Custom(_) => "35"@,
        Language::C | Language::Cpp | Language::Bash => "32"@,
        Language::Java => "31"@,
    }
}

/// What `std::path::Path::extension` gives for a path: the part of the
/// file name after its last `.`, if any.
pub uninterp spec fn path_extension(path: Seq<char>) -> Option<Seq<char>>;

/// Wraps `std::path::Path::extension` on a path given as text (its result
/// converted back to text with `OsStr::to_str`, which cannot fail on text
/// that came from a `str`). The rules for what counts as the extension are
/// named, not restated.
#[verifier::external_body]
fn extension_of(path: &str) -> (r: Option<&str>)
    ensures
        r matches Some(e) ==> path_extension(path@) == Some(e@),
        r is None ==> path_extension(path@) is None,
{
    std::path::Path::new(path).extension().and_then(|e| e.to_str())
}

fn builtin_from_extension(ext: &str) -> (r: Option<Language>)
    ensures
        r == builtin_for_extension(ext@),
{
    if str_eq(ext, "rs") {
        Some(Language::Rust)
    } else if str_eq(ext, "ts") || str_eq(ext, "cts") || str_eq(ext, "mts") {
        Some(Language::TypeScript)
    } else if str_eq(ext, "tsx") {
        Some(Language::Tsx)
    } else if str_eq(ext, "js") || str_eq(ext, "cjs") || str_eq(ext, "mjs") || str_eq(ext, "jsx") {
        Some(Language::JavaScript)
    } else if str_eq(ext, "go") {
        Some(Language::Go)
    } else if str_eq(ext, "py") || str_eq(ext, "pyi") {
        Some(Language::Python)
    } else if str_eq(ext, "c") || str_eq(ext, "h") {
        Some(Language::C)
    } else if str_eq(ext, "cpp") || str_eq(ext, "cc") || str_eq(ext, "cxx") || str_eq(ext, "hpp")
        || str_eq(ext, "hh") || str_eq(ext, "hxx") {
        Some(Language::Cpp)
    } else if str_eq(ext, "java") {
        Some(Language::Java)
    } else if str_eq(ext, "rb") || str_eq(ext, "gemspec") {
        Some(Language::Ruby)
    } else if str_eq(ext, "php") {
        Some(Language::Php)
    } else if str_eq(ext, "sh") || str_eq(ext, "bash") || str_eq(ext, "zsh") {
        Some(Language::Bash)
    } else if str_eq(ext, "css") {
        Some(Language::Css)
    } else if str_eq(ext, "lua") {
        Some(Language::Lua)
    } else {
        None
    }
}

fn builtin_from_injection_name(name: &str) -> (r: Option<Language>)
    ensures
        r == builtin_for_injection_name(name@),
{
    if str_eq(name, "rust") {
        Some(Language::Rust)
    } else if str_eq(name, "typescript") {
        Some(Language::TypeScript)
    } else if str_eq(name, "tsx") {
        Some(Language::Tsx)
    } else if str_eq(name, "javascript") {
        Some(Language::JavaScript)
    } else if str_eq(name, "go") {
        Some(Language::Go)
    } else if str_eq(name, "python") {
        Some(Language::Python)
    } else if str_eq(name, "c") {
        Some(Language::C)
    } else if str_eq(name, "cpp") || str_eq(name, "c++") {
        Some(Language::Cpp)
    } else if str_eq(name, "java") {
        Some(Language::Java)
    } else if str_eq(name, "ruby") {
        Some(Language::Ruby)
    } else if str_eq(name, "php") {
        Some(Language::Php)
    } else if str_eq(name, "bash") || str_eq(name, "sh") {
        Some(Language::Bash)
    } else if str_eq(name, "css") {
        Some(Language::Css)
    } else if str_eq(name, "lua") {
        Some(Language::Lua)
    } else {
        None
    }
}

impl Language {
    /// The language of a file extension (built-in languages first, then the
    /// custom ones).
    pub fn from_extension(ext: &str, custom: &[CustomLang]) -> (r: Option<Language>)
        requires
            builtin_for_extension(ext@) is None ==> index_fits(custom_for_extension(custom@, ext@)),
        ensures
            r == language_for_extension(custom@, ext@),
    {
        match builtin_from_extension(ext) {
            Some(l) => Some(l),
            None => match custom::from_extension(custom, ext) {
                Some(i) => Some(Language::Custom(i)),
                None => None,
            },
        }
    }

    /// The language of a file, by the extension of its path.
    pub fn from_path(path: &str, custom: &[CustomLang]) -> (r: Option<Language>)
        requires
            forall|e: Seq<char>|
                builtin_for_extension(e) is None ==> #[trigger] index_fits(custom_for_extension(custom@, e)),
        ensures
            r == (match path_extension(path@) {
                Some(e) => language_for_extension(custom@, e),
                None => None,
            }),
    {
        match extension_of(path) {
            Some(ext) => Language::from_extension(ext, custom),
            None => None,
        }
    }

    /// The target language of an injection marker (such as
    /// `#set! injection.language "kak"`).
    pub fn from_injection_name(name: &str, custom: &[CustomLang]) -> (r: Option<Language>)
        requires
            builtin_for_injection_name(name@) is None ==> index_fits(
                custom_for_injection_name(custom@, name@),
            ),
        ensures
            r == language_for_injection_name(custom@, name@),
    {
        match builtin_from_injection_name(name) {
            Some(l) => Some(l),
            None => match custom::from_injection_name(custom, name) {
                Some(i) => Some(Language::Custom(i)),
                None => None,
            },
        }
    }

    pub fn short_name<'a>(self, custom: &'a [CustomLang]) -> (r: &'a str)
        ensures
            r@ == language_short_name(custom@, self),
    {
        match self {
            Language::Rust => "rs",
            Language::TypeScript => "ts",
            Language::Tsx => "tsx",
            Language::JavaScript => "js",
            Language::Go => "go",
            Language::Python => "py",
            Language::C => "c",
            Language::Cpp => "cpp",
            Language::Java => "java",
            Language::Ruby => "rb",
            Language::Php => "php",
            Language::Bash => "sh",
            Language::Css => "css",
            Language::Lua => "lua",
            Language::Custom(idx) => custom::short_name(custom, idx),
        }
    }

    pub fn color_code(self) -> (r: &'static str)
        ensures
            r@ == language_color_code(self),
    {
        match self {
            Language::Rust | Language::JavaScript => "33",
            Language::TypeScript | Language::Tsx | Language::Css | Language::Go | Language::Lua => "36",
            Language::Python | Language::Ruby | Language::Php | Language::Custom(_) => "35",
            Language::C | Language::Cpp | Language::Bash => "32",
            Language::Java => "31",
        }
    }

    /// The grammar that parses this language.
    pub fn ts_language(self, custom: &[CustomLang]) -> (r: tree_sitter::Language)
        requires
            self matches Language::Custom(i) ==> i < custom@.len(),
        ensures
            self matches Language::Custom(i) ==> r == custom@[i as int].ts_language,
    {
        match self {
            Language::Rust => grammars::rust(),
            Language::TypeScript => grammars::typescript(),
            Language::Tsx => grammars::tsx(),
            Language::JavaScript => grammars::javascript(),
            Language::Go => grammars::go(),
            Language::Python => grammars::python(),
            Language::C => grammars::c(),
            Language::Cpp => grammars::cpp(),
            Language::Java => grammars::java(),
            Language::Ruby => grammars::ruby(),
            Language::Php => grammars::php_only(),
            Language::Bash => grammars::bash(),
            Language::Css => grammars::css(),
            Language::Lua => grammars::lua(),
            Language::Custom(idx) => grammar_clone(&custom[idx as usize].ts_language),
        }
    }
}

} // verus!
