use vstd::prelude::*;

verus! {

/// Wraps `tree_sitter_rust::LANGUAGE` converted into a `tree_sitter::Language`.
#[verifier::external_body]
pub fn rust() -> tree_sitter::Language {
    tree_sitter_rust::LANGUAGE.into()
}

/// Wraps `tree_sitter_typescript::LANGUAGE_TYPESCRIPT` converted into a
/// `tree_sitter::Language`.
#[verifier::external_body]
pub fn typescript() -> tree_sitter::Language {
    tree_sitter_typescript::LANGUAGE_TYPESCRIPT.into()
}

/// Wraps `tree_sitter_typescript::LANGUAGE_TSX` converted into a
/// `tree_sitter::Language`.
#[verifier::external_body]
pub fn tsx() -> tree_sitter::Language {
    tree_sitter_typescript::LANGUAGE_TSX.into()
}

/// Wraps `tree_sitter_javascript::LANGUAGE` converted into a
/// `tree_sitter::Language`.
#[verifier::external_body]
pub fn javascript() -> tree_sitter::Language {
    tree_sitter_javascript::LANGUAGE.into()
}

/// Wraps `tree_sitter_go::LANGUAGE` converted into a `tree_sitter::Language`.
#[verifier::external_body]
pub fn go() -> tree_sitter::Language {
    tree_sitter_go::LANGUAGE.into()
}

/// Wraps `tree_sitter_python::LANGUAGE` converted into a `tree_sitter::Language`.
#[verifier::external_body]
pub fn python() -> tree_sitter::Language {
    tree_sitter_python::LANGUAGE.into()
}

/// Wraps `tree_sitter_c::LANGUAGE` converted into a `tree_sitter::Language`.
#[verifier::external_body]
pub fn c() -> tree_sitter::Language {
    tree_sitter_c::LANGUAGE.into()
}

/// Wraps `tree_sitter_cpp::LANGUAGE` converted into a `tree_sitter::Language`.
#[verifier::external_body]
pub fn cpp() -> tree_sitter::Language {
    tree_sitter_cpp::LANGUAGE.into()
}

/// Wraps `tree_sitter_java::LANGUAGE` converted into a `tree_sitter::Language`.
#[verifier::external_body]
pub fn java() -> tree_sitter::Language {
    tree_sitter_java::LANGUAGE.into()
}

/// Wraps `tree_sitter_ruby::LANGUAGE` converted into a `tree_sitter::Language`.
#[verifier::external_body]
pub fn ruby() -> tree_sitter::Language {
    tree_sitter_ruby::LANGUAGE.into()
}

/// Wraps `tree_sitter_php::LANGUAGE_PHP_ONLY` (PHP without the surrounding
/// HTML) converted into a `tree_sitter::Language`.
#[verifier::external_body]
pub fn php_only() -> tree_sitter::Language {
    tree_sitter_php::LANGUAGE_PHP_ONLY.into()
}

/// Wraps `tree_sitter_bash::LANGUAGE` converted into a `tree_sitter::Language`.
#[verifier::external_body]
pub fn bash() -> tree_sitter::Language {
    tree_sitter_bash::LANGUAGE.into()
}

/// Wraps `tree_sitter_css::LANGUAGE` converted into a `tree_sitter::Language`.
#[verifier::external_body]
pub fn css() -> tree_sitter::Language {
    tree_sitter_css::LANGUAGE.into()
}

/// Wraps `tree_sitter_lua::LANGUAGE` converted into a `tree_sitter::Language`.
#[verifier::external_body]
pub fn lua() -> tree_sitter::Language {
    tree_sitter_lua::LANGUAGE.into()
}

} // verus!
