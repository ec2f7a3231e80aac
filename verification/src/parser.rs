use vstd::prelude::*;

use crate::language::Language;
use crate::symbol::{Symbol, SymbolKind, Visibility};
use crate::syntax::{
    children_text_contains, children_text_contains_spec, field_child, field_child_spec,
    has_child_kind, has_child_kind_spec, kind_is, node_text, parent_of, parent_spec, prev_sibling,
    prev_sibling_spec, arena_wf, ranges_fit, ranges_in_order, range_text, range_text_or_empty, first_from, SyntaxNode, SyntaxTree,
    TextRange, Capture, QueryHit, snapshot,
};
use crate::custom::{custom_for_injection_name, lemma_custom_lookup_range, CustomLang};
use crate::language::language_for_injection_name;
use crate::queries::{compiled_injection_query, compiled_queries, Catalog, CompiledInjectionQuery, CompiledQuery};
use crate::ts::{parser_new, parser_parse, parser_set_included_ranges, parser_set_language, query_matches};
use crate::text::{
    char_is_uppercase, chars_of, has_infix, has_prefix, uppercase, starts_with,
    strip_both, strip_start, string_from, string_from_chars, trail_count, trailing,
    trailing_run, trim_both, trim_end, trim_start, lemma_trail_len_bound, sub_chars, CharClass,
    char_utf8_width, char_width, lossy_utf8, utf8_len, utf8_lossy, str_eq,
};
use vstd::string::StringExecFns;

verus! {

// ----------------------------------------------------------------------
// Names
// ----------------------------------------------------------------------

/// The type name in a Go receiver such as `(r *Server)`: the last word
/// once the parentheses are trimmed, without leading `*`.
pub open spec fn receiver_type(text: Seq<char>) -> Option<Seq<char>> {
    let inner = trim_end(trim_both(text, CharClass::Paren), CharClass::Space);
    if inner.len() == 0 {
        None
    } else {
        Some(trim_start(trailing(inner, CharClass::NonSpace), CharClass::Star))
    }
}

pub fn go_receiver_type(text: &str) -> (r: Option<String>)
    ensures
        r matches Some(s) ==> receiver_type(text@) == Some(s@),
        r is None ==> receiver_type(text@) is None,
{
    let cs = chars_of(text);
    let inner0 = strip_both(cs.as_slice(), CharClass::Paren);
    let n = trail_count(inner0.as_slice(), CharClass::Space);
    proof {
        lemma_trail_len_bound(inner0@, CharClass::Space);
    }
    let inner = sub_chars(inner0.as_slice(), 0, inner0.len() - n);
    if inner.len() == 0 {
        return None;
    }
    let word = trailing_run(inner.as_slice(), CharClass::NonSpace);
    let name = strip_start(word.as_slice(), CharClass::Star);
    Some(string_from_chars(name.as_slice()))
}

/// The part of a qualified name such as `Class.method` after its last dot.
pub open spec fn bare_name(name: Seq<char>) -> Seq<char> {
    trailing(name, CharClass::NonDot)
}

// ----------------------------------------------------------------------
// Parent names
// ----------------------------------------------------------------------

pub open spec fn is_class_like(k: Seq<char>) -> bool {
    k == "class_declaration"@ || k == "class"@ || k == "class_body"@ || k == "class_definition"@
        || k == "trait_declaration"@ || k == "interface_declaration"@
}

/// The text of the child of `p` under `field`.
pub open spec fn field_text(ns: Seq<SyntaxNode>, src: Seq<u8>, p: int, field: Seq<char>) -> Option<
    Seq<char>,
> {
    match field_child_spec(ns, p, field) {
        Some(c) => range_text(src, ns[c].range),
        None => None,
    }
}

/// Walks up from `cur` to the first enclosing impl, class, Go method (a
/// `method_declaration` with a receiver) or object literal, and gives the
/// name it supplies. A method declaration without a receiver (Java, PHP)
/// is passed through on the way to its class.
pub open spec fn enclosing_name(ns: Seq<SyntaxNode>, src: Seq<u8>, cur: int) -> Option<Seq<char>>
    decreases cur,
{
    if cur < 0 || cur >= ns.len() {
        None
    } else {
        let k = ns[cur].kind@;
        if k == "impl_item"@ {
            field_text(ns, src, cur, "type"@)
        } else if is_class_like(k) {
            let target = if k == "class_body"@ {
                parent_spec(ns, cur)
            } else {
                Some(cur)
            };
            match target {
                Some(tg) => field_text(ns, src, tg, "name"@),
                None => None,
            }
        } else if k == "method_declaration"@ && field_child_spec(ns, cur, "receiver"@) is Some {
            match field_text(ns, src, cur, "receiver"@) {
                Some(text) => receiver_type(text),
                None => None,
            }
        } else if k == "object"@ {
            match parent_spec(ns, cur) {
                Some(pp) => if ns[pp].kind@ == "variable_declarator"@ {
                    field_text(ns, src, pp, "name"@)
                } else {
                    None
                },
                None => None,
            }
        } else {
            match parent_spec(ns, cur) {
                Some(p) => if p < cur {
                    enclosing_name(ns, src, p)
                } else {
                    None
                },
                None => None,
            }
        }
    }
}

/// The name that qualifies a method (`Type` in `Type.method`): only methods
/// have one.
pub open spec fn parent_name(ns: Seq<SyntaxNode>, src: Seq<u8>, node: int, kind: SymbolKind) -> Option<
    Seq<char>,
> {
    if kind != SymbolKind::Method {
        None
    } else {
        match parent_spec(ns, node) {
            Some(p) => enclosing_name(ns, src, p),
            None => None,
        }
    }
}

fn field_text_of(t: &SyntaxTree, source: &[u8], p: usize, field: &str) -> (r: Option<String>)
    ensures
        r matches Some(s) ==> field_text(t.nodes@, source@, p as int, field@) == Some(s@),
        r is None ==> field_text(t.nodes@, source@, p as int, field@) is None,
{
    match field_child(t, p, field) {
        Some(c) => match node_text(source, &t.nodes[c]) {
            Some(txt) => Some(string_from(txt)),
            None => None,
        },
        None => None,
    }
}

fn is_class_like_kind(t: &SyntaxTree, i: usize) -> (r: bool)
    requires
        i < t.nodes@.len(),
    ensures
        r == is_class_like(t.nodes@[i as int].kind@),
{
    kind_is(t, i, "class_declaration") || kind_is(t, i, "class") || kind_is(t, i, "class_body")
        || kind_is(t, i, "class_definition") || kind_is(t, i, "trait_declaration") || kind_is(
        t,
        i,
        "interface_declaration",
    )
}

/// Walks up the tree to find the class, struct, impl or object name that
/// qualifies a method.
pub fn find_parent_name(t: &SyntaxTree, source: &[u8], node: usize, kind: SymbolKind) -> (r:
    Option<String>)
    requires
        t.wf(),
        node < t.nodes@.len(),
    ensures
        r matches Some(s) ==> parent_name(t.nodes@, source@, node as int, kind) == Some(s@),
        r is None ==> parent_name(t.nodes@, source@, node as int, kind) is None,
{
    if kind != SymbolKind::Method {
        return None;
    }
    let mut cur = match parent_of(t, node) {
        Some(p) => p,
        None => {
            return None;
        },
    };
    loop
        invariant
            t.wf(),
            cur < t.nodes@.len(),
            kind == SymbolKind::Method,
            node < t.nodes@.len(),
            parent_name(t.nodes@, source@, node as int, kind) == enclosing_name(
                t.nodes@,
                source@,
                cur as int,
            ),
        decreases cur,
    {
        if kind_is(t, cur, "impl_item") {
            return field_text_of(t, source, cur, "type");
        } else if is_class_like_kind(t, cur) {
            let target = if kind_is(t, cur, "class_body") {
                parent_of(t, cur)
            } else {
                Some(cur)
            };
            return match target {
                Some(tg) => field_text_of(t, source, tg, "name"),
                None => None,
            };
        } else if kind_is(t, cur, "method_declaration") && field_child(t, cur, "receiver").is_some() {
            return match field_text_of(t, source, cur, "receiver") {
                Some(text) => go_receiver_type(text.as_str()),
                None => None,
            };
        } else if kind_is(t, cur, "object") {
            return match parent_of(t, cur) {
                Some(pp) => if kind_is(t, pp, "variable_declarator") {
                    field_text_of(t, source, pp, "name")
                } else {
                    None
                },
                None => None,
            };
        } else {
            match parent_of(t, cur) {
                Some(p) => {
                    cur = p;
                },
                None => {
                    return None;
                },
            }
        }
    }
}

// ----------------------------------------------------------------------
// Visibility
// ----------------------------------------------------------------------

fn public_if(b: bool) -> (r: Visibility)
    ensures
        r == (if b {
            Visibility::Public
        } else {
            Visibility::Private
        }),
{
    if b {
        Visibility::Public
    } else {
        Visibility::Private
    }
}

/// The visibility of a symbol from its definition node and its name.
pub open spec fn visibility_of(ns: Seq<SyntaxNode>, def: Option<int>, lang: Language, name: Seq<
    char,
>) -> Option<Visibility> {
    let vis = |b: bool|
        if b {
            Visibility::Public
        } else {
            Visibility::Private
        };
    match lang {
        Language::Rust => match def {
            Some(d) => Some(vis(has_child_kind_spec(ns, d, "visibility_modifier"@))),
            None => None,
        },
        Language::TypeScript | Language::Tsx | Language::JavaScript => match def {
            Some(d) => Some(
                vis(
                    ns[d].kind@ == "export_statement"@ || (match parent_spec(ns, d) {
                        Some(p) => ns[p].kind@ == "export_statement"@,
                        None => false,
                    }),
                ),
            ),
            None => None,
        },
        Language::Go => if name.len() == 0 {
            None
        } else {
            Some(vis(uppercase(name[0])))
        },
        Language::Java | Language::Php => match def {
            Some(d) => if has_child_kind_spec(ns, d, "modifiers"@) || has_child_kind_spec(
                ns,
                d,
                "visibility_modifier"@,
            ) {
                Some(vis(children_text_contains_spec(ns, d, "public"@)))
            } else {
                Some(vis(lang == Language::Php))
            },
            None => None,
        },
        Language::Python => Some(vis(!has_prefix(bare_name(name), "_"@))),
        _ => None,
    }
}

/// Detects the visibility or export status of a symbol.
pub fn detect_visibility(t: &SyntaxTree, def: Option<usize>, lang: Language, name: &str) -> (r:
    Option<Visibility>)
    requires
        t.wf(),
        def matches Some(d) ==> d < t.nodes@.len(),
    ensures
        r == visibility_of(
            t.nodes@,
            match def {
                Some(d) => Some(d as int),
                None => None,
            },
            lang,
            name@,
        ),
{
    match lang {
        Language::Rust => match def {
            Some(d) => Some(public_if(has_child_kind(t, d, "visibility_modifier"))),
            None => None,
        },
        Language::TypeScript | Language::Tsx | Language::JavaScript => match def {
            Some(d) => {
                let exported = kind_is(t, d, "export_statement") || match parent_of(t, d) {
                    Some(p) => kind_is(t, p, "export_statement"),
                    None => false,
                };
                Some(public_if(exported))
            },
            None => None,
        },
        Language::Go => {
            let cs = chars_of(name);
            if cs.len() == 0 {
                None
            } else {
                Some(public_if(char_is_uppercase(cs[0])))
            }
        },
        Language::Java | Language::Php => match def {
            Some(d) => if has_child_kind(t, d, "modifiers") || has_child_kind(
                t,
                d,
                "visibility_modifier",
            ) {
                Some(public_if(children_text_contains(t, d, "public")))
            } else {
                Some(public_if(lang == Language::Php))
            },
            None => None,
        },
        Language::Python => {
            let cs = chars_of(name);
            let bare = trailing_run(cs.as_slice(), CharClass::NonDot);
            Some(public_if(!starts_with(bare.as_slice(), "_")))
        },
        _ => None,
    }
}

// ----------------------------------------------------------------------
// Test attributes
// ----------------------------------------------------------------------

/// An attribute that marks a test: `#[test]`, or `#[tokio::test]` with or
/// without arguments (`#[tokio::test(flavor = "multi_thread")]`).
pub open spec fn is_test_attribute_text(text: Seq<char>) -> bool {
    ||| text == "#[test]"@
    ||| text == "#[tokio::test]"@
    ||| has_prefix(text, "#[tokio::test("@) && text.last() == ']'
}

/// Comments, which may stand between an item and its attributes.
pub open spec fn is_comment_kind(k: Seq<char>) -> bool {
    k == "line_comment"@ || k == "block_comment"@
}

/// The attributes written on the item at node `j` (its contiguous
/// `attribute_item` siblings before it, comments between them passed over)
/// include a test attribute.
pub open spec fn attrs_include_test(ns: Seq<SyntaxNode>, src: Seq<u8>, j: int) -> bool
    decreases j,
{
    if 0 <= j < ns.len() {
        match prev_sibling_spec(ns, j) {
            Some(s) => if 0 <= s < j && ns[s].kind@ == "attribute_item"@ {
                is_test_attribute_text(range_text_or_empty(src, ns[s].range)) || attrs_include_test(
                    ns,
                    src,
                    s,
                )
            } else if 0 <= s < j && is_comment_kind(ns[s].kind@) {
                attrs_include_test(ns, src, s)
            } else {
                false
            },
            None => false,
        }
    } else {
        false
    }
}

fn is_test_attribute(txt: &str) -> (r: bool)
    ensures
        r == is_test_attribute_text(txt@),
{
    let cs = chars_of(txt);
    proof {
        reveal_strlit("#[tokio::test(");
    }
    str_eq(txt, "#[test]") || str_eq(txt, "#[tokio::test]") || (starts_with(
        cs.as_slice(),
        "#[tokio::test(",
    ) && cs[cs.len() - 1] == ']')
}

/// Whether a Rust item carries `#[test]` or `#[tokio::test]` (with or
/// without arguments): attributes are the item's previous siblings.
pub fn has_test_attribute(t: &SyntaxTree, source: &[u8], def: usize) -> (r: bool)
    requires
        def < t.nodes@.len(),
    ensures
        r == attrs_include_test(t.nodes@, source@, def as int),
{
    let mut j = def;
    loop
        invariant
            j < t.nodes@.len(),
            attrs_include_test(t.nodes@, source@, def as int) == attrs_include_test(
                t.nodes@,
                source@,
                j as int,
            ),
        decreases j,
    {
        match prev_sibling(t, j) {
            None => {
                return false;
            },
            Some(s) => {
                let is_comment = kind_is(t, s, "line_comment") || kind_is(t, s, "block_comment");
                if is_comment {
                    proof {
                        reveal_strlit("attribute_item");
                        reveal_strlit("line_comment");
                        reveal_strlit("block_comment");
                        let k = t.nodes@[s as int].kind@;
                        assert(k.len() == 12 || k.len() == 13);
                        assert("attribute_item"@.len() == 14);
                        assert(k != "attribute_item"@);
                    }
                    j = s;
                } else {
                    if !kind_is(t, s, "attribute_item") {
                        proof {
                            reveal_strlit("line_comment");
                            reveal_strlit("block_comment");
                        }
                        return false;
                    }
                    let ghost text = range_text_or_empty(source@, t.nodes@[s as int].range);
                    let is_test = match node_text(source, &t.nodes[s]) {
                        Some(txt) => {
                            assert(txt@ == text);
                            is_test_attribute(txt)
                        },
                        None => {
                            proof {
                                reveal_strlit("#[test]");
                                reveal_strlit("#[tokio::test]");
                                reveal_strlit("#[tokio::test(");
                                assert(text.len() == 0);
                            }
                            false
                        },
                    };
                    assert(is_test == is_test_attribute_text(text));
                    if is_test {
                        return true;
                    }
                    j = s;
                }
            },
        }
    }
}

// ----------------------------------------------------------------------
// Signatures
// ----------------------------------------------------------------------

/// The longest signature, in bytes.
pub const MAX_SIGNATURE_LEN: usize = 120;

/// The bytes of `r` that lie in the source (none where `r` starts past its
/// end).
pub open spec fn clipped(src: Seq<u8>, r: TextRange) -> Seq<u8> {
    let end: int = if r.end_byte <= src.len() {
        r.end_byte as int
    } else {
        src.len() as int
    };
    if r.start_byte <= end {
        src.subrange(r.start_byte as int, end)
    } else {
        Seq::empty()
    }
}

/// The first line of `s`, as `str::lines` gives it (a `\r` before the
/// `\n` dropped), or the empty text when `s` is empty.
pub open spec fn first_line(s: Seq<char>) -> Seq<char> {
    match first_from(s.len() as int, |i: int| s[i] == '\n', 0) {
        Some(k) => {
            let l = s.take(k);
            if l.len() > 0 && l.last() == '\r' {
                l.drop_last()
            } else {
                l
            }
        },
        None => s,
    }
}

/// How many leading characters of `t` from `i` on fit in `budget` bytes,
/// `used` of which are taken.
pub open spec fn fit_from(t: Seq<char>, i: int, used: nat, budget: nat) -> int
    decreases t.len() - i,
{
    if 0 <= i < t.len() && used + char_width(t[i]) <= budget {
        fit_from(t, i + 1, used + char_width(t[i]), budget)
    } else {
        i
    }
}

/// A signature longer than `MAX_SIGNATURE_LEN` bytes is cut at the last
/// character boundary within 117 bytes and marked with `...`.
pub open spec fn clip_signature(t: Seq<char>) -> Seq<char> {
    if utf8_len(t) > 120 {
        t.take(fit_from(t, 0, 0, 117)) + "..."@
    } else {
        t
    }
}

/// The signature of a definition: the first line of its text, trimmed and
/// clipped.
pub open spec fn signature_of(src: Seq<u8>, r: TextRange) -> Seq<char> {
    clip_signature(trim_both(first_line(lossy_utf8(clipped(src, r))), CharClass::Space))
}

proof fn lemma_utf8_len_take_step(t: Seq<char>, i: int)
    requires
        0 <= i < t.len(),
    ensures
        utf8_len(t.take(i + 1)) == utf8_len(t.take(i)) + char_width(t[i]),
{
    assert(t.take(i + 1).drop_last() == t.take(i));
}

proof fn lemma_utf8_len_take_mono(t: Seq<char>, i: int, j: int)
    requires
        0 <= i <= j <= t.len(),
    ensures
        utf8_len(t.take(i)) <= utf8_len(t.take(j)),
    decreases j - i,
{
    if i < j {
        lemma_utf8_len_take_step(t, j - 1);
        lemma_utf8_len_take_mono(t, i, j - 1);
    }
}

pub proof fn lemma_utf8_len_concat(a: Seq<char>, b: Seq<char>)
    ensures
        utf8_len(a + b) == utf8_len(a) + utf8_len(b),
    decreases b.len(),
{
    if b.len() > 0 {
        assert((a + b).drop_last() == a + b.drop_last());
        assert((a + b).last() == b.last());
        lemma_utf8_len_concat(a, b.drop_last());
    } else {
        assert(a + b == a);
    }
}

proof fn lemma_fit_from(t: Seq<char>, i: int, used: nat, budget: nat)
    requires
        0 <= i <= t.len(),
        used == utf8_len(t.take(i)),
        used <= budget,
    ensures
        i <= fit_from(t, i, used, budget) <= t.len(),
        utf8_len(t.take(fit_from(t, i, used, budget))) <= budget,
    decreases t.len() - i,
{
    if i < t.len() && used + char_width(t[i]) <= budget {
        lemma_utf8_len_take_step(t, i);
        lemma_fit_from(t, i + 1, used + char_width(t[i]), budget);
    }
}

/// Whether `t` takes more than `limit` bytes.
fn longer_than(t: &[char], limit: usize) -> (r: bool)
    ensures
        r == (utf8_len(t@) > limit),
{
    let n = t.len();
    let mut sum: usize = 0;
    let mut i: usize = 0;
    while i < n
        invariant
            n == t@.len(),
            i <= n,
            sum == utf8_len(t@.take(i as int)),
            sum <= limit,
        decreases n - i,
    {
        let w = char_utf8_width(t[i]);
        proof {
            lemma_utf8_len_take_step(t@, i as int);
        }
        if w > limit - sum {
            proof {
                lemma_utf8_len_take_mono(t@, i + 1, n as int);
                assert(t@.take(n as int) == t@);
            }
            return true;
        }
        sum = sum + w;
        i = i + 1;
    }
    assert(t@.take(n as int) == t@);
    false
}

/// How many leading characters of `t` fit in `budget` bytes.
fn fit_count(t: &[char], budget: usize) -> (k: usize)
    ensures
        k == fit_from(t@, 0, 0, budget as nat),
        k <= t@.len(),
{
    let n = t.len();
    let mut used: usize = 0;
    let mut i: usize = 0;
    proof {
        lemma_fit_from(t@, 0, 0, budget as nat);
    }
    while i < n && char_utf8_width(t[i]) <= budget - used
        invariant
            n == t@.len(),
            i <= n,
            used <= budget,
            fit_from(t@, 0, 0, budget as nat) == fit_from(t@, i as int, used as nat, budget as nat),
        decreases n - i,
    {
        used = used + char_utf8_width(t[i]);
        i = i + 1;
    }
    i
}

/// The first line of `s`.
fn first_line_of(s: &[char]) -> (r: Vec<char>)
    ensures
        r@ == first_line(s@),
{
    let ghost pred = |i: int| s@[i] == '\n';
    let n = s.len();
    let mut k: usize = 0;
    while k < n && s[k] != '\n'
        invariant
            n == s@.len(),
            k <= n,
            pred == (|i: int| s@[i] == '\n'),
            first_from(n as int, pred, 0) == first_from(n as int, pred, k as int),
        decreases n - k,
    {
        assert(!pred(k as int));
        k = k + 1;
    }
    if k == n {
        assert(s@.take(n as int) == s@);
        sub_chars(s, 0, n)
    } else {
        assert(pred(k as int));
        if k > 0 && s[k - 1] == '\r' {
            let r = sub_chars(s, 0, k - 1);
            assert(r@ == s@.take(k as int).drop_last());
            r
        } else {
            sub_chars(s, 0, k)
        }
    }
}

/// The first line of a node's text, trimmed and clipped to
/// `MAX_SIGNATURE_LEN` bytes.
pub fn extract_signature(source: &[u8], r: TextRange) -> (sig: String)
    ensures
        sig@ == signature_of(source@, r),
        utf8_len(sig@) <= 120,
{
    let end = if r.end_byte <= source.len() {
        r.end_byte
    } else {
        source.len()
    };
    let text = if r.start_byte <= end {
        utf8_lossy(&source[r.start_byte..end])
    } else {
        utf8_lossy(&source[0..0])
    };
    proof {
        if !(r.start_byte <= end) {
            assert(source@.subrange(0, 0) =~= Seq::<u8>::empty());
        }
    }
    let cs = chars_of(text.as_str());
    let line = first_line_of(cs.as_slice());
    let trimmed = strip_both(line.as_slice(), CharClass::Space);
    if longer_than(trimmed.as_slice(), 120) {
        let k = fit_count(trimmed.as_slice(), 117);
        let head = sub_chars(trimmed.as_slice(), 0, k);
        let mut out = string_from_chars(head.as_slice());
        out.append("...");
        proof {
            reveal_strlit("...");
            lemma_fit_from(trimmed@, 0, 0, 117);
            assert(head@ == trimmed@.take(k as int));
            lemma_utf8_len_concat(head@, "..."@);
            assert(utf8_len("..."@) == 3) by {
                reveal_with_fuel(utf8_len, 4);
                let d = "..."@;
                assert(d.len() == 3);
                assert(d.drop_last().drop_last().drop_last() =~= Seq::<char>::empty());
            }
        }
        out
    } else {
        string_from_chars(trimmed.as_slice())
    }
}

// ----------------------------------------------------------------------
// Semantic kinds
// ----------------------------------------------------------------------

/// `use` followed by an uppercase letter: a React hook.
pub open spec fn is_hook_name(b: Seq<char>) -> bool {
    has_prefix(b, "use"@) && b.len() > 3 && uppercase(b[3])
}

/// The kind of a symbol once its name and language are taken into account:
/// TSX components and hooks, TS/JS hooks, Python and Go tests.
pub open spec fn semantic_kind(lang: Language, kind: SymbolKind, name: Seq<char>) -> SymbolKind {
    let b = bare_name(name);
    match lang {
        Language::Tsx => if kind == SymbolKind::Function {
            if uppercase(
                if b.len() > 0 {
                    b[0]
                } else {
                    'a'
                },
            ) {
                SymbolKind::Component
            } else if is_hook_name(b) {
                SymbolKind::Hook
            } else {
                kind
            }
        } else {
            kind
        },
        Language::TypeScript | Language::JavaScript => if kind == SymbolKind::Function
            && is_hook_name(b) {
            SymbolKind::Hook
        } else {
            kind
        },
        Language::Python => if (kind == SymbolKind::Function || kind == SymbolKind::Method)
            && has_prefix(b, "test_"@) {
            SymbolKind::Test
        } else {
            kind
        },
        Language::Go => if kind == SymbolKind::Function && has_prefix(b, "Test"@) && b.len() > 4 {
            SymbolKind::Test
        } else {
            kind
        },
        _ => kind,
    }
}

fn hook_name(b: &[char]) -> (r: bool)
    ensures
        r == is_hook_name(b@),
{
    starts_with(b, "use") && b.len() > 3 && char_is_uppercase(b[3])
}

/// Reclassifies a symbol by its name and language (components, hooks,
/// tests); only the kind changes.
pub fn reclassify_semantic_kind(sym: &mut Symbol)
    ensures
        final(sym).kind == semantic_kind(old(sym).lang, old(sym).kind, old(sym).name@),
        final(sym).name == old(sym).name,
        final(sym).lang == old(sym).lang,
        final(sym).file == old(sym).file,
        final(sym).line == old(sym).line,
        final(sym).end_line == old(sym).end_line,
        final(sym).col == old(sym).col,
        final(sym).signature == old(sym).signature,
        final(sym).visibility == old(sym).visibility,
{
    let cs = chars_of(sym.name.as_str());
    let b = trailing_run(cs.as_slice(), CharClass::NonDot);
    match sym.lang {
        Language::Tsx => {
            if sym.kind == SymbolKind::Function {
                let first = if b.len() > 0 {
                    b[0]
                } else {
                    'a'
                };
                if char_is_uppercase(first) {
                    sym.kind = SymbolKind::Component;
                } else if hook_name(b.as_slice()) {
                    sym.kind = SymbolKind::Hook;
                }
            }
        },
        Language::TypeScript | Language::JavaScript => {
            if sym.kind == SymbolKind::Function && hook_name(b.as_slice()) {
                sym.kind = SymbolKind::Hook;
            }
        },
        Language::Python => {
            if (sym.kind == SymbolKind::Function || sym.kind == SymbolKind::Method) && starts_with(
                b.as_slice(),
                "test_",
            ) {
                sym.kind = SymbolKind::Test;
            }
        },
        Language::Go => {
            if sym.kind == SymbolKind::Function && starts_with(b.as_slice(), "Test") && b.len()
                > 4 {
                sym.kind = SymbolKind::Test;
            }
        },
        _ => {},
    }
}

// ----------------------------------------------------------------------
// One symbol per position
// ----------------------------------------------------------------------

/// Two symbols start at the same line and column.
pub open spec fn same_pos(a: Symbol, b: Symbol) -> bool {
    a.line == b.line && a.col == b.col
}

/// `a` starts before `b`.
pub open spec fn pos_before(a: Symbol, b: Symbol) -> bool {
    a.line < b.line || (a.line == b.line && a.col < b.col)
}

/// `s[j]` is the first symbol of `s` at its position.
pub open spec fn first_at(s: Seq<Symbol>, j: int) -> bool {
    0 <= j < s.len() && forall|k: int| 0 <= k < j ==> !same_pos(#[trigger] s[k], s[j])
}

/// `r[i]` is the first symbol of `s` at its position.
pub open spec fn from_first(s: Seq<Symbol>, r: Seq<Symbol>, i: int) -> bool {
    exists|j: int| first_at(s, j) && s[j] == r[i]
}

/// Some symbol of `r` is at the position of `x`.
pub open spec fn has_pos(r: Seq<Symbol>, x: Symbol) -> bool {
    exists|i: int| 0 <= i < r.len() && same_pos(r[i], x)
}

/// `x` is an element of `r`.
pub open spec fn has_elem(r: Seq<Symbol>, x: Symbol) -> bool {
    exists|i: int| 0 <= i < r.len() && r[i] == x
}

/// `r` holds, ordered by position, the first symbol of `s` at each position
/// and nothing else.
pub open spec fn is_dedup_of(s: Seq<Symbol>, r: Seq<Symbol>) -> bool {
    &&& forall|a: int, b: int| 0 <= a < b < r.len() ==> pos_before(#[trigger] r[a], #[trigger] r[b])
    &&& forall|i: int| 0 <= i < r.len() ==> #[trigger] from_first(s, r, i)
    &&& forall|j: int| #[trigger] first_at(s, j) ==> has_elem(r, s[j])
}

/// Every position of `s` occurs in `r`.
pub open spec fn covers(s: Seq<Symbol>, r: Seq<Symbol>) -> bool {
    forall|k: int| 0 <= k < s.len() ==> #[trigger] has_pos(r, s[k])
}

proof fn lemma_first_at_push(t: Seq<Symbol>, x: Symbol, k: int)
    requires
        0 <= k < t.len(),
    ensures
        first_at(t.push(x), k) == first_at(t, k),
{
    let t2 = t.push(x);
    assert(t2[k] == t[k]);
    if first_at(t, k) {
        assert forall|m: int| 0 <= m < k implies !same_pos(#[trigger] t2[m], t2[k]) by {
            assert(t2[m] == t[m]);
        }
    }
    if first_at(t2, k) {
        assert forall|m: int| 0 <= m < k implies !same_pos(#[trigger] t[m], t[k]) by {
            assert(t2[m] == t[m]);
        }
    }
}

proof fn lemma_dedup_skip(t: Seq<Symbol>, r: Seq<Symbol>, x: Symbol, p: int)
    requires
        is_dedup_of(t, r),
        covers(t, r),
        0 <= p < r.len(),
        same_pos(r[p], x),
    ensures
        is_dedup_of(t.push(x), r),
        covers(t.push(x), r),
{
    let t2 = t.push(x);
    let n = t.len() as int;
    assert(from_first(t, r, p));
    let j0 = choose|j: int| first_at(t, j) && t[j] == r[p];
    assert(t2[j0] == t[j0]);
    assert(!first_at(t2, n)) by {
        assert(same_pos(t2[j0], t2[n]));
    }
    assert forall|i: int| 0 <= i < r.len() implies #[trigger] from_first(t2, r, i) by {
        assert(from_first(t, r, i));
        let j = choose|j: int| first_at(t, j) && t[j] == r[i];
        lemma_first_at_push(t, x, j);
        assert(t2[j] == t[j]);
    }
    assert forall|j: int| #[trigger] first_at(t2, j) implies has_elem(r, t2[j]) by {
        if j < n {
            lemma_first_at_push(t, x, j);
            assert(t2[j] == t[j]);
        }
    }
    assert forall|k: int| 0 <= k < t2.len() implies #[trigger] has_pos(r, t2[k]) by {
        if k < n {
            assert(t2[k] == t[k]);
            assert(has_pos(r, t[k]));
        } else {
            assert(same_pos(r[p], t2[k]));
        }
    }
}

#[verifier::rlimit(50)]
proof fn lemma_dedup_insert(t: Seq<Symbol>, r: Seq<Symbol>, x: Symbol, p: int)
    requires
        is_dedup_of(t, r),
        covers(t, r),
        0 <= p <= r.len(),
        forall|i: int| 0 <= i < p ==> pos_before(#[trigger] r[i], x),
        p < r.len() ==> !pos_before(r[p], x) && !same_pos(r[p], x),
    ensures
        is_dedup_of(t.push(x), r.insert(p, x)),
        covers(t.push(x), r.insert(p, x)),
{
    let t2 = t.push(x);
    let r2 = r.insert(p, x);
    let n = t.len() as int;
    assert forall|i: int| p <= i < r.len() implies pos_before(x, #[trigger] r[i]) by {
        if i > p {
            assert(pos_before(r[p], r[i]));
        }
    }
    assert(!has_pos(r, x)) by {
        if has_pos(r, x) {
            let i = choose|i: int| 0 <= i < r.len() && same_pos(r[i], x);
            if i < p {
                assert(pos_before(r[i], x));
            } else {
                assert(pos_before(x, r[i]));
            }
        }
    }
    assert(first_at(t2, n)) by {
        assert forall|k: int| 0 <= k < n implies !same_pos(#[trigger] t2[k], t2[n]) by {
            assert(t2[k] == t[k]);
            assert(has_pos(r, t[k]));
            let i = choose|i: int| 0 <= i < r.len() && same_pos(r[i], t[k]);
            if same_pos(t[k], x) {
                assert(same_pos(r[i], x));
            }
        }
    }
    assert forall|a: int, b: int| 0 <= a < b < r2.len() implies pos_before(
        #[trigger] r2[a],
        #[trigger] r2[b],
    ) by {
        if b < p {
            assert(r2[a] == r[a] && r2[b] == r[b]);
        } else if b == p {
            assert(r2[a] == r[a]);
        } else if a < p {
            assert(r2[a] == r[a] && r2[b] == r[b - 1]);
            assert(pos_before(r[a], x));
            assert(pos_before(x, r[b - 1]));
        } else if a == p {
            assert(r2[b] == r[b - 1]);
        } else {
            assert(r2[a] == r[a - 1] && r2[b] == r[b - 1]);
        }
    }
    assert forall|i: int| 0 <= i < r2.len() implies #[trigger] from_first(t2, r2, i) by {
        if i == p {
            assert(t2[n] == x);
            assert(r2[i] == x);
        } else {
            let ri = if i < p {
                i
            } else {
                i - 1
            };
            assert(r2[i] == r[ri]);
            assert(from_first(t, r, ri));
            let j = choose|j: int| first_at(t, j) && t[j] == r[ri];
            lemma_first_at_push(t, x, j);
            assert(t2[j] == t[j]);
        }
    }
    assert forall|j: int| #[trigger] first_at(t2, j) implies has_elem(r2, t2[j]) by {
        if j == n {
            assert(r2[p] == t2[j]);
        } else {
            lemma_first_at_push(t, x, j);
            assert(t2[j] == t[j]);
            assert(has_elem(r, t[j]));
            let i = choose|i: int| 0 <= i < r.len() && r[i] == t[j];
            if i < p {
                assert(r2[i] == r[i]);
            } else {
                assert(r2[i + 1] == r[i]);
            }
        }
    }
    assert forall|k: int| 0 <= k < t2.len() implies #[trigger] has_pos(r2, t2[k]) by {
        if k == n {
            assert(same_pos(r2[p], t2[k]));
        } else {
            assert(t2[k] == t[k]);
            assert(has_pos(r, t[k]));
            let i = choose|i: int| 0 <= i < r.len() && same_pos(r[i], t[k]);
            if i < p {
                assert(r2[i] == r[i]);
            } else {
                assert(r2[i + 1] == r[i]);
            }
        }
    }
}

fn blank_symbol() -> (r: Symbol)
    ensures
        r.name@ == Seq::<char>::empty(),
        r.kind == SymbolKind::Function,
        r.lang == Language::Rust,
        r.file@ == Seq::<char>::empty(),
        r.line == 0,
        r.end_line == 0,
        r.col == 0,
        r.signature@ == Seq::<char>::empty(),
        r.visibility is None,
{
    Symbol {
        name: String::new(),
        kind: SymbolKind::Function,
        lang: Language::Rust,
        file: String::new(),
        line: 0,
        end_line: 0,
        col: 0,
        signature: String::new(),
        visibility: None,
    }
}

/// Keeps the first symbol at each (line, column) and orders the result by
/// position (a stable sort by position followed by a dedup).
pub fn dedup_by_position(syms: Vec<Symbol>) -> (r: Vec<Symbol>)
    ensures
        is_dedup_of(syms@, r@),
{
    let mut src = syms;
    let ghost s = src@;
    let n = src.len();
    let mut r: Vec<Symbol> = Vec::new();
    proof {
        assert(s.take(0).len() == 0);
    }
    for j in 0..n
        invariant
            n == s.len(),
            src@.len() == n,
            forall|k: int| j <= k < n ==> #[trigger] src@[k] == s[k],
            is_dedup_of(s.take(j as int), r@),
            covers(s.take(j as int), r@),
    {
        let mut x = blank_symbol();
        src.set_and_swap(j, &mut x);
        assert(x == s[j as int]);
        assert(s.take(j + 1) == s.take(j as int).push(x));
        let mut pos: usize = 0;
        while pos < r.len() && (r[pos].line < x.line || (r[pos].line == x.line && r[pos].col
            < x.col))
            invariant
                pos <= r@.len(),
                forall|i: int| 0 <= i < pos ==> pos_before(#[trigger] r@[i], x),
            decreases r@.len() - pos,
        {
            pos = pos + 1;
        }
        if pos < r.len() && r[pos].line == x.line && r[pos].col == x.col {
            proof {
                lemma_dedup_skip(s.take(j as int), r@, x, pos as int);
            }
        } else {
            proof {
                lemma_dedup_insert(s.take(j as int), r@, x, pos as int);
            }
            r.insert(pos, x);
        }
    }
    assert(s.take(n as int) == s);
    r
}

// ----------------------------------------------------------------------
// Symbols from query matches
// ----------------------------------------------------------------------

/// A 0-based row or column made 1-based.
pub open spec fn one_based(x: usize) -> usize {
    if x < usize::MAX {
        (x + 1) as usize
    } else {
        x
    }
}

fn to_one_based(x: usize) -> (r: usize)
    ensures
        r == one_based(x),
{
    if x < usize::MAX {
        x + 1
    } else {
        x
    }
}

/// The arena index of the node with identity `id`.
pub open spec fn node_with_id(ns: Seq<SyntaxNode>, id: usize) -> Option<int> {
    first_from(ns.len() as int, |i: int| ns[i].id == id, 0)
}

/// Which captures of a match count: those at `name_idx`, or (`want_def`)
/// those at `def_idx` that are not at `name_idx`.
pub open spec fn capture_wanted(name_idx: u32, def_idx: Option<u32>, want_def: bool, i: u32) -> bool {
    if want_def {
        i != name_idx && def_idx == Some(i)
    } else {
        i == name_idx
    }
}

/// The node id of the last wanted capture.
pub open spec fn last_capture(caps: Seq<Capture>, name_idx: u32, def_idx: Option<u32>, want_def: bool) -> Option<usize>
    decreases caps.len(),
{
    if caps.len() == 0 {
        None
    } else if capture_wanted(name_idx, def_idx, want_def, caps.last().index) {
        Some(caps.last().node_id)
    } else {
        last_capture(caps.drop_last(), name_idx, def_idx, want_def)
    }
}

/// The arena index of the node of the last wanted capture.
pub open spec fn captured_node(ns: Seq<SyntaxNode>, caps: Seq<Capture>, name_idx: u32, def_idx: Option<u32>, want_def: bool) -> Option<int> {
    match last_capture(caps, name_idx, def_idx, want_def) {
        Some(id) => node_with_id(ns, id),
        None => None,
    }
}

fn find_node(t: &SyntaxTree, id: usize) -> (r: Option<usize>)
    ensures
        r matches Some(i) ==> node_with_id(t.nodes@, id) == Some(i as int) && i < t.nodes@.len(),
        r is None ==> node_with_id(t.nodes@, id) is None,
{
    let ghost pred = |i: int| t.nodes@[i].id == id;
    let n = t.nodes.len();
    for i in 0..n
        invariant
            n == t.nodes@.len(),
            pred == (|i: int| t.nodes@[i].id == id),
            first_from(n as int, pred, 0) == first_from(n as int, pred, i as int),
    {
        if t.nodes[i].id == id {
            assert(pred(i as int));
            return Some(i);
        }
        assert(!pred(i as int));
    }
    None
}

fn captured(t: &SyntaxTree, caps: &[Capture], name_idx: u32, def_idx: Option<u32>, want_def: bool) -> (r: Option<usize>)
    ensures
        r matches Some(i) ==> captured_node(t.nodes@, caps@, name_idx, def_idx, want_def) == Some(i as int) && i < t.nodes@.len(),
        r is None ==> captured_node(t.nodes@, caps@, name_idx, def_idx, want_def) is None,
{
    let mut k = caps.len();
    assert(caps@.take(k as int) == caps@);
    while k > 0
        invariant
            k <= caps@.len(),
            last_capture(caps@, name_idx, def_idx, want_def) == last_capture(caps@.take(k as int), name_idx, def_idx, want_def),
        decreases k,
    {
        assert(caps@.take(k as int).drop_last() == caps@.take(k - 1));
        let c = caps[k - 1];
        let hit = if want_def {
            c.index != name_idx && def_idx == Some(c.index)
        } else {
            c.index == name_idx
        };
        if hit {
            return find_node(t, c.node_id);
        }
        k = k - 1;
    }
    None
}

/// The name node of a match, if its text is not empty.
pub open spec fn match_yields(ns: Seq<SyntaxNode>, src: Seq<u8>, m: QueryHit, name_idx: u32) -> bool {
    match captured_node(ns, m.captures@, name_idx, None, false) {
        Some(nn) => range_text_or_empty(src, ns[nn].range).len() > 0,
        None => false,
    }
}

/// `sym` is the symbol that a match of a query gives.
pub open spec fn symbol_of_match(
    sym: Symbol,
    ns: Seq<SyntaxNode>,
    src: Seq<u8>,
    path: Seq<char>,
    lang: Language,
    kind: SymbolKind,
    name_idx: u32,
    def_idx: Option<u32>,
    m: QueryHit,
) -> bool {
    match captured_node(ns, m.captures@, name_idx, None, false) {
        Some(nn) => {
            let name = range_text_or_empty(src, ns[nn].range);
            let r = ns[nn].range;
            let def = captured_node(ns, m.captures@, name_idx, def_idx, true);
            &&& name.len() > 0
            &&& sym.name@ == (match parent_name(ns, src, nn, kind) {
                Some(p) => p + "."@ + name,
                None => name,
            })
            &&& sym.kind == (if lang == Language::Rust && kind == SymbolKind::Function && (match def {
                Some(d) => attrs_include_test(ns, src, d),
                None => false,
            }) {
                SymbolKind::Test
            } else {
                kind
            })
            &&& sym.lang == lang
            &&& sym.file@ == path
            &&& sym.line == one_based(r.start_row)
            &&& sym.col == one_based(r.start_col)
            &&& sym.end_line == (match def {
                Some(d) => one_based(ns[d].range.end_row),
                None => one_based(r.start_row),
            })
            &&& sym.signature@ == (match def {
                Some(d) => signature_of(src, ns[d].range),
                None => name,
            })
            &&& sym.visibility == visibility_of(ns, def, lang, name)
        },
        None => false,
    }
}

/// The positions of the matches that give a symbol.
pub open spec fn yielding(ns: Seq<SyntaxNode>, src: Seq<u8>, hs: Seq<QueryHit>, name_idx: u32) -> Seq<int>
    decreases hs.len(),
{
    if hs.len() == 0 {
        Seq::empty()
    } else {
        let before = yielding(ns, src, hs.drop_last(), name_idx);
        if match_yields(ns, src, hs.last(), name_idx) {
            before.push(hs.len() - 1)
        } else {
            before
        }
    }
}

proof fn lemma_yielding_bound(ns: Seq<SyntaxNode>, src: Seq<u8>, hs: Seq<QueryHit>, name_idx: u32)
    ensures
        forall|i: int| 0 <= i < yielding(ns, src, hs, name_idx).len() ==> 0 <= #[trigger] yielding(ns, src, hs, name_idx)[i] < hs.len(),
    decreases hs.len(),
{
    if hs.len() > 0 {
        lemma_yielding_bound(ns, src, hs.drop_last(), name_idx);
        let before = yielding(ns, src, hs.drop_last(), name_idx);
        let y = yielding(ns, src, hs, name_idx);
        assert forall|i: int| 0 <= i < y.len() implies 0 <= #[trigger] y[i] < hs.len() by {
            if i < before.len() {
                assert(y[i] == before[i]);
            }
        }
    }
}

/// The symbol that one match of a query gives, if any.
fn symbol_for_match(
    t: &SyntaxTree,
    source: &[u8],
    path: &str,
    lang: Language,
    q: &CompiledQuery,
    m: &QueryHit,
) -> (r: Option<Symbol>)
    requires
        t.wf(),
    ensures
        r is Some <==> match_yields(t.nodes@, source@, *m, q.name_idx),
        r matches Some(sym) ==> symbol_of_match(sym, t.nodes@, source@, path@, lang, q.kind, q.name_idx, q.def_idx, *m),
{
    let name_n = match captured(t, m.captures.as_slice(), q.name_idx, None, false) {
        Some(n) => n,
        None => {
            return None;
        },
    };
    let name: &str = match node_text(source, &t.nodes[name_n]) {
        Some(s) => s,
        None => {
            return None;
        },
    };
    if name.is_empty() {
        return None;
    }
    let r = t.nodes[name_n].range;
    let def = captured(t, m.captures.as_slice(), q.name_idx, q.def_idx, true);
    let (signature, end_line) = match def {
        Some(d) => (extract_signature(source, t.nodes[d].range), to_one_based(t.nodes[d].range.end_row)),
        None => (string_from(name), to_one_based(r.start_row)),
    };
    let display_name = match find_parent_name(t, source, name_n, q.kind) {
        Some(parent) => {
            let mut s = parent;
            s.append(".");
            s.append(name);
            s
        },
        None => string_from(name),
    };
    let visibility = detect_visibility(t, def, lang, name);
    let is_test = match def {
        Some(d) => lang == Language::Rust && q.kind == SymbolKind::Function && has_test_attribute(t, source, d),
        None => false,
    };
    let kind = if is_test {
        SymbolKind::Test
    } else {
        q.kind
    };
    Some(Symbol {
        name: display_name,
        kind,
        lang,
        file: string_from(path),
        line: to_one_based(r.start_row),
        end_line,
        col: to_one_based(r.start_col),
        signature,
        visibility,
    })
}

/// The symbols that the matches of one query give, in match order: one per
/// match whose `@name` capture has a non-empty text.
pub fn symbols_from_matches(
    t: &SyntaxTree,
    source: &[u8],
    path: &str,
    lang: Language,
    q: &CompiledQuery,
    hits: &[QueryHit],
) -> (r: Vec<Symbol>)
    requires
        t.wf(),
    ensures
        r@.len() == yielding(t.nodes@, source@, hits@, q.name_idx).len(),
        forall|i: int|
            0 <= i < r@.len() ==> symbol_of_match(
                #[trigger] r@[i],
                t.nodes@,
                source@,
                path@,
                lang,
                q.kind,
                q.name_idx,
                q.def_idx,
                hits@[yielding(t.nodes@, source@, hits@, q.name_idx)[i]],
            ),
{
    let mut out: Vec<Symbol> = Vec::new();
    let n = hits.len();
    for j in 0..n
        invariant
            n == hits@.len(),
            t.wf(),
            out@.len() == yielding(t.nodes@, source@, hits@.take(j as int), q.name_idx).len(),
            forall|i: int|
                0 <= i < out@.len() ==> symbol_of_match(
                    #[trigger] out@[i],
                    t.nodes@,
                    source@,
                    path@,
                    lang,
                    q.kind,
                    q.name_idx,
                    q.def_idx,
                    hits@[yielding(t.nodes@, source@, hits@.take(j as int), q.name_idx)[i]],
                ),
    {
        let ghost ns = t.nodes@;
        let ghost y0 = yielding(ns, source@, hits@.take(j as int), q.name_idx);
        assert(hits@.take(j + 1).drop_last() == hits@.take(j as int));
        assert(hits@.take(j + 1).last() == hits@[j as int]);
        let ghost y1 = yielding(ns, source@, hits@.take(j + 1), q.name_idx);
        proof {
            lemma_yielding_bound(ns, source@, hits@.take(j as int), q.name_idx);
        }
        match symbol_for_match(t, source, path, lang, q, &hits[j]) {
            Some(sym) => {
                let ghost before = out@;
                out.push(sym);
                assert(y1 == y0.push(j as int));
                assert forall|i: int| 0 <= i < out@.len() implies symbol_of_match(
                    #[trigger] out@[i],
                    ns,
                    source@,
                    path@,
                    lang,
                    q.kind,
                    q.name_idx,
                    q.def_idx,
                    hits@[y1[i]],
                ) by {
                    if i < before.len() {
                        assert(out@[i] == before[i]);
                        assert(y1[i] == y0[i]);
                    }
                }
            },
            None => {
                assert(y1 == y0);
            },
        }
    }
    assert(hits@.take(n as int) == hits@);
    out
}

// ----------------------------------------------------------------------
// Injections
// ----------------------------------------------------------------------

/// The language that a pattern of an injection query sets.
pub open spec fn pattern_language(pl: Seq<Option<String>>, idx: usize) -> Option<Seq<char>> {
    if idx < pl.len() {
        match pl[idx as int] {
            Some(s) => Some(s@),
            None => None,
        }
    } else {
        None
    }
}

/// The text of the last `@injection.language` capture of a match.
pub open spec fn dynamic_language(ns: Seq<SyntaxNode>, src: Seq<u8>, caps: Seq<Capture>, lang_cap: Option<u32>) -> Option<Seq<char>> {
    match lang_cap {
        Some(li) => match captured_node(ns, caps, li, None, false) {
            Some(n) => range_text(src, ns[n].range),
            None => None,
        },
        None => None,
    }
}

/// The `@injection.content` node of a match: the last capture at
/// `content_idx` that is not at the language capture.
pub open spec fn content_node(ns: Seq<SyntaxNode>, caps: Seq<Capture>, content_idx: u32, lang_cap: Option<u32>) -> Option<int> {
    match lang_cap {
        Some(li) => captured_node(ns, caps, li, Some(content_idx), true),
        None => captured_node(ns, caps, content_idx, None, false),
    }
}

/// Where one match of an injection query leads: the injected language and
/// the byte range to parse it in. None where the match has no content, no
/// known language, an empty range, or the very range being parsed.
pub open spec fn injection_target(
    ns: Seq<SyntaxNode>,
    src: Seq<u8>,
    custom: Seq<CustomLang>,
    content_idx: u32,
    lang_cap: Option<u32>,
    pl: Seq<Option<String>>,
    ranges: Seq<TextRange>,
    m: QueryHit,
) -> Option<(Language, TextRange)> {
    match content_node(ns, m.captures@, content_idx, lang_cap) {
        Some(cn) => {
            let name = match dynamic_language(ns, src, m.captures@, lang_cap) {
                Some(d) => Some(d),
                None => pattern_language(pl, m.pattern_index),
            };
            match name {
                Some(nm) => match language_for_injection_name(custom, nm) {
                    Some(l) => {
                        let r = ns[cn].range;
                        if r.start_byte >= r.end_byte {
                            None
                        } else if ranges.len() == 1 && r.start_byte == ranges[0].start_byte
                            && r.end_byte == ranges[0].end_byte {
                            None
                        } else {
                            Some((l, r))
                        }
                    },
                    None => None,
                },
                None => None,
            }
        },
        None => None,
    }
}

/// A built-in language, or a custom one among the first `n`.
pub open spec fn lang_in(n: nat, l: Language) -> bool {
    match l {
        Language::Custom(i) => i < n,
        _ => true,
    }
}

/// The targets of all matches, in match order.
pub open spec fn injection_targets_spec(
    ns: Seq<SyntaxNode>,
    src: Seq<u8>,
    custom: Seq<CustomLang>,
    content_idx: u32,
    lang_cap: Option<u32>,
    pl: Seq<Option<String>>,
    ranges: Seq<TextRange>,
    hs: Seq<QueryHit>,
) -> Seq<(Language, TextRange)>
    decreases hs.len(),
{
    if hs.len() == 0 {
        Seq::empty()
    } else {
        let before = injection_targets_spec(ns, src, custom, content_idx, lang_cap, pl, ranges, hs.drop_last());
        match injection_target(ns, src, custom, content_idx, lang_cap, pl, ranges, hs.last()) {
            Some(x) => before.push(x),
            None => before,
        }
    }
}

proof fn lemma_injection_name_valid(custom: Seq<CustomLang>, nm: Seq<char>)
    ensures
        language_for_injection_name(custom, nm) matches Some(Language::Custom(i)) ==> custom.len() <= 0x10000 ==> i < custom.len(),
{
    lemma_custom_lookup_range(custom, nm);
    match custom_for_injection_name(custom, nm) {
        Some(i) => {
            if custom.len() <= 0x10000 {
                assert((i as u16) as int == i);
            }
        },
        None => {},
    }
}

fn injection_target_of(
    t: &SyntaxTree,
    source: &[u8],
    custom: &[CustomLang],
    iq: &CompiledInjectionQuery,
    ranges: &[TextRange],
    m: &QueryHit,
) -> (r: Option<(Language, TextRange)>)
    requires
        custom@.len() <= 0x10000,
    ensures
        r == injection_target(t.nodes@, source@, custom@, iq.content_idx, iq.language_capture_idx, iq.pattern_languages@, ranges@, *m),
        r matches Some(x) ==> lang_in(custom@.len(), x.0),
{
    let caps = m.captures.as_slice();
    let content = match iq.language_capture_idx {
        Some(li) => captured(t, caps, li, Some(iq.content_idx), true),
        None => captured(t, caps, iq.content_idx, None, false),
    };
    let cn = match content {
        Some(c) => c,
        None => {
            return None;
        },
    };
    let dynamic: Option<&str> = match iq.language_capture_idx {
        Some(li) => match captured(t, caps, li, None, false) {
            Some(n) => node_text(source, &t.nodes[n]),
            None => None,
        },
        None => None,
    };
    let name: Option<&str> = match dynamic {
        Some(d) => Some(d),
        None => if m.pattern_index < iq.pattern_languages.len() {
            match &iq.pattern_languages[m.pattern_index] {
                Some(s) => Some(s.as_str()),
                None => None,
            }
        } else {
            None
        },
    };
    let nm = match name {
        Some(nm) => nm,
        None => {
            return None;
        },
    };
    proof {
        lemma_injection_name_valid(custom@, nm@);
        lemma_custom_lookup_range(custom@, nm@);
    }
    let l = match Language::from_injection_name(nm, custom) {
        Some(l) => l,
        None => {
            return None;
        },
    };
    let r = t.nodes[cn].range;
    if r.start_byte >= r.end_byte {
        None
    } else if ranges.len() == 1 && r.start_byte == ranges[0].start_byte && r.end_byte == ranges[0].end_byte {
        None
    } else {
        Some((l, r))
    }
}

/// Where the matches of an injection query lead, in match order.
pub fn injection_targets(
    t: &SyntaxTree,
    source: &[u8],
    custom: &[CustomLang],
    iq: &CompiledInjectionQuery,
    ranges: &[TextRange],
    hits: &[QueryHit],
) -> (r: Vec<(Language, TextRange)>)
    requires
        custom@.len() <= 0x10000,
    ensures
        r@ == injection_targets_spec(t.nodes@, source@, custom@, iq.content_idx, iq.language_capture_idx, iq.pattern_languages@, ranges@, hits@),
        forall|k: int| 0 <= k < r@.len() ==> lang_in(custom@.len(), (#[trigger] r@[k]).0),
{
    let mut out: Vec<(Language, TextRange)> = Vec::new();
    let n = hits.len();
    for j in 0..n
        invariant
            n == hits@.len(),
            custom@.len() <= 0x10000,
            out@ == injection_targets_spec(t.nodes@, source@, custom@, iq.content_idx, iq.language_capture_idx, iq.pattern_languages@, ranges@, hits@.take(j as int)),
            forall|k: int| 0 <= k < out@.len() ==> lang_in(custom@.len(), (#[trigger] out@[k]).0),
    {
        assert(hits@.take(j + 1).drop_last() == hits@.take(j as int));
        assert(hits@.take(j + 1).last() == hits@[j as int]);
        match injection_target_of(t, source, custom, iq, ranges, &hits[j]) {
            Some(x) => {
                out.push(x);
            },
            None => {},
        }
    }
    assert(hits@.take(n as int) == hits@);
    out
}

// ----------------------------------------------------------------------
// Extraction
// ----------------------------------------------------------------------

/// How deep injected regions are followed.
pub const MAX_INJECTION_DEPTH: u32 = 8;

/// Why a file could not be parsed.
pub enum ExtractError {
    /// The parser did not accept the grammar.
    Language(tree_sitter::LanguageError),
    /// The included range at this index is out of order.
    IncludedRanges(usize),
}

/// What every extracted symbol satisfies.
pub open spec fn sound_symbol(s: Symbol, path: Seq<char>) -> bool {
    &&& s.file@ == path
    &&& s.name@.len() > 0
    &&& s.line >= 1
    &&& s.col >= 1
    &&& s.end_line >= 1
}

proof fn lemma_match_symbol_sound(
    sym: Symbol,
    ns: Seq<SyntaxNode>,
    src: Seq<u8>,
    path: Seq<char>,
    lang: Language,
    kind: SymbolKind,
    name_idx: u32,
    def_idx: Option<u32>,
    m: QueryHit,
)
    requires
        symbol_of_match(sym, ns, src, path, lang, kind, name_idx, def_idx, m),
    ensures
        sound_symbol(sym, path),
{
    let nn = captured_node(ns, m.captures@, name_idx, None, false)->0;
    let name = range_text_or_empty(src, ns[nn].range);
    match parent_name(ns, src, nn, kind) {
        Some(p) => {
            assert((p + "."@ + name).len() >= name.len());
        },
        None => {},
    }
}

/// `syms` are the symbols that the matches `hits` of query `q` give, in
/// match order: one for each match whose `@name` text is not empty.
pub open spec fn query_symbols(
    ns: Seq<SyntaxNode>,
    src: Seq<u8>,
    path: Seq<char>,
    lang: Language,
    q: CompiledQuery,
    hits: Seq<QueryHit>,
    syms: Seq<Symbol>,
) -> bool {
    let y = yielding(ns, src, hits, q.name_idx);
    &&& syms.len() == y.len()
    &&& forall|i: int|
        0 <= i < syms.len() ==> symbol_of_match(
            #[trigger] syms[i],
            ns,
            src,
            path,
            lang,
            q.kind,
            q.name_idx,
            q.def_idx,
            hits[y[i]],
        )
}

/// `parts[i]` are the symbols that query `qs[i]` gives with its matches
/// `hits[i]`, for every query of the list.
pub open spec fn queries_give(
    ns: Seq<SyntaxNode>,
    src: Seq<u8>,
    path: Seq<char>,
    lang: Language,
    qs: Seq<CompiledQuery>,
    hits: Seq<Seq<QueryHit>>,
    parts: Seq<Seq<Symbol>>,
) -> bool {
    &&& hits.len() == qs.len()
    &&& parts.len() == qs.len()
    &&& forall|i: int| 0 <= i < qs.len() ==> #[trigger] query_symbols(ns, src, path, lang, qs[i], hits[i], parts[i])
}

/// Where the injection query of `lang` leads from the tree `ns` with its
/// matches `inj_hits`: nowhere at the depth limit or without an injection
/// query.
pub open spec fn injection_targets_at(
    catalog: Catalog,
    src: Seq<u8>,
    lang: Language,
    ranges: Seq<TextRange>,
    depth: int,
    ns: Seq<SyntaxNode>,
    inj_hits: Seq<QueryHit>,
) -> Seq<(Language, TextRange)> {
    if depth < MAX_INJECTION_DEPTH {
        match catalog.injection_of(lang) {
            Some(iq) => injection_targets_spec(
                ns,
                src,
                catalog.custom_view(),
                iq.content_idx,
                iq.language_capture_idx,
                iq.pattern_languages@,
                ranges,
                inj_hits,
            ),
            None => Seq::empty(),
        }
    } else {
        Seq::empty()
    }
}

/// `added` is what one extraction step gives, given the tree `ns` that the
/// parser built, the matches `hits` of each query of the language and the
/// matches `inj_hits` of its injection query: the symbols of the queries in
/// table order, then one group `nested[k]` per injection target, in match
/// order.
pub open spec fn extraction_step(
    catalog: Catalog,
    path: Seq<char>,
    src: Seq<u8>,
    lang: Language,
    ranges: Seq<TextRange>,
    depth: int,
    ns: Seq<SyntaxNode>,
    hits: Seq<Seq<QueryHit>>,
    parts: Seq<Seq<Symbol>>,
    inj_hits: Seq<QueryHit>,
    nested: Seq<Seq<Symbol>>,
    added: Seq<Symbol>,
) -> bool {
    &&& arena_wf(ns)
    &&& queries_give(ns, src, path, lang, catalog.queries_of(lang), hits, parts)
    &&& nested.len() == injection_targets_at(catalog, src, lang, ranges, depth, ns, inj_hits).len()
    &&& added == parts.flatten_alt() + nested.flatten_alt()
}

/// Each group `nested[k]` is what extracting target `ts[k]` (its language,
/// within its range) gives one level deeper.
pub open spec fn nested_extractions(
    catalog: Catalog,
    path: Seq<char>,
    src: Seq<u8>,
    ts: Seq<(Language, TextRange)>,
    depth: int,
    nested: Seq<Seq<Symbol>>,
) -> bool
    decreases MAX_INJECTION_DEPTH - depth, 0int,
{
    if depth < MAX_INJECTION_DEPTH {
        forall|k: int|
            0 <= k < ts.len() ==> extraction_of(
                catalog,
                path,
                src,
                ts[k].0,
                seq![ts[k].1],
                depth + 1,
                #[trigger] nested[k],
            )
    } else {
        ts.len() == 0
    }
}

/// `added` is what extracting `src` as `lang` within `ranges` at `depth`
/// gives: one extraction step over the tree and matches that the parser
/// and queries produce, with the injection targets extracted in turn.
pub open spec fn extraction_of(
    catalog: Catalog,
    path: Seq<char>,
    src: Seq<u8>,
    lang: Language,
    ranges: Seq<TextRange>,
    depth: int,
    added: Seq<Symbol>,
) -> bool
    decreases MAX_INJECTION_DEPTH - depth, 1int,
{
    exists|
        ns: Seq<SyntaxNode>,
        hits: Seq<Seq<QueryHit>>,
        parts: Seq<Seq<Symbol>>,
        inj_hits: Seq<QueryHit>,
        nested: Seq<Seq<Symbol>>,
    |
        #[trigger] extraction_step(
            catalog,
            path,
            src,
            lang,
            ranges,
            depth,
            ns,
            hits,
            parts,
            inj_hits,
            nested,
            added,
        ) && nested_extractions(
            catalog,
            path,
            src,
            injection_targets_at(catalog, src, lang, ranges, depth, ns, inj_hits),
            depth,
            nested,
        )
}

proof fn lemma_flatten_empties<A>(n: nat)
    ensures
        Seq::new(n, |i: int| Seq::<A>::empty()).flatten_alt() == Seq::<A>::empty(),
    decreases n,
{
    if n > 0 {
        lemma_flatten_empties::<A>((n - 1) as nat);
        assert(Seq::new(n, |i: int| Seq::<A>::empty()).drop_last() =~= Seq::new(
            (n - 1) as nat,
            |i: int| Seq::<A>::empty(),
        ));
    }
}

proof fn lemma_flatten_push<A>(s: Seq<Seq<A>>, x: Seq<A>)
    ensures
        s.push(x).flatten_alt() == s.flatten_alt() + x,
{
    assert(s.push(x).drop_last() =~= s);
}

/// Parses `source` as `lang` (restricted to `ranges` unless they are
/// empty), appends the symbols that the language's queries find, then
/// follows the injection query into each injected region, at most
/// `MAX_INJECTION_DEPTH` levels deep.
pub fn extract_recursive(
    path: &str,
    source: &[u8],
    lang: Language,
    ranges: &[TextRange],
    depth: u32,
    symbols: &mut Vec<Symbol>,
    catalog: &Catalog,
) -> (r: Result<(), ExtractError>)
    requires
        lang_in(catalog.custom_view().len(), lang),
    ensures
        ranges@.len() > 0 && ranges_fit(ranges@) && !ranges_in_order(ranges@) ==> r is Err,
        final(symbols)@.len() >= old(symbols)@.len(),
        forall|i: int| 0 <= i < old(symbols)@.len() ==> #[trigger] final(symbols)@[i] == old(symbols)@[i],
        forall|i: int|
            old(symbols)@.len() <= i < final(symbols)@.len() ==> sound_symbol(#[trigger] final(symbols)@[i], path@),
        r is Ok ==> extraction_of(
            *catalog,
            path@,
            source@,
            lang,
            ranges@,
            depth as int,
            final(symbols)@.skip(old(symbols)@.len() as int),
        ),
    decreases MAX_INJECTION_DEPTH - depth,
{
    let ghost start = symbols@;
    let custom = catalog.custom();
    let ts_lang = lang.ts_language(custom);
    let mut parser = parser_new();
    match parser_set_language(&mut parser, &ts_lang) {
        Ok(()) => {},
        Err(e) => {
            return Err(ExtractError::Language(e));
        },
    }
    if ranges.len() > 0 {
        match parser_set_included_ranges(&mut parser, ranges) {
            Ok(()) => {},
            Err(i) => {
                return Err(ExtractError::IncludedRanges(i));
            },
        }
    }
    let tree = match parser_parse(&mut parser, source) {
        Some(t) => t,
        None => {
            proof {
                let qv = catalog.queries_of(lang);
                let ns: Seq<SyntaxNode> = Seq::empty();
                let hits_none = Seq::new(qv.len(), |i: int| Seq::<QueryHit>::empty());
                let parts_none = Seq::new(qv.len(), |i: int| Seq::<Symbol>::empty());
                let nested: Seq<Seq<Symbol>> = Seq::empty();
                lemma_flatten_empties::<Symbol>(qv.len());
                assert(nested.flatten_alt() =~= Seq::<Symbol>::empty());
                assert forall|i: int| 0 <= i < qv.len() implies #[trigger] query_symbols(
                    ns,
                    source@,
                    path@,
                    lang,
                    qv[i],
                    hits_none[i],
                    parts_none[i],
                ) by {
                    assert(yielding(ns, source@, hits_none[i], qv[i].name_idx).len() == 0);
                }
                assert(queries_give(ns, source@, path@, lang, qv, hits_none, parts_none));
                assert(injection_targets_at(*catalog, source@, lang, ranges@, depth as int, ns, Seq::empty()).len() == 0);
                assert(symbols@.skip(start.len() as int) =~= parts_none.flatten_alt() + nested.flatten_alt());
                assert(extraction_step(*catalog, path@, source@, lang, ranges@, depth as int, ns, hits_none, parts_none, Seq::empty(), nested, symbols@.skip(start.len() as int)));
                assert(nested_extractions(*catalog, path@, source@, injection_targets_at(*catalog, source@, lang, ranges@, depth as int, ns, Seq::empty()), depth as int, nested));
            }
            return Ok(());
        },
    };
    let snap = snapshot(tree.tree());
    let qs = compiled_queries(catalog, lang);
    let nq = qs.len();
    let ghost mut hits_all: Seq<Seq<QueryHit>> = Seq::empty();
    let ghost mut parts: Seq<Seq<Symbol>> = Seq::empty();
    for qi in 0..nq
        invariant
            nq == qs@.len(),
            qs@ == catalog.queries_of(lang),
            snap.wf(),
            symbols@.len() >= start.len(),
            forall|i: int| 0 <= i < start.len() ==> #[trigger] symbols@[i] == start[i],
            forall|i: int| start.len() <= i < symbols@.len() ==> sound_symbol(#[trigger] symbols@[i], path@),
            hits_all.len() == qi,
            parts.len() == qi,
            forall|i: int|
                0 <= i < qi ==> #[trigger] query_symbols(
                    snap.nodes@,
                    source@,
                    path@,
                    lang,
                    qs@[i],
                    hits_all[i],
                    parts[i],
                ),
            symbols@ == start + parts.flatten_alt(),
    {
        let hits = query_matches(&qs[qi].query, &tree);
        let mut found = symbols_from_matches(&snap, source, path, lang, &qs[qi], hits.as_slice());
        let ghost before = symbols@;
        let ghost found_v = found@;
        proof {
            assert forall|i: int| 0 <= i < found_v.len() implies sound_symbol(#[trigger] found_v[i], path@) by {
                let y = yielding(snap.nodes@, source@, hits@, qs@[qi as int].name_idx);
                lemma_yielding_bound(snap.nodes@, source@, hits@, qs@[qi as int].name_idx);
                lemma_match_symbol_sound(found_v[i], snap.nodes@, source@, path@, lang, qs@[qi as int].kind, qs@[qi as int].name_idx, qs@[qi as int].def_idx, hits@[y[i]]);
            }
        }
        symbols.append(&mut found);
        assert forall|i: int| start.len() <= i < symbols@.len() implies sound_symbol(#[trigger] symbols@[i], path@) by {
            if i >= before.len() {
                assert(symbols@[i] == found_v[i - before.len()]);
            } else {
                assert(symbols@[i] == before[i]);
            }
        }
        assert forall|i: int| 0 <= i < start.len() implies #[trigger] symbols@[i] == start[i] by {
            assert(symbols@[i] == before[i]);
        }
        proof {
            let old_parts = parts;
            let old_hits = hits_all;
            assert(query_symbols(snap.nodes@, source@, path@, lang, qs@[qi as int], hits@, found_v));
            parts = parts.push(found_v);
            hits_all = hits_all.push(hits@);
            lemma_flatten_push(old_parts, found_v);
            assert(symbols@ =~= start + parts.flatten_alt());
            assert forall|i: int| 0 <= i < qi + 1 implies #[trigger] query_symbols(
                snap.nodes@,
                source@,
                path@,
                lang,
                qs@[i],
                hits_all[i],
                parts[i],
            ) by {
                if i < qi {
                    assert(hits_all[i] == old_hits[i]);
                    assert(parts[i] == old_parts[i]);
                }
            }
        }
    }
    proof {
        assert(queries_give(snap.nodes@, source@, path@, lang, catalog.queries_of(lang), hits_all, parts));
    }
    if depth >= MAX_INJECTION_DEPTH {
        proof {
            let nested: Seq<Seq<Symbol>> = Seq::empty();
            assert(nested.flatten_alt() =~= Seq::<Symbol>::empty());
            assert(symbols@.skip(start.len() as int) =~= parts.flatten_alt() + nested.flatten_alt());
            assert(extraction_step(*catalog, path@, source@, lang, ranges@, depth as int, snap.nodes@, hits_all, parts, Seq::empty(), nested, symbols@.skip(start.len() as int)));
            assert(nested_extractions(*catalog, path@, source@, injection_targets_at(*catalog, source@, lang, ranges@, depth as int, snap.nodes@, Seq::empty()), depth as int, nested));
            assert(extraction_of(*catalog, path@, source@, lang, ranges@, depth as int, symbols@.skip(start.len() as int)));
        }
        return Ok(());
    }
    let iq = match compiled_injection_query(catalog, lang) {
        Some(q) => q,
        None => {
            proof {
                let nested: Seq<Seq<Symbol>> = Seq::empty();
                assert(nested.flatten_alt() =~= Seq::<Symbol>::empty());
                assert(symbols@.skip(start.len() as int) =~= parts.flatten_alt() + nested.flatten_alt());
                assert(extraction_step(*catalog, path@, source@, lang, ranges@, depth as int, snap.nodes@, hits_all, parts, Seq::empty(), nested, symbols@.skip(start.len() as int)));
            assert(nested_extractions(*catalog, path@, source@, injection_targets_at(*catalog, source@, lang, ranges@, depth as int, snap.nodes@, Seq::empty()), depth as int, nested));
            assert(extraction_of(*catalog, path@, source@, lang, ranges@, depth as int, symbols@.skip(start.len() as int)));
            }
            return Ok(());
        },
    };
    let hits = query_matches(&iq.query, &tree);
    let targets = injection_targets(&snap, source, custom, iq, ranges, hits.as_slice());
    let nt = targets.len();
    let ghost own = parts.flatten_alt();
    let ghost mut nested: Seq<Seq<Symbol>> = Seq::empty();
    for k in 0..nt
        invariant
            nt == targets@.len(),
            depth < MAX_INJECTION_DEPTH,
            start == old(symbols)@,
            custom@ == catalog.custom_view(),
            forall|j: int| 0 <= j < targets@.len() ==> lang_in(custom@.len(), (#[trigger] targets@[j]).0),
            symbols@.len() >= start.len(),
            forall|i: int| 0 <= i < start.len() ==> #[trigger] symbols@[i] == start[i],
            forall|i: int| start.len() <= i < symbols@.len() ==> sound_symbol(#[trigger] symbols@[i], path@),
            nested.len() == k,
            symbols@ == start + own + nested.flatten_alt(),
            forall|j: int|
                0 <= j < k ==> extraction_of(
                    *catalog,
                    path@,
                    source@,
                    targets@[j].0,
                    seq![targets@[j].1],
                    depth + 1,
                    #[trigger] nested[j],
                ),
    {
        let (l, r) = targets[k];
        assert(lang_in(custom@.len(), targets@[k as int].0));
        let rs = [r];
        let ghost before = symbols@;
        let res = extract_recursive(path, source, l, &rs, depth + 1, symbols, catalog);
        assert forall|i: int| 0 <= i < start.len() implies #[trigger] symbols@[i] == start[i] by {
            assert(symbols@[i] == before[i]);
        }
        assert forall|i: int| start.len() <= i < symbols@.len() implies sound_symbol(#[trigger] symbols@[i], path@) by {
            if i < before.len() {
                assert(symbols@[i] == before[i]);
            }
        }
        match res {
            Ok(()) => {
                proof {
                    let added = symbols@.skip(before.len() as int);
                    assert(rs@ =~= seq![targets@[k as int].1]);
                    assert(symbols@ =~= before + added);
                    let old_nested = nested;
                    nested = nested.push(added);
                    lemma_flatten_push(old_nested, added);
                    assert(symbols@ =~= start + own + nested.flatten_alt());
                    assert forall|j: int| 0 <= j < k + 1 implies extraction_of(
                        *catalog,
                        path@,
                        source@,
                        targets@[j].0,
                        seq![targets@[j].1],
                        depth + 1,
                        #[trigger] nested[j],
                    ) by {
                        if j < k {
                            assert(nested[j] == old_nested[j]);
                        }
                    }
                }
            },
            Err(e) => {
                return Err(e);
            },
        }
    }
    proof {
        assert(symbols@.skip(start.len() as int) =~= parts.flatten_alt() + nested.flatten_alt());
        assert(extraction_step(*catalog, path@, source@, lang, ranges@, depth as int, snap.nodes@, hits_all, parts, hits@, nested, symbols@.skip(start.len() as int)));
        assert(injection_targets_at(*catalog, source@, lang, ranges@, depth as int, snap.nodes@, hits@) == targets@);
            assert(nested_extractions(*catalog, path@, source@, injection_targets_at(*catalog, source@, lang, ranges@, depth as int, snap.nodes@, hits@), depth as int, nested));
            assert(extraction_of(*catalog, path@, source@, lang, ranges@, depth as int, symbols@.skip(start.len() as int)));
    }
    Ok(())
}

/// `b` is `a` with its kind reclassified by name and language.
pub open spec fn reclassified(a: Symbol, b: Symbol) -> bool {
    &&& b.kind == semantic_kind(a.lang, a.kind, a.name@)
    &&& b.name == a.name
    &&& b.lang == a.lang
    &&& b.file == a.file
    &&& b.line == a.line
    &&& b.end_line == a.end_line
    &&& b.col == a.col
    &&& b.signature == a.signature
    &&& b.visibility == a.visibility
}

/// `r` is what extraction makes of the raw symbols `raw`: the first symbol
/// at each position, ordered by position, each reclassified.
pub open spec fn finished_from(raw: Seq<Symbol>, r: Seq<Symbol>) -> bool {
    exists|d: Seq<Symbol>|
        is_dedup_of(raw, d) && d.len() == r.len() && forall|i: int| 0 <= i < r.len() ==> reclassified(#[trigger] d[i], r[i])
}

/// Keeps the first symbol at each position, orders them by position and
/// reclassifies each by name and language.
pub fn finish_symbols(raw: Vec<Symbol>) -> (r: Vec<Symbol>)
    ensures
        finished_from(raw@, r@),
{
    let mut v = dedup_by_position(raw);
    let ghost d = v@;
    let n = v.len();
    for i in 0..n
        invariant
            n == d.len(),
            v@.len() == n,
            is_dedup_of(raw@, d),
            forall|k: int| 0 <= k < i ==> reclassified(#[trigger] d[k], v@[k]),
            forall|k: int| i <= k < n ==> #[trigger] v@[k] == d[k],
    {
        let mut x = blank_symbol();
        v.set_and_swap(i, &mut x);
        reclassify_semantic_kind(&mut x);
        v.set_and_swap(i, &mut x);
        assert(reclassified(d[i as int], v@[i as int]));
    }
    proof {
        assert(is_dedup_of(raw@, d) && d.len() == v@.len() && forall|i: int| 0 <= i < v@.len() ==> reclassified(#[trigger] d[i], v@[i]));
    }
    v
}

/// `syms` is what extracting `source` as `lang` gives for the file at
/// `path`: the raw symbols of the extraction (see `extraction_of`), each
/// sound, finished by dedup and reclassification.
pub open spec fn extracted(
    catalog: Catalog,
    path: Seq<char>,
    source: Seq<u8>,
    lang: Language,
    syms: Seq<Symbol>,
) -> bool {
    exists|raw: Seq<Symbol>|
        #[trigger] finished_from(raw, syms) && extraction_of(catalog, path, source, lang, Seq::empty(), 0, raw)
            && forall|i: int| 0 <= i < raw.len() ==> sound_symbol(#[trigger] raw[i], path)
}

/// Parses a file and extracts its symbols, descending into injected
/// regions: one symbol per position, ordered by position, with its
/// semantic kind.
pub fn extract_symbols(path: &str, source: &[u8], lang: Language, catalog: &Catalog) -> (r: Result<Vec<Symbol>, ExtractError>)
    requires
        lang_in(catalog.custom_view().len(), lang),
    ensures
        r matches Ok(syms) ==> extracted(*catalog, path@, source@, lang, syms@),
{
    let mut symbols: Vec<Symbol> = Vec::new();
    let no_ranges: [TextRange; 0] = [];
    match extract_recursive(path, source, lang, &no_ranges, 0, &mut symbols, catalog) {
        Ok(()) => {},
        Err(e) => {
            return Err(e);
        },
    }
    let ghost raw = symbols@;
    proof {
        assert(no_ranges@ =~= Seq::<TextRange>::empty());
        assert(raw.skip(0) =~= raw);
    }
    let out = finish_symbols(symbols);
    assert(finished_from(raw, out@));
    assert(forall|i: int| 0 <= i < raw.len() ==> sound_symbol(#[trigger] raw[i], path@));
    assert(extracted(*catalog, path@, source@, lang, out@));
    Ok(out)
}

} // verus!
