use vstd::prelude::*;
use vstd::string::StringExecFns;

use crate::custom::CustomLang;
use crate::language::language_short_name;
use crate::symbol::{kind_short_name, Symbol, Visibility};
use crate::syntax::first_from;
use crate::text::{str_eq, string_from};

verus! {

/// The kinds that `--kind` accepts.
pub open spec fn kind_names() -> Seq<Seq<char>> {
    seq![
        "fn"@,
        "method"@,
        "class"@,
        "struct"@,
        "enum"@,
        "type"@,
        "interface"@,
        "const"@,
        "mod"@,
        "trait"@,
        "component"@,
        "hook"@,
        "test"@,
    ]
}

/// The built-in languages that `--lang` accepts.
pub open spec fn builtin_lang_names() -> Seq<Seq<char>> {
    seq![
        "rs"@,
        "ts"@,
        "tsx"@,
        "js"@,
        "go"@,
        "py"@,
        "c"@,
        "cpp"@,
        "java"@,
        "rb"@,
        "php"@,
        "sh"@,
        "css"@,
        "lua"@,
    ]
}

/// The output formats that `-o` accepts.
pub open spec fn format_names() -> Seq<Seq<char>> {
    seq!["json"@, "jsonl"@]
}

pub fn valid_kinds() -> (r: Vec<&'static str>)
    ensures
        str_views(r@) == kind_names(),
{
    let r = vec![
        "fn",
        "method",
        "class",
        "struct",
        "enum",
        "type",
        "interface",
        "const",
        "mod",
        "trait",
        "component",
        "hook",
        "test",
    ];
    assert(str_views(r@) =~= kind_names());
    r
}

pub fn builtin_langs() -> (r: Vec<&'static str>)
    ensures
        str_views(r@) == builtin_lang_names(),
{
    let r = vec![
        "rs",
        "ts",
        "tsx",
        "js",
        "go",
        "py",
        "c",
        "cpp",
        "java",
        "rb",
        "php",
        "sh",
        "css",
        "lua",
    ];
    assert(str_views(r@) =~= builtin_lang_names());
    r
}

pub fn valid_formats() -> (r: Vec<&'static str>)
    ensures
        str_views(r@) == format_names(),
{
    let r = vec!["json", "jsonl"];
    assert(str_views(r@) =~= format_names());
    r
}

/// The short names of the custom languages, in order.
pub open spec fn custom_shorts(custom: Seq<CustomLang>) -> Seq<Seq<char>> {
    custom.map_values(|l: CustomLang| l.short@)
}

/// Every language that `--lang` accepts: the built-in ones, then the custom
/// ones.
pub open spec fn lang_names(custom: Seq<CustomLang>) -> Seq<Seq<char>> {
    builtin_lang_names() + custom_shorts(custom)
}

/// The views of a list of string slices.
pub open spec fn str_views(v: Seq<&str>) -> Seq<Seq<char>> {
    v.map_values(|x: &str| x@)
}

/// The views of a list of strings.
pub open spec fn views(v: Seq<String>) -> Seq<Seq<char>> {
    v.map_values(|s: String| s@)
}

/// Which filter an invalid value was given to.
#[derive(Debug, Clone, Copy, PartialEq, Eq, Structural)]
pub enum FilterField {
    Kind,
    Language,
    Format,
}

/// A filter value that is not accepted.
#[derive(Debug)]
pub enum FilterError {
    UnknownKind(String),
    UnknownLanguage(String),
    UnknownFormat(String),
}

impl FilterError {
    pub open spec fn field(&self) -> FilterField {
        match self {
            FilterError::UnknownKind(_) => FilterField::Kind,
            FilterError::UnknownLanguage(_) => FilterField::Language,
            FilterError::UnknownFormat(_) => FilterField::Format,
        }
    }

    pub open spec fn value(&self) -> Seq<char> {
        match self {
            FilterError::UnknownKind(s) => s@,
            FilterError::UnknownLanguage(s) => s@,
            FilterError::UnknownFormat(s) => s@,
        }
    }
}

/// The first value of `vals` that `names` does not hold.
pub open spec fn first_unknown(vals: Seq<Seq<char>>, names: Seq<Seq<char>>) -> Option<int> {
    first_from(vals.len() as int, |i: int| !names.contains(vals[i]), 0)
}

/// Which filter value is refused first (kinds, then languages, then the
/// format), or none.
pub open spec fn filter_verdict(
    kinds: Seq<Seq<char>>,
    langs: Seq<Seq<char>>,
    format: Option<Seq<char>>,
    custom: Seq<CustomLang>,
) -> Option<(FilterField, Seq<char>)> {
    match first_unknown(kinds, kind_names()) {
        Some(i) => Some((FilterField::Kind, kinds[i])),
        None => match first_unknown(langs, lang_names(custom)) {
            Some(i) => Some((FilterField::Language, langs[i])),
            None => match format {
                Some(f) => if format_names().contains(f) {
                    None
                } else {
                    Some((FilterField::Format, f))
                },
                None => None,
            },
        },
    }
}

/// Whether `names` holds `s`.
fn contains_name(names: &[&str], s: &str) -> (r: bool)
    ensures
        r == str_views(names@).contains(s@),
{
    let ghost nv = str_views(names@);
    let n = names.len();
    for i in 0..n
        invariant
            n == names@.len(),
            nv == str_views(names@),
            forall|k: int| 0 <= k < i ==> nv[k] != s@,
    {
        if str_eq(names[i], s) {
            assert(nv[i as int] == s@);
            return true;
        }
    }
    assert(!nv.contains(s@));
    false
}

/// Whether a custom language has the short name `s`.
fn custom_short_contains(custom: &[CustomLang], s: &str) -> (r: bool)
    ensures
        r == custom_shorts(custom@).contains(s@),
{
    let ghost cs = custom_shorts(custom@);
    let n = custom.len();
    for i in 0..n
        invariant
            n == custom@.len(),
            cs == custom_shorts(custom@),
            forall|k: int| 0 <= k < i ==> cs[k] != s@,
    {
        if str_eq(custom[i].short.as_str(), s) {
            assert(cs[i as int] == s@);
            return true;
        }
    }
    assert(!cs.contains(s@));
    false
}

proof fn lemma_contains_concat(a: Seq<Seq<char>>, b: Seq<Seq<char>>, x: Seq<char>)
    ensures
        (a + b).contains(x) == (a.contains(x) || b.contains(x)),
{
    if a.contains(x) {
        let i = choose|i: int| 0 <= i < a.len() && a[i] == x;
        assert((a + b)[i] == x);
    }
    if b.contains(x) {
        let i = choose|i: int| 0 <= i < b.len() && b[i] == x;
        assert((a + b)[a.len() + i] == x);
    }
    if (a + b).contains(x) {
        let i = choose|i: int| 0 <= i < (a + b).len() && (a + b)[i] == x;
        if i < a.len() {
            assert(a[i] == x);
        } else {
            assert(b[i - a.len()] == x);
        }
    }
}

/// The first value of `vals` that `names` does not hold.
fn first_unknown_in(vals: &[String], names: &[&str], custom: Option<&[CustomLang]>) -> (r: Option<usize>)
    ensures
        r matches Some(i) ==> i < vals@.len(),
        r matches Some(i) ==> first_unknown(
            views(vals@),
            match custom {
                Some(c) => str_views(names@) + custom_shorts(c@),
                None => str_views(names@),
            },
        ) == Some(i as int),
        r is None ==> first_unknown(
            views(vals@),
            match custom {
                Some(c) => str_views(names@) + custom_shorts(c@),
                None => str_views(names@),
            },
        ) is None,
{
    let ghost all = match custom {
        Some(c) => str_views(names@) + custom_shorts(c@),
        None => str_views(names@),
    };
    let ghost vv = views(vals@);
    let ghost pred = |i: int| !all.contains(vv[i]);
    let n = vals.len();
    for i in 0..n
        invariant
            n == vals@.len(),
            vv == views(vals@),
            pred == (|i: int| !all.contains(vv[i])),
            all == (match custom {
                Some(c) => str_views(names@) + custom_shorts(c@),
                None => str_views(names@),
            }),
            first_from(n as int, pred, 0) == first_from(n as int, pred, i as int),
    {
        let s = vals[i].as_str();
        let known = match custom {
            Some(c) => {
                proof {
                    lemma_contains_concat(str_views(names@), custom_shorts(c@), s@);
                }
                contains_name(names, s) || custom_short_contains(c, s)
            },
            None => contains_name(names, s),
        };
        assert(vv[i as int] == s@);
        if !known {
            assert(pred(i as int));
            return Some(i);
        }
        assert(!pred(i as int));
    }
    None
}

/// Checks the `--kind`, `--lang` and `-o` values: the first value that is
/// not accepted (kinds first, then languages, then the format) is the
/// error.
pub fn validate_filters(
    kinds: &[String],
    langs: &[String],
    format: Option<&str>,
    custom: &[CustomLang],
) -> (r: Result<(), FilterError>)
    ensures
        (match r {
            Ok(()) => None,
            Err(e) => Some((e.field(), e.value())),
        }) == filter_verdict(
            views(kinds@),
            views(langs@),
            match format {
                Some(f) => Some(f@),
                None => None,
            },
            custom@,
        ),
{
    let vk = valid_kinds();
    match first_unknown_in(kinds, vk.as_slice(), None) {
        Some(i) => {
            return Err(FilterError::UnknownKind(string_from(kinds[i].as_str())));
        },
        None => {},
    }
    let bl = builtin_langs();
    match first_unknown_in(langs, bl.as_slice(), Some(custom)) {
        Some(i) => {
            return Err(FilterError::UnknownLanguage(string_from(langs[i].as_str())));
        },
        None => {},
    }
    match format {
        Some(f) => {
            let vf = valid_formats();
            if contains_name(vf.as_slice(), f) {
                Ok(())
            } else {
                Err(FilterError::UnknownFormat(string_from(f)))
            }
        },
        None => Ok(()),
    }
}

/// Whether a symbol passes the filters: its kind among `kinds` and its
/// language among `langs` (an empty list lets everything through), and,
/// with `exported_only`, it is not known to be private.
pub open spec fn passes_filters(
    sym: Symbol,
    kinds: Seq<Seq<char>>,
    langs: Seq<Seq<char>>,
    exported_only: bool,
    custom: Seq<CustomLang>,
) -> bool {
    &&& (kinds.len() == 0 || kinds.contains(kind_short_name(sym.kind)))
    &&& (langs.len() == 0 || langs.contains(language_short_name(custom, sym.lang)))
    &&& (!exported_only || sym.visibility != Some(Visibility::Private))
}

fn any_equal(vals: &[String], s: &str) -> (r: bool)
    ensures
        r == views(vals@).contains(s@),
{
    let ghost vv = views(vals@);
    let n = vals.len();
    for i in 0..n
        invariant
            n == vals@.len(),
            vv == views(vals@),
            forall|k: int| 0 <= k < i ==> vv[k] != s@,
    {
        if str_eq(vals[i].as_str(), s) {
            assert(vv[i as int] == s@);
            return true;
        }
    }
    assert(!vv.contains(s@));
    false
}

pub fn matches_filters(
    sym: &Symbol,
    kind_filter: &[String],
    lang_filter: &[String],
    exported_only: bool,
    custom: &[CustomLang],
) -> (r: bool)
    ensures
        r == passes_filters(*sym, views(kind_filter@), views(lang_filter@), exported_only, custom@),
{
    if kind_filter.len() != 0 && !any_equal(kind_filter, sym.kind.short_name()) {
        return false;
    }
    if lang_filter.len() != 0 && !any_equal(lang_filter, sym.lang.short_name(custom)) {
        return false;
    }
    if exported_only {
        match sym.visibility {
            Some(Visibility::Public) | None => {},
            Some(Visibility::Private) => {
                return false;
            },
        }
    }
    true
}

/// The items of `list` separated by `sep`.
pub open spec fn joined(list: Seq<Seq<char>>, sep: Seq<char>) -> Seq<char>
    decreases list.len(),
{
    if list.len() == 0 {
        Seq::empty()
    } else if list.len() == 1 {
        list[0]
    } else {
        joined(list.drop_last(), sep) + sep + list.last()
    }
}

/// Appends the items of `list`, separated by `", "`.
fn push_joined(out: &mut String, list: &[&str])
    ensures
        final(out)@ == old(out)@ + joined(str_views(list@), ", "@),
{
    let ghost lv = str_views(list@);
    let ghost start = out@;
    let n = list.len();
    for i in 0..n
        invariant
            n == list@.len(),
            lv == str_views(list@),
            out@ == start + joined(lv.take(i as int), ", "@),
    {
        assert(lv.take(i + 1).drop_last() == lv.take(i as int));
        assert(lv.take(i + 1).last() == list@[i as int]@);
        if i > 0 {
            out.append(", ");
        } else {
            assert(lv.take(0) =~= Seq::<Seq<char>>::empty());
        }
        out.append(list[i]);
        proof {
            if i == 0 {
                assert(lv.take(1).len() == 1);
                assert(out@ =~= start + joined(lv.take(1), ", "@));
            } else {
                assert(out@ =~= start + joined(lv.take(i + 1), ", "@));
            }
        }
    }
    assert(lv.take(n as int) == lv);
}

impl FilterError {
    /// The message that reports the error, with the values accepted.
    pub fn message(&self, custom: &[CustomLang]) -> (r: String)
        ensures
            r@ == (match self {
                FilterError::UnknownKind(k) => "unknown kind '"@ + k@ + "'. Valid kinds: "@ + joined(kind_names(), ", "@),
                FilterError::UnknownLanguage(l) => "unknown language '"@ + l@ + "'. Valid languages: "@ + joined(lang_names(custom@), ", "@),
                FilterError::UnknownFormat(f) => "unknown format '"@ + f@ + "'. Valid formats: "@ + joined(format_names(), ", "@),
            }),
    {
        match self {
            FilterError::UnknownKind(k) => {
                let mut out = string_from("unknown kind '");
                out.append(k.as_str());
                out.append("'. Valid kinds: ");
                let vk = valid_kinds();
                push_joined(&mut out, vk.as_slice());
                out
            },
            FilterError::UnknownLanguage(l) => {
                let mut out = string_from("unknown language '");
                out.append(l.as_str());
                out.append("'. Valid languages: ");
                let mut all = builtin_langs();
                let ghost b = all@;
                assert(str_views(b).len() == 14);
                let n = custom.len();
                for i in 0..n
                    invariant
                        n == custom@.len(),
                        b.len() == 14,
                        custom_shorts(custom@).len() == n,
                        all@.len() == b.len() + i,
                        str_views(all@) == builtin_lang_names() + custom_shorts(custom@).take(i as int),
                {
                    let ghost prev = all@;
                    let sh = custom[i].short.as_str();
                    all.push(sh);
                    assert(custom_shorts(custom@)[i as int] == sh@);
                    assert(all@ == prev.push(sh));
                    assert forall|j: int| 0 <= j < prev.len() implies #[trigger] str_views(all@)[j] == str_views(prev)[j] by {
                        assert(all@[j] == prev[j]);
                    }
                    let ghost target = builtin_lang_names() + custom_shorts(custom@).take(i + 1);
                    let ghost before_t = builtin_lang_names() + custom_shorts(custom@).take(i as int);
                    assert(str_views(prev) == before_t);
                    assert(target.len() == str_views(all@).len());
                    assert forall|j: int| 0 <= j < target.len() implies #[trigger] str_views(all@)[j] == target[j] by {
                        if j < prev.len() {
                            assert(str_views(all@)[j] == str_views(prev)[j]);
                            assert(str_views(prev)[j] == before_t[j]);
                            if j >= 14 {
                                assert(before_t[j] == custom_shorts(custom@).take(i as int)[j - 14]);
                                assert(target[j] == custom_shorts(custom@).take(i + 1)[j - 14]);
                            }
                        } else {
                            assert(target[j] == custom_shorts(custom@).take(i + 1)[i as int]);
                        }
                    }
                    assert(str_views(all@) =~= target);
                }
                assert(custom_shorts(custom@).take(n as int) == custom_shorts(custom@));
                push_joined(&mut out, all.as_slice());
                out
            },
            FilterError::UnknownFormat(f) => {
                let mut out = string_from("unknown format '");
                out.append(f.as_str());
                out.append("'. Valid formats: ");
                let vf = valid_formats();
                push_joined(&mut out, vf.as_slice());
                out
            },
        }
    }
}

// ----------------------------------------------------------------------
// Project sentinels
// ----------------------------------------------------------------------

/// The files that mark a project's language, most specific first.
pub open spec fn sentinel_names() -> Seq<Seq<char>> {
    seq![
        "artisan"@,
        "composer.json"@,
        "Cargo.toml"@,
        "go.mod"@,
        "pyproject.toml"@,
        "requirements.txt"@,
        "package.json"@,
    ]
}

/// The languages that each sentinel selects.
pub open spec fn sentinel_langs_spec(i: int) -> Seq<Seq<char>> {
    if i == 0 || i == 1 {
        seq!["php"@]
    } else if i == 2 {
        seq!["rs"@]
    } else if i == 3 {
        seq!["go"@]
    } else if i == 4 || i == 5 {
        seq!["py"@]
    } else {
        seq!["ts"@, "tsx"@]
    }
}

pub fn sentinels() -> (r: Vec<&'static str>)
    ensures
        str_views(r@) == sentinel_names(),
{
    let r = vec![
        "artisan",
        "composer.json",
        "Cargo.toml",
        "go.mod",
        "pyproject.toml",
        "requirements.txt",
        "package.json",
    ];
    assert(str_views(r@) =~= sentinel_names());
    r
}

/// The languages that the first present sentinel selects, given, for each
/// sentinel in order, whether a directory holds it; `None` when it holds
/// none.
pub fn project_langs_for(present: &[bool]) -> (r: Option<Vec<String>>)
    ensures
        r matches Some(v) ==> exists|i: int|
            0 <= i < present@.len() && i < 7 && present@[i] && (forall|k: int| 0 <= k < i ==> !present@[k])
                && views(v@) == sentinel_langs_spec(i),
        r is None ==> forall|k: int| 0 <= k < present@.len() && k < 7 ==> !present@[k],
{
    let n = if present.len() < 7 {
        present.len()
    } else {
        7
    };
    for i in 0..n
        invariant
            n <= present@.len(),
            n <= 7,
            forall|k: int| 0 <= k < i ==> !present@[k],
    {
        if present[i] {
            let v = if i <= 1 {
                vec![string_from("php")]
            } else if i == 2 {
                vec![string_from("rs")]
            } else if i == 3 {
                vec![string_from("go")]
            } else if i <= 5 {
                vec![string_from("py")]
            } else {
                vec![string_from("ts"), string_from("tsx")]
            };
            assert(views(v@) =~= sentinel_langs_spec(i as int));
            return Some(v);
        }
    }
    None
}

} // verus!
