use vstd::prelude::*;
use vstd::string::StringExecFns;

use crate::custom::CustomLang;
use crate::language::{language_color_code, language_short_name, Language};
use crate::symbol::{kind_color_code, kind_short_name, Symbol, SymbolKind, Visibility};
use crate::text::{chars_of, decimal, push_char, push_decimal};

verus! {

/// `s` padded with spaces on the right to `width` characters.
pub open spec fn pad_right(s: Seq<char>, width: nat) -> Seq<char> {
    if s.len() < width {
        s + Seq::new((width - s.len()) as nat, |i: int| ' ')
    } else {
        s
    }
}

/// The visibility tag of the plain listing.
pub open spec fn vis_tag(v: Option<Visibility>) -> Seq<char> {
    match v {
        Some(Visibility::Public) => "[pub] "@,
        Some(Visibility::Private) => "[prv] "@,
        None => Seq::empty(),
    }
}

/// The visibility tag of the colored listing.
pub open spec fn vis_tag_colored(v: Option<Visibility>) -> Seq<char> {
    match v {
        Some(Visibility::Public) => "\x1b[32m[pub]\x1b[0m "@,
        Some(Visibility::Private) => "\x1b[90m[prv]\x1b[0m "@,
        None => Seq::empty(),
    }
}

/// `file:line:end_line:col`.
pub open spec fn location(sym: Symbol) -> Seq<char> {
    sym.file@ + ":"@ + decimal(sym.line as nat) + ":"@ + decimal(sym.end_line as nat) + ":"@
        + decimal(sym.col as nat)
}

/// The first field of a plain listing line.
pub open spec fn plain_head(sym: Symbol, custom: Seq<CustomLang>) -> Seq<char> {
    pad_right(language_short_name(custom, sym.lang), 4) + " "@ + pad_right(kind_short_name(sym.kind), 10)
        + " "@ + vis_tag(sym.visibility) + sym.name@
}

/// The first field of a colored listing line.
pub open spec fn colored_head(sym: Symbol, custom: Seq<CustomLang>) -> Seq<char> {
    "\x1b["@ + language_color_code(sym.lang) + "m"@ + pad_right(language_short_name(custom, sym.lang), 4)
        + "\x1b[0m \x1b["@ + kind_color_code(sym.kind) + "m"@ + pad_right(kind_short_name(sym.kind), 10)
        + "\x1b[0m "@ + vis_tag_colored(sym.visibility) + "\x1b[1m"@ + sym.name@ + "\x1b[0m"@
}

/// The second and third fields, each after a tab.
pub open spec fn line_tail(sym: Symbol) -> Seq<char> {
    "\t"@ + location(sym) + "\t"@ + sym.signature@
}

/// One line of the listing, without its line break: three tab-separated
/// fields, `lang kind [vis] name`, `file:line:end_line:col` and the
/// signature.
pub open spec fn symbol_line(sym: Symbol, color: bool, custom: Seq<CustomLang>) -> Seq<char> {
    (if color {
        colored_head(sym, custom)
    } else {
        plain_head(sym, custom)
    }) + line_tail(sym)
}

/// Appends `s`, padded with spaces to `width` characters.
fn push_padded(out: &mut String, s: &str, width: usize)
    ensures
        final(out)@ == old(out)@ + pad_right(s@, width as nat),
{
    out.append(s);
    let n = chars_of(s).len();
    let ghost base = old(out)@ + s@;
    if n < width {
        let mut k = n;
        while k < width
            invariant
                n <= k <= width,
                n == s@.len(),
                base == old(out)@ + s@,
                out@ == base + Seq::new((k - n) as nat, |i: int| ' '),
            decreases width - k,
        {
            push_char(out, ' ');
            assert(Seq::new((k + 1 - n) as nat, |i: int| ' ') =~= Seq::new((k - n) as nat, |i: int| ' ').push(' '));
            k = k + 1;
        }
        assert(out@ =~= old(out)@ + pad_right(s@, width as nat));
    } else {
        assert(out@ =~= old(out)@ + pad_right(s@, width as nat));
    }
}

fn push_location(out: &mut String, sym: &Symbol)
    ensures
        final(out)@ == old(out)@ + location(*sym),
{
    out.append(sym.file.as_str());
    out.append(":");
    push_decimal(out, sym.line);
    out.append(":");
    push_decimal(out, sym.end_line);
    out.append(":");
    push_decimal(out, sym.col);
    assert(out@ =~= old(out)@ + location(*sym));
}

fn push_plain_head(w: &mut String, sym: &Symbol, custom: &[CustomLang])
    ensures
        final(w)@ == old(w)@ + plain_head(*sym, custom@),
{
    let vis = match sym.visibility {
        Some(Visibility::Public) => "[pub] ",
        Some(Visibility::Private) => "[prv] ",
        None => "",
    };
    proof {
        if sym.visibility is None {
            reveal_strlit("");
        }
    }
    push_padded(w, sym.lang.short_name(custom), 4);
    w.append(" ");
    push_padded(w, sym.kind.short_name(), 10);
    w.append(" ");
    w.append(vis);
    w.append(sym.name.as_str());
    assert(w@ =~= old(w)@ + plain_head(*sym, custom@));
}

#[verifier::rlimit(40)]
fn push_colored_head(w: &mut String, sym: &Symbol, custom: &[CustomLang])
    ensures
        final(w)@ == old(w)@ + colored_head(*sym, custom@),
{
    let vis_colored = match sym.visibility {
        Some(Visibility::Public) => "\x1b[32m[pub]\x1b[0m ",
        Some(Visibility::Private) => "\x1b[90m[prv]\x1b[0m ",
        None => "",
    };
    proof {
        if sym.visibility is None {
            reveal_strlit("");
        }
    }
    let ghost w0 = w@;
    w.append("\x1b[");
    w.append(sym.lang.color_code());
    w.append("m");
    push_padded(w, sym.lang.short_name(custom), 4);
    let ghost w1 = w@;
    assert(w1 =~= w0 + ("\x1b["@ + language_color_code(sym.lang) + "m"@ + pad_right(
        language_short_name(custom@, sym.lang),
        4,
    )));
    w.append("\x1b[0m \x1b[");
    w.append(sym.kind.color_code());
    w.append("m");
    push_padded(w, sym.kind.short_name(), 10);
    let ghost w2 = w@;
    assert(w2 =~= w1 + ("\x1b[0m \x1b["@ + kind_color_code(sym.kind) + "m"@ + pad_right(
        kind_short_name(sym.kind),
        10,
    )));
    w.append("\x1b[0m ");
    w.append(vis_colored);
    w.append("\x1b[1m");
    w.append(sym.name.as_str());
    w.append("\x1b[0m");
    assert(w@ =~= w2 + ("\x1b[0m "@ + vis_tag_colored(sym.visibility) + "\x1b[1m"@ + sym.name@
        + "\x1b[0m"@));
    assert(w@ =~= old(w)@ + colored_head(*sym, custom@));
}

fn push_tail(w: &mut String, sym: &Symbol)
    ensures
        final(w)@ == old(w)@ + line_tail(*sym),
{
    w.append("\t");
    push_location(w, sym);
    w.append("\t");
    w.append(sym.signature.as_str());
    assert(w@ =~= old(w)@ + line_tail(*sym));
}

/// Writes one symbol as a line of the listing (fzf-friendly, tab-separated
/// fields `lang kind [vis] name`, `file:line:end_line:col`, signature),
/// with ANSI colors when `color` is set.
pub fn write_symbol(w: &mut String, sym: &Symbol, color: bool, custom: &[CustomLang])
    ensures
        final(w)@ == old(w)@ + symbol_line(*sym, color, custom@) + "\n"@,
{
    let ghost w0 = w@;
    if color {
        push_colored_head(w, sym, custom);
    } else {
        push_plain_head(w, sym, custom);
    }
    let ghost w1 = w@;
    push_tail(w, sym);
    let ghost w2 = w@;
    w.append("\n");
    assert(w@ =~= w0 + symbol_line(*sym, color, custom@) + "\n"@);
}


// ----------------------------------------------------------------------
// Colors taken out
// ----------------------------------------------------------------------

/// The text of `s` with its ANSI escape sequences (from `ESC` up to and
/// including the next `m`) taken out, scanning from inside an escape when
/// `esc` is set.
pub open spec fn strip_from(s: Seq<char>, esc: bool) -> Seq<char>
    decreases s.len(),
{
    if s.len() == 0 {
        Seq::empty()
    } else if esc {
        strip_from(s.drop_first(), s[0] != 'm')
    } else if s[0] == '\x1b' {
        strip_from(s.drop_first(), true)
    } else {
        seq![s[0]] + strip_from(s.drop_first(), false)
    }
}

/// Whether scanning `s` from state `esc` ends inside an escape sequence.
pub open spec fn esc_after(s: Seq<char>, esc: bool) -> bool
    decreases s.len(),
{
    if s.len() == 0 {
        esc
    } else if esc {
        esc_after(s.drop_first(), s[0] != 'm')
    } else {
        esc_after(s.drop_first(), s[0] == '\x1b')
    }
}

/// The text of `s` with its ANSI escape sequences taken out.
pub open spec fn strip_ansi(s: Seq<char>) -> Seq<char> {
    strip_from(s, false)
}

/// `s` holds no `ESC` character.
pub open spec fn no_escape(s: Seq<char>) -> bool {
    forall|i: int| 0 <= i < s.len() ==> s[i] != '\x1b'
}

pub proof fn lemma_strip_concat(a: Seq<char>, b: Seq<char>, e: bool)
    ensures
        strip_from(a + b, e) == strip_from(a, e) + strip_from(b, esc_after(a, e)),
        esc_after(a + b, e) == esc_after(b, esc_after(a, e)),
    decreases a.len(),
{
    if a.len() == 0 {
        assert(a + b =~= b);
        assert(strip_from(a, e) =~= Seq::<char>::empty());
    } else {
        let ab = a + b;
        assert(ab[0] == a[0]);
        assert(ab.drop_first() =~= a.drop_first() + b);
        let e2 = if e {
            a[0] != 'm'
        } else {
            a[0] == '\x1b'
        };
        lemma_strip_concat(a.drop_first(), b, e2);
        if !e && a[0] != '\x1b' {
            assert(strip_from(ab, e) =~= seq![a[0]] + strip_from(a.drop_first() + b, false));
            assert(strip_from(ab, e) =~= strip_from(a, e) + strip_from(b, esc_after(a, e)));
        }
    }
}

pub proof fn lemma_strip_plain(x: Seq<char>)
    requires
        no_escape(x),
    ensures
        strip_from(x, false) == x,
        !esc_after(x, false),
    decreases x.len(),
{
    if x.len() > 0 {
        lemma_strip_plain(x.drop_first());
        assert(strip_from(x, false) =~= seq![x[0]] + x.drop_first());
    }
}

pub proof fn lemma_strip_digits(x: Seq<char>)
    requires
        forall|i: int| 0 <= i < x.len() ==> '0' <= #[trigger] x[i] && x[i] <= '9',
    ensures
        strip_from(x, true) == Seq::<char>::empty(),
        esc_after(x, true),
    decreases x.len(),
{
    if x.len() > 0 {
        lemma_strip_digits(x.drop_first());
    }
}

pub proof fn lemma_decimal_digits(n: nat)
    ensures
        forall|i: int| 0 <= i < decimal(n).len() ==> '0' <= #[trigger] decimal(n)[i] && decimal(n)[i] <= '9',
    decreases n,
{
    if n >= 10 {
        lemma_decimal_digits(n / 10);
        let d = decimal(n);
        let pre = decimal(n / 10);
        assert forall|i: int| 0 <= i < d.len() implies '0' <= #[trigger] d[i] && d[i] <= '9' by {
            if i < pre.len() {
                assert(d[i] == pre[i]);
            }
        }
    }
}

pub proof fn lemma_pad_no_escape(s: Seq<char>, w: nat)
    requires
        no_escape(s),
    ensures
        no_escape(pad_right(s, w)),
{
    let p = pad_right(s, w);
    assert forall|i: int| 0 <= i < p.len() implies p[i] != '\x1b' by {
        if s.len() < w && i >= s.len() {
            assert(p[i] == ' ');
        }
    }
}

pub proof fn lemma_kind_name_no_escape(k: SymbolKind)
    ensures
        no_escape(kind_short_name(k)),
{
    reveal_strlit("fn");
    reveal_strlit("method");
    reveal_strlit("class");
    reveal_strlit("struct");
    reveal_strlit("enum");
    reveal_strlit("interface");
    reveal_strlit("type");
    reveal_strlit("const");
    reveal_strlit("mod");
    reveal_strlit("trait");
    reveal_strlit("component");
    reveal_strlit("hook");
    reveal_strlit("test");
}

pub proof fn lemma_color_codes(l: Language, k: SymbolKind)
    ensures
        forall|i: int|
            0 <= i < language_color_code(l).len() ==> '0' <= #[trigger] language_color_code(l)[i]
                && language_color_code(l)[i] <= '9',
        forall|i: int|
            0 <= i < kind_color_code(k).len() ==> '0' <= #[trigger] kind_color_code(k)[i]
                && kind_color_code(k)[i] <= '9',
{
    reveal_strlit("31");
    reveal_strlit("32");
    reveal_strlit("33");
    reveal_strlit("34");
    reveal_strlit("35");
    reveal_strlit("36");
}

/// Scanning each fixed piece of a colored line.
pub proof fn lemma_strip_pieces(v: Option<Visibility>)
    ensures
        strip_from("\x1b["@, false) == Seq::<char>::empty() && esc_after("\x1b["@, false),
        strip_from("m"@, true) == Seq::<char>::empty() && !esc_after("m"@, true),
        strip_from("\x1b[0m \x1b["@, false) == " "@ && esc_after("\x1b[0m \x1b["@, false),
        strip_from("\x1b[0m "@, false) == " "@ && !esc_after("\x1b[0m "@, false),
        strip_from("\x1b[1m"@, false) == Seq::<char>::empty() && !esc_after("\x1b[1m"@, false),
        strip_from("\x1b[0m"@, false) == Seq::<char>::empty() && !esc_after("\x1b[0m"@, false),
        strip_from(vis_tag_colored(v), false) == vis_tag(v) && !esc_after(vis_tag_colored(v), false),
        strip_from(" "@, false) == " "@ && !esc_after(" "@, false),
        strip_from("\t"@, false) == "\t"@ && !esc_after("\t"@, false),
        strip_from(":"@, false) == ":"@ && !esc_after(":"@, false),
{
    reveal_strlit("\x1b[");
    reveal_strlit("m");
    reveal_strlit("\x1b[0m \x1b[");
    reveal_strlit("\x1b[0m ");
    reveal_strlit("\x1b[1m");
    reveal_strlit("\x1b[0m");
    reveal_strlit("\x1b[32m[pub]\x1b[0m ");
    reveal_strlit("\x1b[90m[prv]\x1b[0m ");
    reveal_strlit("[pub] ");
    reveal_strlit("[prv] ");
    reveal_strlit(" ");
    reveal_strlit("\t");
    reveal_strlit(":");
    reveal_with_fuel(strip_from, 16);
    reveal_with_fuel(esc_after, 16);
    assert(strip_from("\x1b[0m \x1b["@, false) =~= " "@);
    assert(strip_from("\x1b[0m "@, false) =~= " "@);
    assert(strip_from(" "@, false) =~= " "@);
    assert(strip_from("\t"@, false) =~= "\t"@);
    assert(strip_from(":"@, false) =~= ":"@);
    assert(strip_from("\x1b["@, false) =~= Seq::<char>::empty());
    assert(strip_from("\x1b[1m"@, false) =~= Seq::<char>::empty());
    assert(strip_from("\x1b[0m"@, false) =~= Seq::<char>::empty());
    assert(strip_from("m"@, true) =~= Seq::<char>::empty());
    match v {
        Some(Visibility::Public) => {
            assert(strip_from("\x1b[32m[pub]\x1b[0m "@, false) =~= "[pub] "@);
        },
        Some(Visibility::Private) => {
            assert(strip_from("\x1b[90m[prv]\x1b[0m "@, false) =~= "[prv] "@);
        },
        None => {
            reveal_strlit("");
        },
    }
}

pub proof fn lemma_no_escape_concat(a: Seq<char>, b: Seq<char>)
    requires
        no_escape(a),
        no_escape(b),
    ensures
        no_escape(a + b),
{
    assert forall|i: int| 0 <= i < (a + b).len() implies (a + b)[i] != '\x1b' by {
        if i >= a.len() {
            assert((a + b)[i] == b[i - a.len()]);
        }
    }
}

pub proof fn lemma_tail_no_escape(sym: Symbol)
    requires
        no_escape(sym.file@),
        no_escape(sym.signature@),
    ensures
        no_escape(line_tail(sym)),
{
    reveal_strlit("\t");
    reveal_strlit(":");
    lemma_decimal_digits(sym.line as nat);
    lemma_decimal_digits(sym.end_line as nat);
    lemma_decimal_digits(sym.col as nat);
    let d1 = decimal(sym.line as nat);
    let d2 = decimal(sym.end_line as nat);
    let d3 = decimal(sym.col as nat);
    assert(no_escape(d1));
    assert(no_escape(d2));
    assert(no_escape(d3));
    let a1 = "\t"@ + sym.file@;
    lemma_no_escape_concat("\t"@, sym.file@);
    lemma_no_escape_concat(a1, ":"@);
    lemma_no_escape_concat(a1 + ":"@, d1);
    lemma_no_escape_concat(a1 + ":"@ + d1, ":"@);
    lemma_no_escape_concat(a1 + ":"@ + d1 + ":"@, d2);
    lemma_no_escape_concat(a1 + ":"@ + d1 + ":"@ + d2, ":"@);
    lemma_no_escape_concat(a1 + ":"@ + d1 + ":"@ + d2 + ":"@, d3);
    lemma_no_escape_concat(a1 + ":"@ + d1 + ":"@ + d2 + ":"@ + d3, "\t"@);
    lemma_no_escape_concat(a1 + ":"@ + d1 + ":"@ + d2 + ":"@ + d3 + "\t"@, sym.signature@);
    assert(line_tail(sym) =~= a1 + ":"@ + d1 + ":"@ + d2 + ":"@ + d3 + "\t"@ + sym.signature@);
}

} // verus!
