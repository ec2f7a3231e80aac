use vstd::prelude::*;
use vstd::string::StringExecFns;
use vstd::utf8::{decode_utf8, valid_utf8};

verus! {

// ----------------------------------------------------------------------
// Character classes that std defines by Unicode tables
// ----------------------------------------------------------------------

/// Whether `c` has the Unicode `Uppercase` property.
pub uninterp spec fn is_upper(c: char) -> bool;

/// Whether `c` has the Unicode `White_Space` property.
pub uninterp spec fn is_space(c: char) -> bool;

/// Whether `c` is uppercase: among ASCII characters exactly `A` to `Z`,
/// beyond ASCII as the Unicode table says.
pub open spec fn uppercase(c: char) -> bool {
    if (c as u32) < 0x80 {
        'A' <= c && c <= 'Z'
    } else {
        is_upper(c)
    }
}

/// Whether `c` is white space: among ASCII characters exactly the space and
/// `\t` to `\r`, beyond ASCII as the Unicode table says.
pub open spec fn whitespace(c: char) -> bool {
    if (c as u32) < 0x80 {
        c == ' ' || ('\t' <= c && c <= '\r')
    } else {
        is_space(c)
    }
}

/// Wraps `char::is_uppercase`, which reports the Unicode `Uppercase`
/// property; the table itself is named, not restated. Among ASCII
/// characters exactly `A` to `Z` have it.
#[verifier::external_body]
pub fn char_is_uppercase(c: char) -> (r: bool)
    ensures
        r == is_upper(c),
        (c as u32) < 0x80 ==> (r <==> ('A' <= c && c <= 'Z')),
{
    c.is_uppercase()
}

/// Wraps `char::is_whitespace`, which reports the Unicode `White_Space`
/// property; the table itself is named, not restated. Among ASCII
/// characters exactly the space and `\t` to `\r` have it.
#[verifier::external_body]
pub fn char_is_whitespace(c: char) -> (r: bool)
    ensures
        r == is_space(c),
        (c as u32) < 0x80 ==> (r <==> (c == ' ' || ('\t' <= c && c <= '\r'))),
{
    c.is_whitespace()
}

// ----------------------------------------------------------------------
// Strings and character sequences
// ----------------------------------------------------------------------

/// Wraps `String::push`, which appends one character.
#[verifier::external_body]
pub fn push_char(s: &mut String, c: char)
    ensures
        final(s)@ == old(s)@.push(c),
{
    s.push(c);
}

/// What `String::from_utf8_lossy` makes of a byte sequence: invalid
/// sequences become U+FFFD.
pub uninterp spec fn lossy_utf8(bytes: Seq<u8>) -> Seq<char>;

/// Wraps `String::from_utf8_lossy`. Its documentation promises that valid
/// UTF-8 is decoded unchanged; the replacement of invalid sequences is only
/// named (`lossy_utf8`).
#[verifier::external_body]
pub fn utf8_lossy(bytes: &[u8]) -> (s: String)
    ensures
        s@ == lossy_utf8(bytes@),
        valid_utf8(bytes@) ==> s@ == decode_utf8(bytes@),
{
    String::from_utf8_lossy(bytes).into_owned()
}

/// Wraps `std::str::from_utf8`: the text of `bytes` when they are valid
/// UTF-8, else `None`.
#[verifier::external_body]
pub fn utf8_str(bytes: &[u8]) -> (r: Option<&str>)
    ensures
        r is Some <==> valid_utf8(bytes@),
        r matches Some(s) ==> s@ == decode_utf8(bytes@),
{
    std::str::from_utf8(bytes).ok()
}

/// The characters of `s`, in order.
pub fn chars_of(s: &str) -> (v: Vec<char>)
    ensures
        v@ == s@,
{
    let mut v: Vec<char> = Vec::new();
    for c in it: s.chars()
        invariant
            v@ == it.seq().take(it.index() as int),
    {
        v.push(c);
    }
    v
}

/// A `String` holding exactly the characters `cs`.
pub fn string_from_chars(cs: &[char]) -> (s: String)
    ensures
        s@ == cs@,
{
    let mut s = String::new();
    let n = cs.len();
    for i in 0..n
        invariant
            n == cs@.len(),
            s@ == cs@.take(i as int),
    {
        push_char(&mut s, cs[i]);
        assert(cs@.take(i + 1) == cs@.take(i as int).push(cs@[i as int]));
    }
    assert(cs@.take(n as int) == cs@);
    s
}

/// A `String` holding the characters of `s`.
pub fn string_from(s: &str) -> (r: String)
    ensures
        r@ == s@,
{
    let mut r = String::new();
    r.append(s);
    r
}

/// Character-wise equality of two strings.
pub fn str_eq(a: &str, b: &str) -> (r: bool)
    ensures
        r == (a@ == b@),
{
    let va = chars_of(a);
    let vb = chars_of(b);
    chars_eq(va.as_slice(), vb.as_slice())
}

/// Equality of two character sequences.
pub fn chars_eq(a: &[char], b: &[char]) -> (r: bool)
    ensures
        r == (a@ == b@),
{
    if a.len() != b.len() {
        return false;
    }
    let n = a.len();
    for i in 0..n
        invariant
            n == a@.len(),
            n == b@.len(),
            forall|k: int| 0 <= k < i ==> a@[k] == b@[k],
    {
        if a[i] != b[i] {
            return false;
        }
    }
    assert(a@ =~= b@);
    true
}

/// `p` is a prefix of `s`.
pub open spec fn has_prefix(s: Seq<char>, p: Seq<char>) -> bool {
    p.len() <= s.len() && s.take(p.len() as int) == p
}

/// `s` contains `p` as a contiguous part.
pub open spec fn has_infix(s: Seq<char>, p: Seq<char>) -> bool {
    exists|i: int| 0 <= i && i + p.len() <= s.len() && #[trigger] s.subrange(i, i + p.len()) == p
}

/// Whether `p` is a prefix of `s`.
pub fn starts_with(s: &[char], p: &str) -> (r: bool)
    ensures
        r == has_prefix(s@, p@),
{
    let pv = chars_of(p);
    if pv.len() > s.len() {
        return false;
    }
    let n = pv.len();
    for i in 0..n
        invariant
            n == pv@.len(),
            pv@ == p@,
            n <= s@.len(),
            forall|k: int| 0 <= k < i ==> s@[k] == pv@[k],
    {
        if s[i] != pv[i] {
            assert(s@.take(n as int)[i as int] == s@[i as int]);
            assert(s@.take(n as int)[i as int] != pv@[i as int]);
            return false;
        }
    }
    assert(s@.take(n as int) =~= pv@);
    true
}

/// Whether `p` occurs in `s`.
pub fn contains_chars(s: &[char], p: &[char]) -> (r: bool)
    ensures
        r == has_infix(s@, p@),
{
    if p.len() == 0 {
        assert(s@.subrange(0, 0 + p@.len() as int) =~= p@);
        return true;
    }
    if p.len() > s.len() {
        return false;
    }
    let slen = s.len();
    let last = slen - p.len();
    let mut i: usize = 0;
    while i <= last
        invariant
            last + p@.len() == s@.len(),
            slen == s@.len(),
            p@.len() > 0,
            forall|j: int| 0 <= j < i ==> #[trigger] s@.subrange(j, j + p@.len()) != p@,
        decreases last + 1 - i,
    {
        let mut ok = true;
        let mut k: usize = 0;
        while k < p.len()
            invariant
                i <= last,
                slen == s@.len(),
                last + p@.len() == s@.len(),
                p@.len() > 0,
                k <= p@.len(),
                ok ==> forall|t: int| 0 <= t < k ==> s@[i + t] == p@[t],
                !ok ==> s@.subrange(i as int, i + p@.len()) != p@,
            decreases p@.len() - k,
        {
            assert(i + k < s@.len());
            if s[i + k] != p[k] {
                assert(s@.subrange(i as int, i + p@.len())[k as int] != p@[k as int]);
                ok = false;
            }
            k = k + 1;
        }
        if ok {
            assert(s@.subrange(i as int, i + p@.len()) =~= p@);
            return true;
        }
        assert(i < s@.len());
        i = i + 1;
    }
    false
}

// ----------------------------------------------------------------------
// UTF-8 widths
// ----------------------------------------------------------------------

/// Number of bytes that UTF-8 takes for `c`.
pub open spec fn char_width(c: char) -> nat {
    if (c as u32) < 0x80 {
        1
    } else if (c as u32) < 0x800 {
        2
    } else if (c as u32) < 0x10000 {
        3
    } else {
        4
    }
}

/// Number of bytes that UTF-8 takes for `s`.
pub open spec fn utf8_len(s: Seq<char>) -> nat
    decreases s.len(),
{
    if s.len() == 0 {
        0
    } else {
        utf8_len(s.drop_last()) + char_width(s.last())
    }
}

pub fn char_utf8_width(c: char) -> (w: usize)
    ensures
        w == char_width(c),
{
    let u = c as u32;
    if u < 0x80 {
        1
    } else if u < 0x800 {
        2
    } else if u < 0x10000 {
        3
    } else {
        4
    }
}

// ----------------------------------------------------------------------
// Decimal numbers
// ----------------------------------------------------------------------

pub open spec fn digit_char(d: nat) -> char
    recommends
        d < 10,
{
    (d + 48) as char
}

/// The decimal notation of `n`, without leading zeros.
pub open spec fn decimal(n: nat) -> Seq<char>
    decreases n,
{
    if n < 10 {
        seq![digit_char(n)]
    } else {
        decimal(n / 10).push(digit_char(n % 10))
    }
}

/// Appends the decimal notation of `n` to `out`.
pub fn push_decimal(out: &mut String, n: usize)
    ensures
        final(out)@ == old(out)@ + decimal(n as nat),
    decreases n,
{
    if n >= 10 {
        push_decimal(out, n / 10);
    }
    let d: u8 = (n % 10) as u8;
    let c = (d + 48) as char;
    assert(c == digit_char((n % 10) as nat));
    push_char(out, c);
    proof {
        if n < 10 {
            assert(decimal(n as nat) == seq![digit_char(n as nat)]);
        }
    }
    assert(final(out)@ =~= old(out)@ + decimal(n as nat));
}

} // verus!

verus! {

// ----------------------------------------------------------------------
// Trimming and splitting by character classes
// ----------------------------------------------------------------------

/// The character classes that the symbol extraction trims or splits by.
#[derive(Debug, Clone, Copy, PartialEq, Eq, Structural)]
pub enum CharClass {
    /// Unicode white space.
    Space,
    /// Anything but Unicode white space.
    NonSpace,
    /// `(` or `)`.
    Paren,
    /// Anything but `.`.
    NonDot,
    /// `*`.
    Star,
}

pub open spec fn in_class(cls: CharClass, c: char) -> bool {
    match cls {
        CharClass::Space => whitespace(c),
        CharClass::NonSpace => !whitespace(c),
        CharClass::Paren => c == '(' || c == ')',
        CharClass::NonDot => c != '.',
        CharClass::Star => c == '*',
    }
}

pub fn char_in_class(c: char, cls: CharClass) -> (r: bool)
    ensures
        r == in_class(cls, c),
{
    match cls {
        CharClass::Space => char_is_whitespace(c),
        CharClass::NonSpace => !char_is_whitespace(c),
        CharClass::Paren => c == '(' || c == ')',
        CharClass::NonDot => c != '.',
        CharClass::Star => c == '*',
    }
}

/// Number of leading characters of `s` in `cls`.
pub open spec fn lead_len(s: Seq<char>, cls: CharClass) -> nat
    decreases s.len(),
{
    if s.len() > 0 && in_class(cls, s[0]) {
        1 + lead_len(s.drop_first(), cls)
    } else {
        0
    }
}

/// Number of trailing characters of `s` in `cls`.
pub open spec fn trail_len(s: Seq<char>, cls: CharClass) -> nat
    decreases s.len(),
{
    if s.len() > 0 && in_class(cls, s.last()) {
        1 + trail_len(s.drop_last(), cls)
    } else {
        0
    }
}

/// `s` without its leading characters in `cls`.
pub open spec fn trim_start(s: Seq<char>, cls: CharClass) -> Seq<char> {
    s.subrange(lead_len(s, cls) as int, s.len() as int)
}

/// `s` without its trailing characters in `cls`.
pub open spec fn trim_end(s: Seq<char>, cls: CharClass) -> Seq<char> {
    s.subrange(0, s.len() - trail_len(s, cls))
}

/// `s` without its leading and trailing characters in `cls`
/// (what `str::trim_matches` gives).
pub open spec fn trim_both(s: Seq<char>, cls: CharClass) -> Seq<char> {
    trim_end(trim_start(s, cls), cls)
}

/// The longest suffix of `s` whose characters are all in `cls`.
pub open spec fn trailing(s: Seq<char>, cls: CharClass) -> Seq<char> {
    s.subrange(s.len() - trail_len(s, cls), s.len() as int)
}

pub proof fn lemma_lead_len_bound(s: Seq<char>, cls: CharClass)
    ensures
        lead_len(s, cls) <= s.len(),
    decreases s.len(),
{
    if s.len() > 0 && in_class(cls, s[0]) {
        lemma_lead_len_bound(s.drop_first(), cls);
    }
}

pub proof fn lemma_trail_len_bound(s: Seq<char>, cls: CharClass)
    ensures
        trail_len(s, cls) <= s.len(),
    decreases s.len(),
{
    if s.len() > 0 && in_class(cls, s.last()) {
        lemma_trail_len_bound(s.drop_last(), cls);
    }
}

proof fn lemma_lead_len_is(s: Seq<char>, cls: CharClass, i: int)
    requires
        0 <= i <= s.len(),
        forall|k: int| 0 <= k < i ==> in_class(cls, #[trigger] s[k]),
        i < s.len() ==> !in_class(cls, s[i]),
    ensures
        lead_len(s, cls) == i,
    decreases i,
{
    if i > 0 {
        assert(in_class(cls, s[0]));
        let t = s.drop_first();
        assert forall|k: int| 0 <= k < i - 1 implies in_class(cls, #[trigger] t[k]) by {
            assert(t[k] == s[k + 1]);
        }
        if i - 1 < t.len() {
            assert(t[i - 1] == s[i]);
        }
        lemma_lead_len_is(t, cls, i - 1);
    }
}

proof fn lemma_trail_len_is(s: Seq<char>, cls: CharClass, i: int)
    requires
        0 <= i <= s.len(),
        forall|k: int| s.len() - i <= k < s.len() ==> in_class(cls, #[trigger] s[k]),
        i < s.len() ==> !in_class(cls, s[s.len() - 1 - i]),
    ensures
        trail_len(s, cls) == i,
    decreases i,
{
    if i > 0 {
        assert(in_class(cls, s[s.len() - 1]));
        let t = s.drop_last();
        assert forall|k: int| t.len() - (i - 1) <= k < t.len() implies in_class(
            cls,
            #[trigger] t[k],
        ) by {
            assert(t[k] == s[k]);
        }
        if i - 1 < t.len() {
            assert(t[t.len() - 1 - (i - 1)] == s[s.len() - 1 - i]);
        }
        lemma_trail_len_is(t, cls, i - 1);
    }
}

pub fn lead_count(s: &[char], cls: CharClass) -> (n: usize)
    ensures
        n == lead_len(s@, cls),
{
    let len = s.len();
    let mut i: usize = 0;
    while i < len && char_in_class(s[i], cls)
        invariant
            len == s@.len(),
            i <= len,
            forall|k: int| 0 <= k < i ==> in_class(cls, #[trigger] s@[k]),
        decreases len - i,
    {
        i = i + 1;
    }
    proof {
        lemma_lead_len_is(s@, cls, i as int);
    }
    i
}

pub fn trail_count(s: &[char], cls: CharClass) -> (n: usize)
    ensures
        n == trail_len(s@, cls),
{
    let len = s.len();
    let mut i: usize = 0;
    while i < len && char_in_class(s[len - 1 - i], cls)
        invariant
            len == s@.len(),
            i <= len,
            forall|k: int| len - i <= k < len ==> in_class(cls, #[trigger] s@[k]),
        decreases len - i,
    {
        i = i + 1;
    }
    proof {
        lemma_trail_len_is(s@, cls, i as int);
    }
    i
}

/// A copy of `s[a..b]`.
pub fn sub_chars(s: &[char], a: usize, b: usize) -> (r: Vec<char>)
    requires
        a <= b <= s@.len(),
    ensures
        r@ == s@.subrange(a as int, b as int),
{
    let mut r: Vec<char> = Vec::new();
    let mut i = a;
    while i < b
        invariant
            a <= i <= b,
            b <= s@.len(),
            r@ == s@.subrange(a as int, i as int),
        decreases b - i,
    {
        r.push(s[i]);
        assert(s@.subrange(a as int, i + 1) == s@.subrange(a as int, i as int).push(s@[i as int]));
        i = i + 1;
    }
    r
}

/// `s` without its leading characters in `cls`.
pub fn strip_start(s: &[char], cls: CharClass) -> (r: Vec<char>)
    ensures
        r@ == trim_start(s@, cls),
{
    let n = lead_count(s, cls);
    proof {
        lemma_lead_len_bound(s@, cls);
    }
    sub_chars(s, n, s.len())
}

/// `s` without its leading and trailing characters in `cls`.
pub fn strip_both(s: &[char], cls: CharClass) -> (r: Vec<char>)
    ensures
        r@ == trim_both(s@, cls),
{
    let t = strip_start(s, cls);
    let n = trail_count(t.as_slice(), cls);
    proof {
        lemma_trail_len_bound(t@, cls);
    }
    sub_chars(t.as_slice(), 0, t.len() - n)
}

/// The longest suffix of `s` whose characters are all in `cls`.
pub fn trailing_run(s: &[char], cls: CharClass) -> (r: Vec<char>)
    ensures
        r@ == trailing(s@, cls),
{
    let n = trail_count(s, cls);
    proof {
        lemma_trail_len_bound(s@, cls);
    }
    sub_chars(s, s.len() - n, s.len())
}

} // verus!
