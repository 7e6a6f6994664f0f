//! Character and string utilities shared by the formatting and parsing code.

use vstd::prelude::*;
use vstd::string::*;

verus! {

/// Appends a character to a `String`.
///
/// Trusted: calls `String::push`, which std documents as appending the char
/// to the end of the string; the contract says exactly that of the views.
#[verifier::external_body]
pub(crate) fn push_char(s: &mut String, c: char)
    ensures
        final(s)@ == old(s)@.push(c),
{
    s.push(c);
}

/// The characters of a string, in order.
pub fn chars_of(s: &str) -> (v: Vec<char>)
    ensures
        v@ == s@,
{
    let n = s.unicode_len();
    let mut v: Vec<char> = Vec::new();
    let mut i: usize = 0;
    while i < n
        invariant
            n == s@.len(),
            i <= n,
            v@ == s@.subrange(0, i as int),
        decreases n - i,
    {
        v.push(s.get_char(i));
        i = i + 1;
        assert(v@ =~= s@.subrange(0, i as int));
    }
    assert(v@ =~= s@);
    v
}

/// A `String` holding the given characters.
pub fn string_from_chars(v: &[char]) -> (s: String)
    ensures
        s@ == v@,
{
    let mut s = String::new();
    let mut i: usize = 0;
    while i < v.len()
        invariant
            i <= v.len(),
            s@ == v@.subrange(0, i as int),
        decreases v.len() - i,
    {
        push_char(&mut s, v[i]);
        i = i + 1;
        assert(s@ =~= v@.subrange(0, i as int));
    }
    assert(v@ =~= v@.subrange(0, v@.len() as int));
    s
}

/// A `String` holding the characters of `v` from `from` up to `to`.
pub fn string_from_range(v: &[char], from: usize, to: usize) -> (s: String)
    requires
        from <= to <= v.len(),
    ensures
        s@ == v@.subrange(from as int, to as int),
{
    let mut s = String::new();
    let mut i: usize = from;
    while i < to
        invariant
            from <= i <= to <= v.len(),
            s@ == v@.subrange(from as int, i as int),
        decreases to - i,
    {
        push_char(&mut s, v[i]);
        i = i + 1;
        assert(s@ =~= v@.subrange(from as int, i as int));
    }
    s
}

/// Appends the characters of `t` to `s`.
pub fn push_str(s: &mut String, t: &str)
    ensures
        final(s)@ == old(s)@ + t@,
{
    s.append(t);
}

/// Two strings hold the same characters.
pub fn str_equals(a: &str, b: &str) -> (r: bool)
    ensures
        r == (a@ == b@),
{
    let av = chars_of(a);
    let bv = chars_of(b);
    seq_equals(&av, &bv)
}

/// Two character slices are equal.
pub fn seq_equals(a: &[char], b: &[char]) -> (r: bool)
    ensures
        r == (a@ == b@),
{
    if a.len() != b.len() {
        return false;
    }
    let mut i: usize = 0;
    while i < a.len()
        invariant
            a.len() == b.len(),
            i <= a.len(),
            forall|j: int| 0 <= j < i ==> a@[j] == b@[j],
        decreases a.len() - i,
    {
        if a[i] != b[i] {
            return false;
        }
        i = i + 1;
    }
    assert(a@ =~= b@);
    true
}

/// `p` is a prefix of `s`.
pub open spec fn is_prefix(p: Seq<char>, s: Seq<char>) -> bool {
    p.len() <= s.len() && s.subrange(0, p.len() as int) == p
}

/// Whether the characters of `a` starting at `at` spell out `p`.
pub fn matches_at(a: &[char], at: usize, p: &[char]) -> (r: bool)
    requires
        at <= a.len(),
    ensures
        r == is_prefix(p@, a@.subrange(at as int, a@.len() as int)),
{
    if p.len() > a.len() - at {
        return false;
    }
    let mut i: usize = 0;
    while i < p.len()
        invariant
            at + p.len() <= a.len(),
            i <= p.len(),
            forall|j: int| 0 <= j < i ==> a@[at + j] == p@[j],
        decreases p.len() - i,
    {
        if a[at + i] != p[i] {
            assert(a@.subrange(at as int, a@.len() as int).subrange(0, p@.len() as int)[i as int] != p@[i as int]);
            return false;
        }
        i = i + 1;
    }
    assert(a@.subrange(at as int, a@.len() as int).subrange(0, p@.len() as int) =~= p@);
    true
}

/// `p` is a prefix of `s` (both as strings).
pub fn str_starts_with(s: &str, p: &str) -> (r: bool)
    ensures
        r == is_prefix(p@, s@),
{
    let sv = chars_of(s);
    let pv = chars_of(p);
    let r = matches_at(&sv, 0, &pv);
    assert(sv@.subrange(0, sv@.len() as int) =~= sv@);
    r
}

/// `p` occurs somewhere in `s`.
pub open spec fn contains_seq(s: Seq<char>, p: Seq<char>) -> bool {
    exists|i: int| 0 <= i <= s.len() - p.len() && #[trigger] s.subrange(i, i + p.len()) == p
}

/// Whether `p` occurs in `s`.
pub fn seq_contains(s: &[char], p: &[char]) -> (r: bool)
    ensures
        r == contains_seq(s@, p@),
{
    if p.len() > s.len() {
        return false;
    }
    let last = s.len() - p.len();
    let mut i: usize = 0;
    loop
        invariant
            p.len() <= s.len(),
            last == s.len() - p.len(),
            i <= last,
            forall|k: int| 0 <= k < i ==> #[trigger] s@.subrange(k, k + p@.len()) != p@,
        ensures
            forall|k: int| 0 <= k <= last ==> #[trigger] s@.subrange(k, k + p@.len()) != p@,
        decreases last - i,
    {
        let m = matches_at(s, i, p);
        assert(s@.subrange(i as int, s@.len() as int).subrange(0, p@.len() as int) =~= s@.subrange(
            i as int,
            i + p@.len(),
        ));
        if m {
            return true;
        }
        if i == last {
            break;
        }
        i = i + 1;
    }
    false
}

// ---------------------------------------------------------------------------
// UTF-8 lengths

/// Number of bytes a character takes in UTF-8.
pub open spec fn utf8_char_len(c: char) -> nat {
    if (c as u32) < 0x80 {
        1
    } else if (c as u32) < 0x800 {
        2
    } else if (c as u32) < 0x10000 {
        3
    } else {
        4
    }
}

/// Number of bytes a string takes in UTF-8 (what `str::len` returns).
pub open spec fn utf8_len(s: Seq<char>) -> nat
    decreases s.len(),
{
    if s.len() == 0 {
        0
    } else {
        utf8_len(s.drop_last()) + utf8_char_len(s.last())
    }
}

pub proof fn lemma_utf8_len_ge_len(s: Seq<char>)
    ensures
        utf8_len(s) >= s.len(),
    decreases s.len(),
{
    if s.len() > 0 {
        lemma_utf8_len_ge_len(s.drop_last());
    }
}

/// The UTF-8 length of a character.
pub fn char_utf8_len(c: char) -> (n: usize)
    ensures
        n == utf8_char_len(c),
{
    let u = c as u32;
    if u < 0x80 {
        1
    } else if u < 0x800 {
        2
    } else if u < 0x10000 {
        3
    } else {
        4
    }
}

/// The UTF-8 length of a character sequence, capped at `cap`: returns
/// `min(utf8_len(v), cap)`.
pub fn utf8_len_capped(v: &[char], cap: usize) -> (n: usize)
    ensures
        n == if utf8_len(v@) < cap { utf8_len(v@) } else { cap as nat },
{
    let mut total: usize = 0;
    let mut i: usize = 0;
    while i < v.len()
        invariant
            i <= v.len(),
            total <= cap,
            total == if utf8_len(v@.subrange(0, i as int)) < cap {
                utf8_len(v@.subrange(0, i as int))
            } else {
                cap as nat
            },
        decreases v.len() - i,
    {
        assert(v@.subrange(0, i + 1).drop_last() =~= v@.subrange(0, i as int));
        let l = char_utf8_len(v[i]);
        if total < cap {
            if l >= cap - total {
                total = cap;
            } else {
                total = total + l;
            }
        }
        i = i + 1;
    }
    assert(v@.subrange(0, v@.len() as int) =~= v@);
    total
}

// ---------------------------------------------------------------------------
// Whitespace and trimming

/// The Unicode `White_Space` property, which `char::is_whitespace` tests.
pub open spec fn is_ws(c: char) -> bool {
    let u = c as u32;
    (0x09 <= u <= 0x0D) || u == 0x20 || u == 0x85 || u == 0xA0 || u == 0x1680 || (0x2000 <= u
        <= 0x200A) || u == 0x2028 || u == 0x2029 || u == 0x202F || u == 0x205F || u == 0x3000
}

/// Tests whether a character is whitespace (Unicode `White_Space`, as
/// `char::is_whitespace` does).
pub(crate) fn is_whitespace(c: char) -> (b: bool)
    ensures
        b == is_ws(c),
{
    let u = c as u32;
    (0x09 <= u && u <= 0x0D) || u == 0x20 || u == 0x85 || u == 0xA0 || u == 0x1680 || (0x2000 <= u
        && u <= 0x200A) || u == 0x2028 || u == 0x2029 || u == 0x202F || u == 0x205F || u == 0x3000
}

/// The string with leading whitespace removed.
pub open spec fn trim_start(s: Seq<char>) -> Seq<char>
    decreases s.len(),
{
    if s.len() > 0 && is_ws(s[0]) {
        trim_start(s.drop_first())
    } else {
        s
    }
}

/// The string with trailing whitespace removed.
pub open spec fn trim_end(s: Seq<char>) -> Seq<char>
    decreases s.len(),
{
    if s.len() > 0 && is_ws(s.last()) {
        trim_end(s.drop_last())
    } else {
        s
    }
}

/// What `str::trim` returns: both ends stripped of whitespace.
pub open spec fn trim(s: Seq<char>) -> Seq<char> {
    trim_end(trim_start(s))
}

proof fn lemma_trim_start_skip(s: Seq<char>, i: int)
    requires
        0 <= i <= s.len(),
        forall|k: int| 0 <= k < i ==> is_ws(#[trigger] s[k]),
    ensures
        trim_start(s) == trim_start(s.subrange(i, s.len() as int)),
    decreases i,
{
    if i > 0 {
        assert(s.drop_first() =~= s.subrange(1, s.len() as int));
        lemma_trim_start_skip(s.drop_first(), i - 1);
        assert(s.drop_first().subrange(i - 1, s.drop_first().len() as int) =~= s.subrange(
            i,
            s.len() as int,
        ));
    } else {
        assert(s.subrange(0, s.len() as int) =~= s);
    }
}

proof fn lemma_trim_end_skip(s: Seq<char>, j: int)
    requires
        0 <= j <= s.len(),
        forall|k: int| j <= k < s.len() ==> is_ws(#[trigger] s[k]),
    ensures
        trim_end(s) == trim_end(s.subrange(0, j)),
    decreases s.len() - j,
{
    if j < s.len() {
        assert(s.drop_last() =~= s.subrange(0, s.len() - 1));
        lemma_trim_end_skip(s.drop_last(), j);
        assert(s.drop_last().subrange(0, j) =~= s.subrange(0, j));
    } else {
        assert(s.subrange(0, j) =~= s);
    }
}

/// The bounds `[a, b)` of `trim(v)` inside `v`.
pub fn trim_bounds(v: &[char]) -> (r: (usize, usize))
    ensures
        r.0 <= r.1 <= v.len(),
        v@.subrange(r.0 as int, r.1 as int) == trim(v@),
{
    let mut a: usize = 0;
    while a < v.len() && is_whitespace(v[a])
        invariant
            a <= v.len(),
            forall|k: int| 0 <= k < a ==> is_ws(#[trigger] v@[k]),
        decreases v.len() - a,
    {
        a = a + 1;
    }
    proof {
        lemma_trim_start_skip(v@, a as int);
    }
    let ghost t = v@.subrange(a as int, v@.len() as int);
    assert(!(t.len() > 0 && is_ws(t[0])));
    assert(trim_start(v@) == t);
    let mut b: usize = v.len();
    while b > a && is_whitespace(v[b - 1])
        invariant
            a <= b <= v.len(),
            t == v@.subrange(a as int, v@.len() as int),
            forall|k: int| b <= k < v.len() ==> is_ws(#[trigger] v@[k]),
        decreases b - a,
    {
        b = b - 1;
    }
    proof {
        lemma_trim_end_skip(t, b - a);
        assert(t.subrange(0, b - a) =~= v@.subrange(a as int, b as int));
    }
    (a, b)
}

/// What `str::trim` returns.
pub fn trim_str(s: &str) -> (r: String)
    ensures
        r@ == trim(s@),
{
    let v = chars_of(s);
    let (a, b) = trim_bounds(&v);
    string_from_range(&v, a, b)
}

// ---------------------------------------------------------------------------
// Decimal numbers

/// The decimal digit character for `d` (0..=9).
pub open spec fn digit_char(d: nat) -> char {
    (48 + d) as char
}

/// The decimal representation of `n`, without leading zeros.
pub open spec fn decimal(n: nat) -> Seq<char>
    decreases n,
{
    if n < 10 {
        seq![digit_char(n)]
    } else {
        decimal(n / 10).push(digit_char(n % 10))
    }
}

fn digit(d: u64) -> (c: char)
    requires
        d < 10,
    ensures
        c == digit_char(d as nat),
{
    let v: u8 = 48 + d as u8;
    v as char
}

/// Appends the decimal representation of `n` to `s`.
pub fn push_decimal(s: &mut String, n: u64)
    ensures
        final(s)@ == old(s)@ + decimal(n as nat),
    decreases n,
{
    if n >= 10 {
        push_decimal(s, n / 10);
    }
    push_char(s, digit(n % 10));
    proof {
        if n >= 10 {
            assert(old(s)@ + decimal(n as nat) =~= old(s)@ + decimal((n / 10) as nat) + seq![
                digit_char((n % 10) as nat),
            ]);
        } else {
            assert(old(s)@ + decimal(n as nat) =~= old(s)@.push(digit_char((n % 10) as nat)));
        }
    }
}

/// `x` left-padded with `c` to at least `width` characters.
pub open spec fn pad_left(x: Seq<char>, width: nat, c: char) -> Seq<char> {
    if x.len() >= width {
        x
    } else {
        Seq::new((width - x.len()) as nat, |i: int| c) + x
    }
}

/// What `format!("{:04}", n)` gives for a `u16`.
pub fn zero_padded4(n: u16) -> (s: String)
    ensures
        s@ == pad_left(decimal(n as nat), 4, '0'),
{
    let mut digits = String::new();
    push_decimal(&mut digits, n as u64);
    let dv = chars_of(digits.as_str());
    let mut s = String::new();
    let mut k: usize = dv.len();
    while k < 4
        invariant
            dv.len() <= k <= 4 || (dv.len() > 4 && k == dv.len()),
            s@ == Seq::new((k - dv.len()) as nat, |i: int| '0'),
        decreases 4 - k,
    {
        push_char(&mut s, '0');
        k = k + 1;
        assert(s@ =~= Seq::new((k - dv.len()) as nat, |i: int| '0'));
    }
    let ghost pre = s@;
    s.append(digits.as_str());
    proof {
        if dv@.len() >= 4 {
            assert(pre =~= Seq::<char>::empty());
            assert(s@ =~= dv@);
        } else {
            assert(s@ =~= Seq::new((4 - dv@.len()) as nat, |i: int| '0') + dv@);
        }
    }
    s
}

} // verus!

verus! {

// ---------------------------------------------------------------------------
// Lower-casing

/// What `str::to_lowercase` yields for a text.
pub uninterp spec fn lowercase_text(s: Seq<char>) -> Seq<char>;

/// The ASCII lower-case form of a character: `A`-`Z` become `a`-`z`, every
/// other character stays.
pub open spec fn ascii_lower(c: char) -> char {
    if 'A' <= c && c <= 'Z' {
        ((c as u32) + 32) as char
    } else {
        c
    }
}

/// Every character of the text is ASCII.
pub open spec fn is_ascii_text(s: Seq<char>) -> bool {
    forall|i: int| 0 <= i < s.len() ==> (#[trigger] s[i] as u32) < 128
}

/// The lower-case form of a text.
///
/// Trusted: calls `str::to_lowercase` (Unicode lower-casing, which may change
/// the number of characters); its result is named `lowercase_text`. On ASCII
/// text, Unicode lower-casing maps `A`-`Z` to `a`-`z` and keeps every other
/// character, as std documents for the ASCII range (`to_ascii_lowercase`).
#[verifier::external_body]
pub(crate) fn to_lowercase(s: &str) -> (r: String)
    ensures
        r@ == lowercase_text(s@),
        is_ascii_text(s@) ==> r@ == s@.map_values(|c: char| ascii_lower(c)),
{
    s.to_lowercase()
}

// ---------------------------------------------------------------------------
// Splitting into words

/// What `str::split(char::is_whitespace)` yields.
pub open spec fn split_ws(s: Seq<char>) -> Seq<Seq<char>>
    decreases s.len(),
{
    if s.len() == 0 {
        seq![Seq::empty()]
    } else if is_ws(s.last()) {
        split_ws(s.drop_last()).push(Seq::empty())
    } else {
        let p = split_ws(s.drop_last());
        p.update(p.len() - 1, p.last().push(s.last()))
    }
}

/// What `str::split_whitespace` yields: the non-empty whitespace-separated words.
pub open spec fn words(s: Seq<char>) -> Seq<Seq<char>> {
    split_ws(s).filter(|w: Seq<char>| w.len() > 0)
}

proof fn lemma_split_ws_len(s: Seq<char>)
    ensures
        split_ws(s).len() >= 1,
    decreases s.len(),
{
    if s.len() > 0 {
        lemma_split_ws_len(s.drop_last());
    }
}

/// The whitespace-separated words of a text, as character vectors.
pub fn split_words(s: &str) -> (r: Vec<Vec<char>>)
    ensures
        r@.map_values(|w: Vec<char>| w@) == words(s@),
{
    let v = chars_of(s);
    let mut out: Vec<Vec<char>> = Vec::new();
    let mut cur: Vec<char> = Vec::new();
    let ghost nonempty = |w: Seq<char>| w.len() > 0;
    let mut i: usize = 0;
    assert(v@.subrange(0, 0) =~= Seq::<char>::empty());
    while i < v.len()
        invariant
            i <= v.len(),
            nonempty == (|w: Seq<char>| w.len() > 0),
            ({
                let p = split_ws(v@.subrange(0, i as int));
                &&& p.len() >= 1
                &&& cur@ == p.last()
                &&& out@.map_values(|w: Vec<char>| w@) == p.drop_last().filter(nonempty)
            }),
        decreases v.len() - i,
    {
        let ghost pre = v@.subrange(0, i as int);
        let ghost p = split_ws(pre);
        assert(v@.subrange(0, i + 1).drop_last() =~= pre);
        let c = v[i];
        if is_whitespace(c) {
            let ghost before = out@.map_values(|w: Vec<char>| w@);
            if cur.len() > 0 {
                out.push(cur);
                assert(out@.map_values(|w: Vec<char>| w@) =~= before.push(p.last()));
            } else {
                assert(out@.map_values(|w: Vec<char>| w@) =~= before);
            }
            cur = Vec::new();
            proof {
                reveal_with_fuel(Seq::<_>::filter, 1);
                let q = split_ws(v@.subrange(0, i + 1));
                assert(q == p.push(Seq::empty()));
                assert(q.drop_last() =~= p);
                assert(p =~= p.drop_last().push(p.last()));
            }
        } else {
            cur.push(c);
            proof {
                let q = split_ws(v@.subrange(0, i + 1));
                assert(q == p.update(p.len() - 1, p.last().push(c)));
                assert(q.drop_last() =~= p.drop_last());
                assert(cur@ =~= p.last().push(c));
            }
        }
        i = i + 1;
    }
    assert(v@.subrange(0, v@.len() as int) =~= v@);
    let ghost p = split_ws(v@);
    let ghost before = out@.map_values(|w: Vec<char>| w@);
    if cur.len() > 0 {
        out.push(cur);
        assert(out@.map_values(|w: Vec<char>| w@) =~= before.push(p.last()));
    } else {
        assert(out@.map_values(|w: Vec<char>| w@) =~= before);
    }
    proof {
        reveal_with_fuel(Seq::<_>::filter, 1);
        assert(p =~= p.drop_last().push(p.last()));
    }
    out
}

// ---------------------------------------------------------------------------
// Unsigned integers

/// `c` is an ASCII decimal digit.
pub open spec fn is_digit(c: char) -> bool {
    '0' <= c && c <= '9'
}

/// The value of a string of decimal digits (leading zeros allowed).
pub open spec fn digits_value(d: Seq<char>) -> nat
    decreases d.len(),
{
    if d.len() == 0 {
        0
    } else {
        digits_value(d.drop_last()) * 10 + ((d.last() as int) - 48) as nat
    }
}

/// The part of a number text after an optional leading `+`.
pub open spec fn unsigned_digits(s: Seq<char>) -> Seq<char> {
    if s.len() > 0 && s[0] == '+' {
        s.drop_first()
    } else {
        s
    }
}

/// Every character is an ASCII digit.
pub open spec fn all_digits(d: Seq<char>) -> bool {
    forall|k: int| 0 <= k < d.len() ==> is_digit(#[trigger] d[k])
}

/// What `str::parse::<u16>` accepts: an optional `+`, then one or more ASCII
/// digits whose value fits in a `u16`.
pub open spec fn spec_parse_u16(s: Seq<char>) -> Option<u16> {
    let d = unsigned_digits(s);
    if d.len() == 0 || !all_digits(d) {
        None
    } else if digits_value(d) <= u16::MAX {
        Some(digits_value(d) as u16)
    } else {
        None
    }
}

proof fn lemma_digits_value_grows(d: Seq<char>, k: int)
    requires
        0 <= k <= d.len(),
        forall|j: int| 0 <= j < d.len() ==> is_digit(#[trigger] d[j]),
    ensures
        digits_value(d.subrange(0, k)) <= digits_value(d),
    decreases d.len() - k,
{
    if k < d.len() {
        lemma_digits_value_grows(d, k + 1);
        assert(d.subrange(0, k + 1).drop_last() =~= d.subrange(0, k));
    } else {
        assert(d.subrange(0, k) =~= d);
    }
}

/// Parses a `u16` the way `str::parse::<u16>` does.
pub fn parse_u16(s: &[char]) -> (r: Option<u16>)
    ensures
        r == spec_parse_u16(s@),
{
    let start: usize = if s.len() > 0 && s[0] == '+' {
        1
    } else {
        0
    };
    let ghost d = unsigned_digits(s@);
    assert(d =~= s@.subrange(start as int, s@.len() as int));
    if start >= s.len() {
        return None;
    }
    let mut value: u32 = 0;
    let mut i: usize = start;
    while i < s.len()
        invariant
            start <= i <= s.len(),
            d == s@.subrange(start as int, s@.len() as int),
            d == unsigned_digits(s@),
            forall|j: int| start <= j < i ==> is_digit(#[trigger] s@[j]),
            value == digits_value(s@.subrange(start as int, i as int)),
            value <= u16::MAX,
        decreases s.len() - i,
    {
        let c = s[i];
        if !('0' <= c && c <= '9') {
            assert(!is_digit(d[i - start]));
            return None;
        }
        let dv: u32 = (c as u32) - 48;
        assert(s@.subrange(start as int, i + 1).drop_last() =~= s@.subrange(start as int, i as int));
        if value > 6553 || (value == 6553 && dv > 5) {
            proof {
                assert forall|j: int| 0 <= j < s@.subrange(start as int, i + 1).len() implies is_digit(
                    #[trigger] s@.subrange(start as int, i + 1)[j],
                ) by {}
                let e = s@.subrange(start as int, i + 1);
                assert(e.last() == c);
                assert(digits_value(e) == value * 10 + dv);
                assert(digits_value(e) > u16::MAX);
                if all_digits(d) {
                    lemma_digits_value_grows(d, i + 1 - start);
                    assert(d.subrange(0, i + 1 - start) =~= e);
                    assert(digits_value(d) > u16::MAX);
                }
            }
            return None;
        }
        value = value * 10 + dv;
        i = i + 1;
    }
    assert(s@.subrange(start as int, s@.len() as int) =~= d);
    Some(value as u16)
}

} // verus!

verus! {

// ---------------------------------------------------------------------------
// Alphanumeric characters and line splitting

/// What `char::is_alphanumeric` answers (Unicode `Alphabetic` or `Numeric`).
pub uninterp spec fn is_alnum(c: char) -> bool;

/// Tests whether a character is alphanumeric.
///
/// Trusted: calls `char::is_alphanumeric`; the answer, a Unicode property of
/// the character, is named `is_alnum`.
#[verifier::external_body]
pub(crate) fn is_alphanumeric(c: char) -> (b: bool)
    ensures
        b == is_alnum(c),
{
    c.is_alphanumeric()
}

/// What `str::split(|c| !c.is_alphanumeric())` yields.
pub open spec fn split_non_alnum(s: Seq<char>) -> Seq<Seq<char>>
    decreases s.len(),
{
    if s.len() == 0 {
        seq![Seq::empty()]
    } else if !is_alnum(s.last()) {
        split_non_alnum(s.drop_last()).push(Seq::empty())
    } else {
        let p = split_non_alnum(s.drop_last());
        p.update(p.len() - 1, p.last().push(s.last()))
    }
}

proof fn lemma_split_non_alnum_len(s: Seq<char>)
    ensures
        split_non_alnum(s).len() >= 1,
    decreases s.len(),
{
    if s.len() > 0 {
        lemma_split_non_alnum_len(s.drop_last());
    }
}

/// The pieces of `s` between non-alphanumeric characters, empty ones included.
pub fn split_at_non_alnum(s: &[char]) -> (r: Vec<Vec<char>>)
    ensures
        r@.map_values(|w: Vec<char>| w@) == split_non_alnum(s@),
{
    let mut out: Vec<Vec<char>> = Vec::new();
    let mut cur: Vec<char> = Vec::new();
    let mut i: usize = 0;
    assert(s@.subrange(0, 0) =~= Seq::<char>::empty());
    assert(out@.map_values(|w: Vec<char>| w@) =~= Seq::<Seq<char>>::empty());
    while i < s.len()
        invariant
            i <= s.len(),
            ({
                let p = split_non_alnum(s@.subrange(0, i as int));
                &&& p.len() >= 1
                &&& cur@ == p.last()
                &&& out@.map_values(|w: Vec<char>| w@) == p.drop_last()
            }),
        decreases s.len() - i,
    {
        let ghost pre = s@.subrange(0, i as int);
        let ghost p = split_non_alnum(pre);
        assert(s@.subrange(0, i + 1).drop_last() =~= pre);
        let c = s[i];
        if !is_alphanumeric(c) {
            let ghost before = out@.map_values(|w: Vec<char>| w@);
            out.push(cur);
            assert(out@.map_values(|w: Vec<char>| w@) =~= before.push(p.last()));
            cur = Vec::new();
            proof {
                let q = split_non_alnum(s@.subrange(0, i + 1));
                assert(q == p.push(Seq::empty()));
                assert(q.drop_last() =~= p);
                assert(p =~= p.drop_last().push(p.last()));
            }
        } else {
            cur.push(c);
            proof {
                let q = split_non_alnum(s@.subrange(0, i + 1));
                assert(q == p.update(p.len() - 1, p.last().push(c)));
                assert(q.drop_last() =~= p.drop_last());
                assert(cur@ =~= p.last().push(c));
            }
        }
        i = i + 1;
    }
    assert(s@.subrange(0, s@.len() as int) =~= s@);
    let ghost p = split_non_alnum(s@);
    let ghost before = out@.map_values(|w: Vec<char>| w@);
    out.push(cur);
    assert(out@.map_values(|w: Vec<char>| w@) =~= before.push(p.last()));
    assert(p =~= p.drop_last().push(p.last()));
    out
}

/// The text with one trailing carriage return removed, if it has one.
pub open spec fn strip_cr(s: Seq<char>) -> Seq<char> {
    if s.len() > 0 && s.last() == '\r' {
        s.drop_last()
    } else {
        s
    }
}

/// What `str::lines` yields: the text split at `\n`, a `\r` before each `\n`
/// dropped, and no empty line after a final line ending.
pub open spec fn lines(s: Seq<char>) -> Seq<Seq<char>> {
    let p = crate::bot::split_on(s, '\n');
    let n = if p.last().len() == 0 {
        p.len() - 1
    } else {
        p.len() as int
    };
    Seq::new(n as nat, |i: int| if i < p.len() - 1 { strip_cr(p[i]) } else { p[i] })
}

/// The lines of a text (see `lines`).
pub fn split_lines(s: &[char]) -> (r: Vec<Vec<char>>)
    ensures
        r@.map_values(|w: Vec<char>| w@) == lines(s@),
{
    let ghost p = crate::bot::split_on(s@, '\n');
    let pieces = split_on_char(s, '\n');
    assert(pieces@.map_values(|w: Vec<char>| w@) == p);
    let mut out: Vec<Vec<char>> = Vec::new();
    let n: usize = if pieces[pieces.len() - 1].len() == 0 {
        pieces.len() - 1
    } else {
        pieces.len()
    };
    let ghost target = lines(s@);
    assert(target.len() == n);
    let mut i: usize = 0;
    while i < n
        invariant
            n <= pieces.len(),
            pieces@.map_values(|w: Vec<char>| w@) == p,
            target == lines(s@),
            target.len() == n,
            p == crate::bot::split_on(s@, '\n'),
            i <= n,
            out@.map_values(|w: Vec<char>| w@) == target.subrange(0, i as int),
        decreases n - i,
    {
        let piece = &pieces[i];
        assert(piece@ == p[i as int]);
        let ghost before = out@.map_values(|w: Vec<char>| w@);
        let line: Vec<char> = if i < pieces.len() - 1 && piece.len() > 0 && piece[piece.len() - 1] == '\r' {
            let mut line: Vec<char> = Vec::new();
            let mut k: usize = 0;
            while k < piece.len() - 1
                invariant
                    piece.len() > 0,
                    k <= piece.len() - 1,
                    line@ == piece@.subrange(0, k as int),
                decreases piece.len() - 1 - k,
            {
                line.push(piece[k]);
                k = k + 1;
                assert(line@ =~= piece@.subrange(0, k as int));
            }
            assert(line@ =~= strip_cr(piece@));
            line
        } else {
            let line = piece.clone();
            assert(line@ =~= target[i as int]);
            line
        };
        assert(line@ == target[i as int]);
        out.push(line);
        assert(out@.map_values(|w: Vec<char>| w@) =~= before.push(target[i as int]));
        assert(out@.map_values(|w: Vec<char>| w@) =~= target.subrange(0, i + 1));
        i = i + 1;
    }
    assert(target.subrange(0, n as int) =~= target);
    out
}

/// The pieces of `s` between occurrences of `sep` (as `str::split(sep)`).
pub fn split_on_char(s: &[char], sep: char) -> (r: Vec<Vec<char>>)
    ensures
        r@.map_values(|w: Vec<char>| w@) == crate::bot::split_on(s@, sep),
        r@.len() >= 1,
{
    let mut out: Vec<Vec<char>> = Vec::new();
    let mut cur: Vec<char> = Vec::new();
    let mut i: usize = 0;
    assert(s@.subrange(0, 0) =~= Seq::<char>::empty());
    assert(out@.map_values(|w: Vec<char>| w@) =~= Seq::<Seq<char>>::empty());
    while i < s.len()
        invariant
            i <= s.len(),
            ({
                let p = crate::bot::split_on(s@.subrange(0, i as int), sep);
                &&& p.len() >= 1
                &&& cur@ == p.last()
                &&& out@.map_values(|w: Vec<char>| w@) == p.drop_last()
            }),
        decreases s.len() - i,
    {
        let ghost pre = s@.subrange(0, i as int);
        let ghost p = crate::bot::split_on(pre, sep);
        assert(s@.subrange(0, i + 1).drop_last() =~= pre);
        let c = s[i];
        if c == sep {
            let ghost before = out@.map_values(|w: Vec<char>| w@);
            out.push(cur);
            assert(out@.map_values(|w: Vec<char>| w@) =~= before.push(p.last()));
            cur = Vec::new();
            proof {
                let q = crate::bot::split_on(s@.subrange(0, i + 1), sep);
                assert(q == p.push(Seq::empty()));
                assert(q.drop_last() =~= p);
                assert(p =~= p.drop_last().push(p.last()));
            }
        } else {
            cur.push(c);
            proof {
                let q = crate::bot::split_on(s@.subrange(0, i + 1), sep);
                assert(q == p.update(p.len() - 1, p.last().push(c)));
                assert(q.drop_last() =~= p.drop_last());
                assert(cur@ =~= p.last().push(c));
            }
        }
        i = i + 1;
    }
    assert(s@.subrange(0, s@.len() as int) =~= s@);
    let ghost p = crate::bot::split_on(s@, sep);
    let ghost before = out@.map_values(|w: Vec<char>| w@);
    out.push(cur);
    assert(out@.map_values(|w: Vec<char>| w@) =~= before.push(p.last()));
    assert(p =~= p.drop_last().push(p.last()));
    out
}

} // verus!
