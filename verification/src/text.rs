//! Text helpers shared by the chat components: whitespace trimming,
//! decimal rendering and parsing, and substring search.

use vstd::prelude::*;

verus! {

/// The character that stands for the decimal digit `d` (`0 <= d < 10`).
pub open spec fn digit_char(d: nat) -> char {
    ((d + 48) as u32) as char
}

/// Decimal rendering of `n`, without sign or leading zeros.
pub open spec fn spec_decimal(n: nat) -> Seq<char>
    decreases n,
{
    if n < 10 {
        seq![digit_char(n)]
    } else {
        spec_decimal(n / 10).push(digit_char(n % 10))
    }
}

/// Appends one character to a string (`String::push`).
#[verifier::external_body]
pub(crate) fn push_char(s: &mut String, c: char)
    ensures
        final(s)@ == old(s)@.push(c),
{
    s.push(c);
}

fn digit(d: u64) -> (c: char)
    requires
        d < 10,
    ensures
        c == digit_char(d as nat),
{
    match d {
        0 => '0',
        1 => '1',
        2 => '2',
        3 => '3',
        4 => '4',
        5 => '5',
        6 => '6',
        7 => '7',
        8 => '8',
        _ => '9',
    }
}

/// Appends the decimal rendering of `n` to `out`.
pub fn push_decimal(out: &mut String, n: u64)
    ensures
        final(out)@ == old(out)@ + spec_decimal(n as nat),
    decreases n,
{
    if n >= 10 {
        push_decimal(out, n / 10);
    }
    push_char(out, digit(n % 10));
    assert(old(out)@ + spec_decimal(n as nat) =~= out@);
}

/// The characters of `s`, in order.
pub fn chars_of(s: &str) -> (v: Vec<char>)
    ensures
        v@ == s@,
{
    broadcast use vstd::string::group_string_axioms;
    let mut v: Vec<char> = Vec::new();
    for c in it: s.chars()
        invariant
            v@ == it.seq().take(it.index() as int),
    {
        v.push(c);
    }
    assert(v@ =~= s@);
    v
}

/// Unicode `White_Space`: the characters that `char::is_whitespace` accepts.
pub open spec fn is_white(c: char) -> bool {
    let u = c as u32;
    ||| 0x9 <= u <= 0xd
    ||| u == 0x20
    ||| u == 0x85
    ||| u == 0xa0
    ||| u == 0x1680
    ||| 0x2000 <= u <= 0x200a
    ||| u == 0x2028
    ||| u == 0x2029
    ||| u == 0x202f
    ||| u == 0x205f
    ||| u == 0x3000
}

/// Whether `c` is Unicode whitespace (the behaviour of `char::is_whitespace`).
pub fn is_whitespace(c: char) -> (b: bool)
    ensures
        b == is_white(c),
{
    let u = c as u32;
    (0x9 <= u && u <= 0xd) || u == 0x20 || u == 0x85 || u == 0xa0 || u == 0x1680 || (0x2000 <= u
        && u <= 0x200a) || u == 0x2028 || u == 0x2029 || u == 0x202f || u == 0x205f || u == 0x3000
}

/// Index of the first non-whitespace character of `s` at or after `i`
/// (`s.len()` where there is none).
pub open spec fn first_solid(s: Seq<char>, i: int) -> int
    decreases s.len() - i,
{
    if i >= s.len() {
        s.len() as int
    } else if is_white(s[i]) {
        first_solid(s, i + 1)
    } else {
        i
    }
}

/// One past the index of the last non-whitespace character of `s` before
/// `j` (0 where there is none).
pub open spec fn solid_end(s: Seq<char>, j: int) -> int
    decreases j,
{
    if j <= 0 {
        0
    } else if is_white(s[j - 1]) {
        solid_end(s, j - 1)
    } else {
        j
    }
}

/// `s` with its leading and trailing whitespace removed (`str::trim`).
pub open spec fn spec_trim(s: Seq<char>) -> Seq<char> {
    let a = first_solid(s, 0);
    let b = solid_end(s, s.len() as int);
    if a < b {
        s.subrange(a, b)
    } else {
        Seq::empty()
    }
}

/// A copy of `s` with leading and trailing whitespace removed, as
/// `str::trim` gives it.
pub fn trim(s: &str) -> (t: String)
    ensures
        t@ == spec_trim(s@),
{
    let v = chars_of(s);
    let n = v.len();
    let mut a: usize = 0;
    while a < n && is_whitespace(v[a])
        invariant
            v@ == s@,
            n == v@.len(),
            a <= n,
            first_solid(v@, 0) == first_solid(v@, a as int),
        decreases n - a,
    {
        a = a + 1;
    }
    assert(first_solid(v@, 0) == a);
    let mut b: usize = n;
    while b > 0 && is_whitespace(v[b - 1])
        invariant
            v@ == s@,
            n == v@.len(),
            b <= n,
            solid_end(v@, n as int) == solid_end(v@, b as int),
        decreases b,
    {
        b = b - 1;
    }
    assert(solid_end(v@, n as int) == b);
    if a < b {
        String::from_str(s.substring_char(a, b))
    } else {
        String::new()
    }
}

/// One past the last character of `s` before `j` that is neither a carriage
/// return nor a line feed (0 where there is none).
pub open spec fn line_end(s: Seq<char>, j: int) -> int
    decreases j,
{
    if j <= 0 {
        0
    } else if s[j - 1] == '\r' || s[j - 1] == '\n' {
        line_end(s, j - 1)
    } else {
        j
    }
}

/// `s` without its trailing run of `'\r'` and `'\n'` characters
/// (`str::trim_end_matches(['\r', '\n'])`).
pub open spec fn spec_strip_line_end(s: Seq<char>) -> Seq<char> {
    s.subrange(0, line_end(s, s.len() as int))
}

/// A copy of `s` without its trailing carriage returns and line feeds.
pub fn strip_line_end(s: &str) -> (t: String)
    ensures
        t@ == spec_strip_line_end(s@),
{
    let v = chars_of(s);
    let n = v.len();
    let mut b: usize = n;
    while b > 0 && (v[b - 1] == '\r' || v[b - 1] == '\n')
        invariant
            v@ == s@,
            n == v@.len(),
            b <= n,
            line_end(v@, n as int) == line_end(v@, b as int),
        decreases b,
    {
        b = b - 1;
    }
    String::from_str(s.substring_char(0, b))
}

/// Decimal rendering of `n`, left-padded with `'0'` to at least `width`
/// characters (the `{:0width$}` format).
pub open spec fn spec_zero_padded(n: nat, width: nat) -> Seq<char> {
    let d = spec_decimal(n);
    if d.len() < width {
        Seq::new((width - d.len()) as nat, |i: int| '0') + d
    } else {
        d
    }
}

/// Appends `n` in decimal, left-padded with zeros to `width` characters.
pub fn push_zero_padded(out: &mut String, n: u64, width: usize)
    ensures
        final(out)@ == old(out)@ + spec_zero_padded(n as nat, width as nat),
{
    let mut digits = String::new();
    push_decimal(&mut digits, n);
    assert(digits@ =~= spec_decimal(n as nat));
    let len = digits.as_str().unicode_len();
    let ghost start = out@;
    let mut k: usize = len;
    while k < width
        invariant
            len == spec_decimal(n as nat).len(),
            len <= k,
            k <= width || len >= width,
            len >= width ==> k == len,
            out@ == start + Seq::new((k - len) as nat, |i: int| '0'),
        decreases width - k,
    {
        push_char(out, '0');
        assert(out@ =~= start + Seq::new((k + 1 - len) as nat, |i: int| '0'));
        k = k + 1;
    }
    out.append(digits.as_str());
    if len < width {
        assert(k == width);
        assert(out@ =~= start + spec_zero_padded(n as nat, width as nat));
    } else {
        assert(Seq::new((k - len) as nat, |i: int| '0') =~= Seq::<char>::empty());
        assert(out@ =~= start + spec_zero_padded(n as nat, width as nat));
    }
}

/// Whether `needle` occurs in `hay` at position `i`.
pub open spec fn occurs_at(hay: Seq<char>, needle: Seq<char>, i: int) -> bool {
    0 <= i && i + needle.len() <= hay.len() && hay.subrange(i, i + needle.len()) == needle
}

/// Whether `needle` occurs somewhere in `hay` (`str::contains`).
pub open spec fn spec_contains(hay: Seq<char>, needle: Seq<char>) -> bool {
    exists|i: int| occurs_at(hay, needle, i)
}

fn matches_at(hay: &Vec<char>, needle: &Vec<char>, i: usize) -> (b: bool)
    requires
        i + needle@.len() <= hay@.len(),
    ensures
        b == occurs_at(hay@, needle@, i as int),
{
    let m = needle.len();
    let _hl = hay.len();
    let mut k: usize = 0;
    while k < m
        invariant
            m == needle@.len(),
            i + m <= hay@.len(),
            hay@.len() <= usize::MAX,
            k <= m,
            forall|t: int| 0 <= t < k ==> hay@[i + t] == needle@[t],
        decreases m - k,
    {
        if hay[i + k] != needle[k] {
            assert(hay@.subrange(i as int, i + m)[k as int] != needle@[k as int]);
            return false;
        }
        k = k + 1;
    }
    assert(hay@.subrange(i as int, i + m) =~= needle@);
    true
}

/// Whether `needle` occurs in `hay`.
pub fn contains_text(hay: &str, needle: &str) -> (b: bool)
    ensures
        b == spec_contains(hay@, needle@),
{
    let h = chars_of(hay);
    let nd = chars_of(needle);
    if nd.len() > h.len() {
        assert forall|i: int| !occurs_at(hay@, needle@, i) by {}
        return false;
    }
    let last = h.len() - nd.len();
    let mut i: usize = 0;
    loop
        invariant
            h@ == hay@,
            nd@ == needle@,
            h@.len() <= usize::MAX,
            last == h@.len() - nd@.len(),
            i <= last,
            forall|j: int| 0 <= j < i ==> !occurs_at(hay@, needle@, j),
        ensures
            i == last,
            forall|j: int| 0 <= j <= i ==> !occurs_at(hay@, needle@, j),
        decreases last - i,
    {
        if matches_at(&h, &nd, i) {
            return true;
        }
        if i == last {
            break;
        }
        i = i + 1;
    }
    assert forall|j: int| !occurs_at(hay@, needle@, j) by {
        if 0 <= j <= i {
        }
    }
    false
}

/// Whether `c` is one of the ASCII decimal digits.
pub open spec fn is_digit(c: char) -> bool {
    '0' <= c && c <= '9'
}

/// The number that a string of decimal digits denotes.
pub open spec fn digits_value(d: Seq<char>) -> nat
    decreases d.len(),
{
    if d.len() == 0 {
        0
    } else {
        digits_value(d.drop_last()) * 10 + ((d.last() as u32) - 48) as nat
    }
}

/// `s` without one leading `'+'`, where it has one.
pub open spec fn unsigned_digits(s: Seq<char>) -> Seq<char> {
    if s.len() > 0 && s[0] == '+' {
        s.drop_first()
    } else {
        s
    }
}

/// What `str::parse::<usize>` gives for `s`: an optional `'+'` followed by
/// at least one decimal digit, whose value fits in `usize`.
pub open spec fn spec_parse_usize(s: Seq<char>) -> Option<usize> {
    let d = unsigned_digits(s);
    if d.len() > 0 && (forall|i: int| 0 <= i < d.len() ==> is_digit(#[trigger] d[i]))
        && digits_value(d) <= usize::MAX {
        Some(digits_value(d) as usize)
    } else {
        None
    }
}

proof fn lemma_digits_value_grows(d: Seq<char>, k: int, m: int)
    requires
        0 <= k <= m <= d.len(),
    ensures
        digits_value(d.take(k)) <= digits_value(d.take(m)),
    decreases m - k,
{
    if k < m {
        lemma_digits_value_grows(d, k, m - 1);
        assert(d.take(m).drop_last() =~= d.take(m - 1));
    }
}

/// Parses `s` as an unsigned decimal number, as `str::parse::<usize>` does.
pub fn parse_usize(s: &str) -> (r: Option<usize>)
    ensures
        r == spec_parse_usize(s@),
{
    let v = chars_of(s);
    let n = v.len();
    let start: usize = if n > 0 && v[0] == '+' { 1 } else { 0 };
    let ghost d = unsigned_digits(s@);
    assert(d =~= v@.subrange(start as int, n as int));
    if start >= n {
        return None;
    }
    let mut acc: usize = 0;
    let mut i: usize = start;
    while i < n
        invariant
            v@ == s@,
            n == v@.len(),
            d == v@.subrange(start as int, n as int),
            d == unsigned_digits(s@),
            start <= i <= n,
            start < n,
            forall|t: int| 0 <= t < i - start ==> is_digit(#[trigger] d[t]),
            acc == digits_value(d.take(i - start)),
        decreases n - i,
    {
        let c = v[i];
        if !('0' <= c && c <= '9') {
            assert(!is_digit(d[i - start]));
            return None;
        }
        let dv: usize = ((c as u32) - 48) as usize;
        assert(d.take(i + 1 - start).drop_last() =~= d.take(i - start));
        match acc.checked_mul(10) {
            None => {
                proof {
                    if forall|t: int| 0 <= t < d.len() ==> is_digit(#[trigger] d[t]) {
                        lemma_digits_value_grows(d, i + 1 - start, d.len() as int);
                        assert(d.take(d.len() as int) =~= d);
                    }
                }
                return None;
            },
            Some(m) => match m.checked_add(dv) {
                None => {
                    proof {
                        if forall|t: int| 0 <= t < d.len() ==> is_digit(#[trigger] d[t]) {
                            lemma_digits_value_grows(d, i + 1 - start, d.len() as int);
                            assert(d.take(d.len() as int) =~= d);
                        }
                    }
                    return None;
                },
                Some(x) => {
                    acc = x;
                },
            },
        }
        i = i + 1;
    }
    assert(d.take(n - start) =~= d);
    Some(acc)
}

proof fn lemma_decimal_digits(n: nat)
    ensures
        spec_decimal(n).len() > 0,
        forall|i: int| 0 <= i < spec_decimal(n).len() ==> is_digit(#[trigger] spec_decimal(n)[i]),
        digits_value(spec_decimal(n)) == n,
    decreases n,
{
    assert((digit_char(n % 10) as u32) == n % 10 + 48);
    if n >= 10 {
        lemma_decimal_digits(n / 10);
        assert(spec_decimal(n).drop_last() =~= spec_decimal(n / 10));
        assert(spec_decimal(n).last() == digit_char(n % 10));
        assert(digits_value(spec_decimal(n)) == digits_value(spec_decimal(n / 10)) * 10 + n % 10);
        assert((n / 10) * 10 + n % 10 == n);
    } else {
        assert(spec_decimal(n).drop_last() =~= Seq::<char>::empty());
        assert(digits_value(Seq::<char>::empty()) == 0);
        assert(spec_decimal(n).last() == digit_char(n));
    }
}

/// Reading back the decimal rendering of a number gives that number:
/// `str::parse::<usize>` inverts `{}` formatting.
pub proof fn lemma_parse_decimal_roundtrip(n: usize)
    ensures
        spec_parse_usize(spec_decimal(n as nat)) == Some(n),
{
    lemma_decimal_digits(n as nat);
    assert(unsigned_digits(spec_decimal(n as nat)) == spec_decimal(n as nat)) by {
        assert(is_digit(spec_decimal(n as nat)[0]));
    }
}

} // verus!
