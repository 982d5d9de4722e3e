//! Character-level helpers: trimming, digit filtering and decimal rendering.
use vstd::prelude::*;
use vstd::std_specs::iter::IteratorSpec;

verus! {

/// `char::is_ascii_digit`.
pub open spec fn is_digit(c: char) -> bool {
    '0' <= c && c <= '9'
}

/// The Unicode `White_Space` property, which is what `char::is_whitespace` tests.
pub open spec fn is_whitespace(c: char) -> bool {
    let u = c as u32;
    ||| 0x09 <= u <= 0x0D
    ||| u == 0x20
    ||| u == 0x85
    ||| u == 0xA0
    ||| u == 0x1680
    ||| 0x2000 <= u <= 0x200A
    ||| u == 0x2028
    ||| u == 0x2029
    ||| u == 0x202F
    ||| u == 0x205F
    ||| u == 0x3000
}

/// Number of leading whitespace characters of `s`.
pub open spec fn leading_ws(s: Seq<char>) -> nat
    decreases s.len(),
{
    if s.len() > 0 && is_whitespace(s[0]) {
        1 + leading_ws(s.drop_first())
    } else {
        0
    }
}

/// Number of trailing whitespace characters of `s`.
pub open spec fn trailing_ws(s: Seq<char>) -> nat
    decreases s.len(),
{
    if s.len() > 0 && is_whitespace(s.last()) {
        1 + trailing_ws(s.drop_last())
    } else {
        0
    }
}

/// What `str::trim` gives back: `s` without its leading and trailing whitespace.
pub open spec fn spec_trim(s: Seq<char>) -> Seq<char> {
    if leading_ws(s) == s.len() {
        Seq::empty()
    } else {
        s.subrange(leading_ws(s) as int, s.len() - trailing_ws(s))
    }
}

/// A text counts as blank when it holds only whitespace.
pub open spec fn spec_is_blank(s: Seq<char>) -> bool {
    spec_trim(s).len() == 0
}

/// The ASCII digits of `s`, in order.
pub open spec fn digits_only(s: Seq<char>) -> Seq<char> {
    s.filter(|c: char| is_digit(c))
}

/// Calls `String::push`. Claimed, as std documents it: the character is appended.
#[verifier::external_body]
pub(crate) fn push_char(s: &mut String, c: char)
    ensures
        final(s)@ == old(s)@.push(c),
{
    s.push(c);
}


/// The characters of `s`, in order.
pub fn chars_of(s: &str) -> (v: Vec<char>)
    ensures
        v@ == s@,
{
    let mut v: Vec<char> = Vec::new();
    for c in it: s.chars()
        invariant
            v@ == it.seq().take(it.index() as int),
            it.seq() == s@,
    {
        v.push(c);
        assert(it.seq().take(it.index() as int + 1) =~= v@);
    }
    assert(v@ =~= s@);
    v
}

/// A string holding the characters `v@[lo..hi]`.
pub fn string_of(v: &Vec<char>, lo: usize, hi: usize) -> (s: String)
    requires
        lo <= hi <= v@.len(),
    ensures
        s@ == v@.subrange(lo as int, hi as int),
{
    let mut s = String::new();
    let mut i = lo;
    while i < hi
        invariant
            lo <= i <= hi <= v@.len(),
            s@ == v@.subrange(lo as int, i as int),
        decreases hi - i,
    {
        push_char(&mut s, v[i]);
        assert(s@ =~= v@.subrange(lo as int, i + 1));
        i = i + 1;
    }
    s
}


proof fn lemma_leading_ws(s: Seq<char>)
    ensures
        leading_ws(s) <= s.len(),
        forall|j: int| 0 <= j < leading_ws(s) ==> is_whitespace(#[trigger] s[j]),
        leading_ws(s) < s.len() ==> !is_whitespace(s[leading_ws(s) as int]),
    decreases s.len(),
{
    if s.len() > 0 && is_whitespace(s[0]) {
        lemma_leading_ws(s.drop_first());
        assert forall|j: int| 0 <= j < leading_ws(s) implies is_whitespace(#[trigger] s[j]) by {
            if j > 0 {
                assert(s[j] == s.drop_first()[j - 1]);
            }
        }
    }
}

proof fn lemma_trailing_ws(s: Seq<char>)
    ensures
        trailing_ws(s) <= s.len(),
        forall|j: int| s.len() - trailing_ws(s) <= j < s.len() ==> is_whitespace(#[trigger] s[j]),
        trailing_ws(s) < s.len() ==> !is_whitespace(s[s.len() - 1 - trailing_ws(s)]),
    decreases s.len(),
{
    if s.len() > 0 && is_whitespace(s.last()) {
        lemma_trailing_ws(s.drop_last());
        assert forall|j: int| s.len() - trailing_ws(s) <= j < s.len() implies is_whitespace(
            #[trigger] s[j],
        ) by {
            if j < s.len() - 1 {
                assert(s[j] == s.drop_last()[j]);
            }
        }
    }
}

/// `str::trim`: the text without its leading and trailing whitespace.
pub fn trim(s: &str) -> (r: String)
    ensures
        r@ == spec_trim(s@),
{
    let v = chars_of(s);
    let n = v.len();
    proof {
        lemma_leading_ws(s@);
        lemma_trailing_ws(s@);
    }
    let mut lo: usize = 0;
    while lo < n && is_whitespace_char(v[lo])
        invariant
            n == v@.len(),
            v@ == s@,
            lo <= n,
            forall|j: int| 0 <= j < lo ==> is_whitespace(#[trigger] v@[j]),
        decreases n - lo,
    {
        lo = lo + 1;
    }
    assert(lo == leading_ws(s@)) by {
        if lo < leading_ws(s@) {
            assert(is_whitespace(v@[lo as int]));
        }
        if lo > leading_ws(s@) {
            assert(is_whitespace(v@[leading_ws(s@) as int]));
        }
    }
    if lo == n {
        return String::new();
    }
    let mut hi: usize = n;
    while hi > lo && is_whitespace_char(v[hi - 1])
        invariant
            n == v@.len(),
            v@ == s@,
            lo < n,
            lo <= hi <= n,
            !is_whitespace(v@[lo as int]),
            forall|j: int| hi <= j < n ==> is_whitespace(#[trigger] v@[j]),
        decreases hi,
    {
        hi = hi - 1;
    }
    assert(hi == n - trailing_ws(s@)) by {
        let t = trailing_ws(s@);
        if hi < n - t {
            assert(is_whitespace(v@[n - 1 - t]));
        }
        if hi > n - t {
            assert(is_whitespace(v@[hi - 1]));
        }
    }
    string_of(&v, lo, hi)
}

/// `char::is_whitespace`.
pub fn is_whitespace_char(c: char) -> (r: bool)
    ensures
        r == is_whitespace(c),
{
    let u = c as u32;
    (0x09 <= u && u <= 0x0D) || u == 0x20 || u == 0x85 || u == 0xA0 || u == 0x1680 || (0x2000
        <= u && u <= 0x200A) || u == 0x2028 || u == 0x2029 || u == 0x202F || u == 0x205F || u
        == 0x3000
}

/// Whether the text holds only whitespace (so that its trimmed form is empty).
pub fn is_blank(s: &str) -> (r: bool)
    ensures
        r == spec_is_blank(s@),
{
    let t = trim(s);
    t.as_str().is_empty()
}

/// Equality of two texts.
pub fn str_eq(a: &str, b: &str) -> (r: bool)
    ensures
        r == (a@ == b@),
{
    let x = chars_of(a);
    let y = chars_of(b);
    if x.len() != y.len() {
        return false;
    }
    let mut i: usize = 0;
    while i < x.len()
        invariant
            x@ == a@,
            y@ == b@,
            x@.len() == y@.len(),
            i <= x@.len(),
            forall|j: int| 0 <= j < i ==> x@[j] == y@[j],
        decreases x@.len() - i,
    {
        if x[i] != y[i] {
            return false;
        }
        i = i + 1;
    }
    assert(x@ =~= y@);
    true
}

/// `normalize_phone`: keeps only the ASCII digits of a phone number, in order.
pub fn normalize_phone(v: &str) -> (r: String)
    ensures
        r@ == digits_only(v@),
{
    let cs = chars_of(v);
    let mut out = String::new();
    let mut i: usize = 0;
    while i < cs.len()
        invariant
            cs@ == v@,
            i <= cs@.len(),
            out@ == cs@.take(i as int).filter(|c: char| is_digit(c)),
        decreases cs@.len() - i,
    {
        let c = cs[i];
        proof {
            reveal_with_fuel(Seq::<_>::filter, 1);
            assert(cs@.take(i + 1).drop_last() =~= cs@.take(i as int));
        }
        if '0' <= c && c <= '9' {
            push_char(&mut out, c);
        }
        i = i + 1;
    }
    assert(cs@.take(cs@.len() as int) =~= cs@);
    out
}

/// The character of the decimal digit `d`.
pub open spec fn digit_char(d: int) -> char {
    (48 + d) as char
}

/// Decimal digits of `n`, most significant first, without leading zeros.
pub open spec fn nat_digits(n: nat) -> Seq<char>
    decreases n,
{
    if n < 10 {
        seq![digit_char(n as int)]
    } else {
        nat_digits(n / 10) + seq![digit_char((n % 10) as int)]
    }
}

/// What `format!("{}", n)` writes for an integer `n`.
pub open spec fn spec_decimal(n: int) -> Seq<char> {
    if n < 0 {
        seq!['-'] + nat_digits((-n) as nat)
    } else {
        nat_digits(n as nat)
    }
}

/// What `format!("{:02}", n)` writes: at least two characters, zero-padded.
pub open spec fn spec_pad2(n: int) -> Seq<char> {
    if 0 <= n < 10 {
        seq!['0', digit_char(n)]
    } else {
        spec_decimal(n)
    }
}

fn digit(d: u64) -> (c: char)
    requires
        d < 10,
    ensures
        c == digit_char(d as int),
{
    let b: u8 = 48u8 + (d as u8);
    b as char
}

fn push_nat_digits(s: &mut String, n: u64)
    ensures
        final(s)@ == old(s)@ + nat_digits(n as nat),
    decreases n,
{
    if n >= 10 {
        push_nat_digits(s, n / 10);
    }
    push_char(s, digit(n % 10));
    assert(final(s)@ =~= old(s)@ + nat_digits(n as nat));
}

/// Appends the decimal form of `n` to `s`.
pub fn push_decimal(s: &mut String, n: i64)
    ensures
        final(s)@ == old(s)@ + spec_decimal(n as int),
{
    if n < 0 {
        push_char(s, '-');
        let m: u64 = (-(n as i128)) as u64;
        push_nat_digits(s, m);
        assert(final(s)@ =~= old(s)@ + spec_decimal(n as int));
    } else {
        push_nat_digits(s, n as u64);
    }
}

/// `format!("{}", n)`.
pub fn decimal(n: i64) -> (r: String)
    ensures
        r@ == spec_decimal(n as int),
{
    let mut s = String::new();
    push_decimal(&mut s, n);
    assert(s@ =~= spec_decimal(n as int));
    s
}

/// Appends `format!("{:02}", n)` to `s`.
pub fn push_pad2(s: &mut String, n: i64)
    ensures
        final(s)@ == old(s)@ + spec_pad2(n as int),
{
    if 0 <= n && n < 10 {
        push_char(s, '0');
        push_char(s, digit(n as u64));
        assert(final(s)@ =~= old(s)@ + spec_pad2(n as int));
    } else {
        push_decimal(s, n);
    }
}

/// Appends every character of `t` to `s`.
pub fn push_str(s: &mut String, t: &str)
    ensures
        final(s)@ == old(s)@ + t@,
{
    s.append(t);
}

} // verus!
