//! Clock times written as "HH:MM" text and their minute offsets.
use vstd::prelude::*;
use crate::text::{chars_of, digit_char, is_digit, nat_digits, push_pad2, push_str, spec_decimal, spec_pad2};

verus! {

/// Every character of `s` is an ASCII digit.
pub open spec fn all_digits(s: Seq<char>) -> bool {
    forall|i: int| 0 <= i < s.len() ==> is_digit(#[trigger] s[i])
}

/// The number that a run of decimal digits denotes.
pub open spec fn digits_value(s: Seq<char>) -> int
    decreases s.len(),
{
    if s.len() == 0 {
        0
    } else {
        digits_value(s.drop_last()) * 10 + (s.last() as int - 48)
    }
}

/// What `<i64 as FromStr>::from_str` accepts and returns: an optional `+` or `-`,
/// then one or more ASCII digits, with a value that fits in an `i64`.
pub open spec fn parse_int(s: Seq<char>) -> Option<int> {
    let signed = s.len() > 0 && (s[0] == '+' || s[0] == '-');
    let body = if signed { s.drop_first() } else { s };
    let magnitude = digits_value(body);
    let v = if s.len() > 0 && s[0] == '-' { -magnitude } else { magnitude };
    if body.len() == 0 || !all_digits(body) {
        None
    } else if i64::MIN <= v <= i64::MAX {
        Some(v)
    } else {
        None
    }
}

/// Index of the first ':' in `s` at or after `i`, or `s.len()` if there is none.
pub open spec fn find_colon(s: Seq<char>, i: int) -> int
    decreases s.len() - i,
{
    if i >= s.len() {
        s.len() as int
    } else if s[i] == ':' {
        i
    } else {
        find_colon(s, i + 1)
    }
}

/// The first item that `s.split(':')` yields.
pub open spec fn hour_field(s: Seq<char>) -> Seq<char> {
    s.subrange(0, find_colon(s, 0))
}

/// The second item that `s.split(':')` yields, if there is one.
pub open spec fn minute_field(s: Seq<char>) -> Option<Seq<char>> {
    let c = find_colon(s, 0);
    if c == s.len() {
        None
    } else {
        Some(s.subrange(c + 1, find_colon(s, c + 1)))
    }
}

/// The hour and minute numbers of a clock text, before any range check.
pub open spec fn time_parts(s: Seq<char>) -> Option<(int, int)> {
    match parse_int(hour_field(s)) {
        Some(h) => match minute_field(s) {
            Some(mf) => match parse_int(mf) {
                Some(m) => Some((h, m)),
                None => None,
            },
            None => None,
        },
        None => None,
    }
}

/// `time_to_minutes`: the minute of the day that an "HH:MM" text names.
/// Hours above 23 and minutes above 59 are refused; anything after a second ':' is ignored.
pub open spec fn spec_time_to_minutes(s: Seq<char>) -> Option<int> {
    match time_parts(s) {
        Some((h, m)) => if h > 23 || m > 59 {
            None
        } else {
            Some(h * 60 + m)
        },
        None => None,
    }
}

/// The arithmetic `h * 60 + m` stays within `i64` (it can only leave it for hugely negative
/// hours or minutes, which the computation would overflow on).
pub open spec fn time_arith_ok(s: Seq<char>) -> bool {
    match time_parts(s) {
        Some((h, m)) => (h <= 23 && m <= 59) ==> (i64::MIN <= h * 60 && i64::MIN <= h * 60 + m),
        None => true,
    }
}

/// An `Option<i64>` seen as an `Option<int>`.
pub open spec fn opt_int(o: Option<i64>) -> Option<int> {
    match o {
        Some(x) => Some(x as int),
        None => None,
    }
}

/// Quotient of integer division rounding toward zero, as Rust's `/` computes it.
pub open spec fn tdiv(a: int, b: int) -> int
    recommends
        b > 0,
{
    if a >= 0 {
        a / b
    } else {
        -((-a) / b)
    }
}

/// Remainder that goes with `tdiv`, as Rust's `%` computes it.
pub open spec fn trem(a: int, b: int) -> int
    recommends
        b > 0,
{
    a - b * tdiv(a, b)
}

/// What `format!("{:02}:{:02}", m / 60, m % 60)` writes.
pub open spec fn spec_time_text(m: int) -> Seq<char> {
    spec_pad2(tdiv(m, 60)) + seq![':'] + spec_pad2(trem(m, 60))
}

proof fn lemma_find_colon(s: Seq<char>, i: int)
    requires
        0 <= i <= s.len(),
    ensures
        i <= find_colon(s, i) <= s.len(),
        forall|j: int| i <= j < find_colon(s, i) ==> #[trigger] s[j] != ':',
        find_colon(s, i) < s.len() ==> s[find_colon(s, i)] == ':',
    decreases s.len() - i,
{
    if i < s.len() && s[i] != ':' {
        lemma_find_colon(s, i + 1);
    }
}

proof fn lemma_find_colon_unique(s: Seq<char>, i: int, k: int)
    requires
        0 <= i <= k <= s.len(),
        forall|j: int| i <= j < k ==> #[trigger] s[j] != ':',
        k < s.len() ==> s[k] == ':',
    ensures
        find_colon(s, i) == k,
{
    lemma_find_colon(s, i);
    let f = find_colon(s, i);
    if f < k {
        assert(s[f] != ':');
    }
    if f > k {
        assert(s[k] != ':');
    }
}

proof fn lemma_digits_value_nonneg(s: Seq<char>)
    requires
        all_digits(s),
    ensures
        digits_value(s) >= 0,
    decreases s.len(),
{
    if s.len() > 0 {
        assert(all_digits(s.drop_last())) by {
            assert forall|i: int| 0 <= i < s.drop_last().len() implies is_digit(
                #[trigger] s.drop_last()[i],
            ) by {
                assert(s.drop_last()[i] == s[i]);
            }
        }
        lemma_digits_value_nonneg(s.drop_last());
        assert(is_digit(s[s.len() - 1]));
    }
}

/// A longer run of digits never denotes less than a prefix of it.
proof fn lemma_digits_value_prefix(s: Seq<char>, k: int)
    requires
        all_digits(s),
        0 <= k <= s.len(),
    ensures
        digits_value(s.take(k)) <= digits_value(s),
    decreases s.len(),
{
    if k < s.len() {
        let d = s.drop_last();
        assert(all_digits(d)) by {
            assert forall|i: int| 0 <= i < d.len() implies is_digit(#[trigger] d[i]) by {
                assert(d[i] == s[i]);
            }
        }
        lemma_digits_value_prefix(d, k);
        assert(d.take(k) =~= s.take(k));
        lemma_digits_value_nonneg(d);
        assert(is_digit(s[s.len() - 1]));
    } else {
        assert(s.take(k) =~= s);
    }
}

/// `<i64 as FromStr>::from_str` on the characters `v@[lo..hi]`.
pub fn parse_int_range(v: &Vec<char>, lo: usize, hi: usize) -> (r: Option<i64>)
    requires
        lo <= hi <= v@.len(),
    ensures
        opt_int(r) == parse_int(v@.subrange(lo as int, hi as int)),
{
    let ghost s = v@.subrange(lo as int, hi as int);
    let mut start = lo;
    let mut neg = false;
    if lo < hi && (v[lo] == '+' || v[lo] == '-') {
        neg = v[lo] == '-';
        start = lo + 1;
    }
    let ghost body = v@.subrange(start as int, hi as int);
    let ghost signed = s.len() > 0 && (s[0] == '+' || s[0] == '-');
    assert(body =~= (if signed {
        s.drop_first()
    } else {
        s
    }));
    assert(neg == (s.len() > 0 && s[0] == '-'));
    if start == hi {
        return None;
    }
    let bound: u128 = 9223372036854775808u128;
    let mut acc: u128 = 0;
    let mut i = start;
    while i < hi
        invariant
            lo <= start <= i <= hi <= v@.len(),
            body == v@.subrange(start as int, hi as int),
            s == v@.subrange(lo as int, hi as int),
            body == (if signed {
                s.drop_first()
            } else {
                s
            }),
            neg == (s.len() > 0 && s[0] == '-'),
            signed == (s.len() > 0 && (s[0] == '+' || s[0] == '-')),
            bound == 9223372036854775808u128,
            all_digits(v@.subrange(start as int, i as int)),
            acc == digits_value(v@.subrange(start as int, i as int)),
            acc <= bound,
        decreases hi - i,
    {
        let c = v[i];
        let ghost pre = v@.subrange(start as int, i as int);
        let ghost post = v@.subrange(start as int, i + 1);
        assert(post.drop_last() =~= pre);
        if !('0' <= c && c <= '9') {
            assert(!is_digit(body[i - start]));
            return None;
        }
        assert(48 <= c as u32 <= 57);
        let d: u128 = (c as u32 - 48) as u128;
        acc = acc * 10 + d;
        assert(all_digits(post)) by {
            assert forall|j: int| 0 <= j < post.len() implies is_digit(#[trigger] post[j]) by {
                if j < pre.len() {
                    assert(post[j] == pre[j]);
                }
            }
        }
        if acc > bound {
            proof {
                if all_digits(body) {
                    assert(body.take(i + 1 - start) =~= post);
                    lemma_digits_value_prefix(body, i + 1 - start);
                }
            }
            return None;
        }
        i = i + 1;
    }
    assert(v@.subrange(start as int, i as int) =~= body);
    if neg {
        let x: i128 = -(acc as i128);
        Some(x as i64)
    } else if acc <= 9223372036854775807u128 {
        Some(acc as i64)
    } else {
        None
    }
}

fn find_colon_exec(v: &Vec<char>, from: usize) -> (r: usize)
    requires
        from <= v@.len(),
    ensures
        r == find_colon(v@, from as int),
{
    proof {
        lemma_find_colon(v@, from as int);
    }
    let mut i = from;
    while i < v.len() && v[i] != ':'
        invariant
            from <= i <= v@.len(),
            forall|j: int| from <= j < i ==> #[trigger] v@[j] != ':',
        decreases v@.len() - i,
    {
        i = i + 1;
    }
    proof {
        lemma_find_colon_unique(v@, from as int, i as int);
    }
    i
}

fn time_parts_exec(v: &str) -> (r: Option<(i64, i64)>)
    ensures
        match (r, time_parts(v@)) {
            (Some((h, m)), Some((sh, sm))) => h == sh && m == sm,
            (None, None) => true,
            _ => false,
        },
{
    let cs = chars_of(v);
    proof {
        lemma_find_colon(cs@, 0);
    }
    let c = find_colon_exec(&cs, 0);
    let h = match parse_int_range(&cs, 0, c) {
        Some(h) => h,
        None => return None,
    };
    if c == cs.len() {
        return None;
    }
    proof {
        lemma_find_colon(cs@, c + 1);
    }
    let e = find_colon_exec(&cs, c + 1);
    let m = match parse_int_range(&cs, c + 1, e) {
        Some(m) => m,
        None => return None,
    };
    Some((h, m))
}

/// `time_to_minutes`: the minute of the day that an "HH:MM" text names, if it names one.
pub fn time_to_minutes(v: &str) -> (r: Option<i64>)
    requires
        time_arith_ok(v@),
    ensures
        opt_int(r) == spec_time_to_minutes(v@),
{
    let (h, m) = match time_parts_exec(v) {
        Some(p) => p,
        None => return None,
    };
    if h > 23 || m > 59 {
        return None;
    }
    Some(h * 60 + m)
}

/// Whether `time_to_minutes` can read `v` without leaving `i64` (it cannot only for hugely
/// negative hours or minutes, on which the computation would overflow).
pub fn time_arith_fits(v: &str) -> (r: bool)
    ensures
        r == time_arith_ok(v@),
{
    match time_parts_exec(v) {
        Some((h, m)) => {
            if h <= 23 && m <= 59 {
                let hh = (h as i128) * 60;
                hh >= i64::MIN as i128 && hh + (m as i128) >= i64::MIN as i128
            } else {
                true
            }
        },
        None => true,
    }
}

/// `format!("{:02}:{:02}", m / 60, m % 60)`: the clock text of minute `m`.
pub fn time_text(m: i64) -> (r: String)
    ensures
        r@ == spec_time_text(m as int),
{
    let mut s = String::new();
    push_pad2(&mut s, m / 60);
    push_str(&mut s, ":");
    push_pad2(&mut s, m % 60);
    proof {
        reveal_strlit(":");
    }
    assert(s@ =~= spec_time_text(m as int));
    s
}


proof fn lemma_digit_char(d: int)
    requires
        0 <= d < 10,
    ensures
        digit_char(d) as int == 48 + d,
        is_digit(digit_char(d)),
        digit_char(d) != ':',
        digit_char(d) != '+',
        digit_char(d) != '-',
{
}

proof fn lemma_nat_digits(n: nat)
    ensures
        nat_digits(n).len() >= 1,
        all_digits(nat_digits(n)),
        digits_value(nat_digits(n)) == n,
    decreases n,
{
    if n < 10 {
        lemma_digit_char(n as int);
        assert(nat_digits(n).drop_last() =~= Seq::<char>::empty());
        assert(nat_digits(n).last() == digit_char(n as int));
        assert(digits_value(Seq::<char>::empty()) == 0);
    } else {
        lemma_nat_digits(n / 10);
        lemma_digit_char((n % 10) as int);
        let s = nat_digits(n);
        assert(s.drop_last() =~= nat_digits(n / 10));
        assert(s.last() == digit_char((n % 10) as int));
        assert(digits_value(s) == digits_value(nat_digits(n / 10)) * 10 + (n % 10));
        assert((n / 10) * 10 + n % 10 == n);
        assert forall|i: int| 0 <= i < s.len() implies is_digit(#[trigger] s[i]) by {
            if i < s.len() - 1 {
                assert(s[i] == nat_digits(n / 10)[i]);
            }
        }
    }
}

proof fn lemma_pad2_parses(n: int)
    requires
        i64::MIN <= n <= i64::MAX,
    ensures
        parse_int(spec_pad2(n)) == Some(n),
        forall|i: int| 0 <= i < spec_pad2(n).len() ==> #[trigger] spec_pad2(n)[i] != ':',
{
    let s = spec_pad2(n);
    if 0 <= n < 10 {
        lemma_digit_char(0);
        lemma_digit_char(n);
        assert(s.drop_last() =~= seq!['0']);
        assert(seq!['0'].drop_last() =~= Seq::<char>::empty());
        assert(digits_value(Seq::<char>::empty()) == 0);
        assert(digits_value(seq!['0']) == 0);
        assert(s.last() == digit_char(n));
        assert(digits_value(s) == n);
        assert(all_digits(s));
        assert(!(s[0] == '+' || s[0] == '-'));
    } else if n < 0 {
        let body = nat_digits((-n) as nat);
        lemma_nat_digits((-n) as nat);
        lemma_digit_char((body[0] as int) - 48);
        assert(s.drop_first() =~= body);
        assert(s[0] == '-');
        assert forall|i: int| 0 <= i < s.len() implies #[trigger] s[i] != ':' by {
            if i > 0 {
                assert(s[i] == body[i - 1]);
                assert(is_digit(body[i - 1]));
            }
        }
    } else {
        let body = nat_digits(n as nat);
        lemma_nat_digits(n as nat);
        assert(is_digit(body[0]));
        assert(s == body);
        assert(!(s[0] == '+' || s[0] == '-'));
        assert forall|i: int| 0 <= i < s.len() implies #[trigger] s[i] != ':' by {
            assert(is_digit(body[i]));
        }
    }
}

/// Reading back the clock text of a minute gives that minute: for every minute `m` below
/// 24:00 (negative ones included), `time_to_minutes(time_text(m)) == Some(m)`.
pub proof fn lemma_time_text_roundtrip(m: int)
    requires
        i64::MIN <= m < 1440,
    ensures
        spec_time_to_minutes(spec_time_text(m)) == Some(m),
        time_arith_ok(spec_time_text(m)),
{
    let h = tdiv(m, 60);
    let r = trem(m, 60);
    assert(-60 < r < 60 && h <= 23 && h * 60 + r == m && h * 60 >= m - 59 && i64::MIN <= h) by {
        if m >= 0 {
            assert(h == m / 60);
        } else {
            assert(h == -((-m) / 60));
        }
    }
    lemma_pad2_parses(h);
    lemma_pad2_parses(r);
    let a = spec_pad2(h);
    let b = spec_pad2(r);
    let t = spec_time_text(m);
    assert(t =~= a + seq![':'] + b);
    assert(t[a.len() as int] == ':');
    assert forall|j: int| 0 <= j < a.len() implies #[trigger] t[j] != ':' by {
        assert(t[j] == a[j]);
    }
    lemma_find_colon_unique(t, 0, a.len() as int);
    assert forall|j: int| a.len() + 1 <= j < t.len() implies #[trigger] t[j] != ':' by {
        assert(t[j] == b[j - a.len() - 1]);
    }
    lemma_find_colon_unique(t, a.len() + 1int, t.len() as int);
    assert(hour_field(t) =~= a);
    assert(t.subrange(a.len() + 1int, t.len() as int) =~= b);
    assert(h * 60 >= i64::MIN) by {
        assert(h * 60 >= m - 59);
    }
}

} // verus!
