//! Text primitives shared by the parameter codecs and the SQL row reader:
//! character counts, string equality and ordering by UTF-8 bytes, decimal
//! rendering and parsing of integers, UTF-8 checks and white-space trimming.
use vstd::prelude::*;
use vstd::string::StrSliceExecFns;
use vstd::utf8::*;

verus! {

broadcast use vstd::slice::group_slice_axioms;

/// Every character takes at least one byte in UTF-8.
pub proof fn lemma_encode_utf8_len(chars: Seq<char>)
    ensures
        chars.len() <= encode_utf8(chars).len(),
    decreases chars.len(),
{
    if chars.len() > 0 {
        lemma_encode_utf8_len(chars.drop_first());
    }
}

/// UTF-8 encoding is injective.
pub proof fn lemma_encode_utf8_injective(a: Seq<char>, b: Seq<char>)
    requires
        encode_utf8(a) == encode_utf8(b),
    ensures
        a == b,
{
    encode_utf8_decode_utf8(a);
    encode_utf8_decode_utf8(b);
}

/// The number of characters of `s`.
pub fn char_len(s: &str) -> (n: usize)
    ensures
        n == s@.len(),
{
    let bytes = s.as_bytes();
    let _byte_len = bytes.len();
    proof {
        lemma_encode_utf8_len(s@);
    }
    let mut n: usize = 0;
    for c in it: s.chars()
        invariant
            n == it.index(),
            it.seq() == s@,
            s@.len() <= bytes@.len(),
            bytes@.len() <= usize::MAX,
    {
        n = n + 1;
    }
    n
}

/// Strict lexicographic order on byte strings (a proper prefix comes first).
pub open spec fn bytes_lt(a: Seq<u8>, b: Seq<u8>) -> bool
    decreases a.len(),
{
    if a.len() == 0 {
        b.len() > 0
    } else if b.len() == 0 {
        false
    } else if a[0] != b[0] {
        a[0] < b[0]
    } else {
        bytes_lt(a.drop_first(), b.drop_first())
    }
}

/// Strict order on keys: the order of their UTF-8 bytes, as `str` orders.
pub open spec fn key_lt(a: Seq<char>, b: Seq<char>) -> bool {
    bytes_lt(encode_utf8(a), encode_utf8(b))
}

pub proof fn lemma_bytes_lt_irreflexive(a: Seq<u8>)
    ensures
        !bytes_lt(a, a),
    decreases a.len(),
{
    if a.len() > 0 {
        lemma_bytes_lt_irreflexive(a.drop_first());
    }
}

pub proof fn lemma_bytes_lt_transitive(a: Seq<u8>, b: Seq<u8>, c: Seq<u8>)
    requires
        bytes_lt(a, b),
        bytes_lt(b, c),
    ensures
        bytes_lt(a, c),
    decreases a.len(),
{
    if a.len() > 0 && b.len() > 0 && c.len() > 0 && a[0] == b[0] && b[0] == c[0] {
        lemma_bytes_lt_transitive(a.drop_first(), b.drop_first(), c.drop_first());
    }
}

pub proof fn lemma_bytes_lt_total(a: Seq<u8>, b: Seq<u8>)
    ensures
        bytes_lt(a, b) || bytes_lt(b, a) || a == b,
    decreases a.len(),
{
    if a.len() > 0 && b.len() > 0 && a[0] == b[0] {
        lemma_bytes_lt_total(a.drop_first(), b.drop_first());
        if a.drop_first() == b.drop_first() {
            assert(a =~= seq![a[0]] + a.drop_first());
            assert(b =~= seq![b[0]] + b.drop_first());
        }
    } else if a.len() == 0 && b.len() == 0 {
        assert(a =~= b);
    }
}

/// `key_lt` is a strict total order.
pub proof fn lemma_key_order(a: Seq<char>, b: Seq<char>, c: Seq<char>)
    ensures
        !key_lt(a, a),
        key_lt(a, b) && key_lt(b, c) ==> key_lt(a, c),
        key_lt(a, b) || key_lt(b, a) || a == b,
{
    lemma_bytes_lt_irreflexive(encode_utf8(a));
    if key_lt(a, b) && key_lt(b, c) {
        lemma_bytes_lt_transitive(encode_utf8(a), encode_utf8(b), encode_utf8(c));
    }
    lemma_bytes_lt_total(encode_utf8(a), encode_utf8(b));
    if encode_utf8(a) == encode_utf8(b) {
        lemma_encode_utf8_injective(a, b);
    }
}

/// Compares two strings by their UTF-8 bytes: true when `a` orders before `b`.
pub fn str_lt(a: &str, b: &str) -> (r: bool)
    ensures
        r == key_lt(a@, b@),
{
    let x = a.as_bytes();
    let y = b.as_bytes();
    let mut i: usize = 0;
    assert(x@.skip(0) =~= x@);
    assert(y@.skip(0) =~= y@);
    while i < x.len() && i < y.len()
        invariant
            x@ == encode_utf8(a@),
            y@ == encode_utf8(b@),
            i <= x@.len(),
            i <= y@.len(),
            bytes_lt(x@, y@) == bytes_lt(x@.skip(i as int), y@.skip(i as int)),
        decreases x@.len() - i,
    {
        if x[i] != y[i] {
            return x[i] < y[i];
        }
        assert(x@.skip(i as int).drop_first() =~= x@.skip(i + 1));
        assert(y@.skip(i as int).drop_first() =~= y@.skip(i + 1));
        i = i + 1;
    }
    i < y.len()
}

/// String equality by content.
pub fn str_eq(a: &str, b: &str) -> (r: bool)
    ensures
        r == (a@ == b@),
{
    proof {
        lemma_key_order(a@, b@, b@);
        lemma_key_order(b@, a@, a@);
    }
    !str_lt(a, b) && !str_lt(b, a)
}

/// Appends one character (`String::push`).
#[verifier::external_body]
pub(crate) fn push_char(s: &mut String, c: char)
    ensures
        final(s)@ == old(s)@.push(c),
{
    s.push(c);
}

/// The decimal digit character for `d < 10`.
pub open spec fn digit_char(d: nat) -> char {
    ('0' as u32 + d) as char
}

/// Decimal digits of a natural number, most significant first, no leading zeros.
pub open spec fn decimal(n: nat) -> Seq<char>
    decreases n,
{
    if n < 10 {
        seq![digit_char(n)]
    } else {
        decimal(n / 10).push(digit_char(n % 10))
    }
}

/// Decimal rendering of an integer, with a leading `-` when negative.
pub open spec fn signed_decimal(n: int) -> Seq<char> {
    if n < 0 {
        seq!['-'] + decimal((-n) as nat)
    } else {
        decimal(n as nat)
    }
}

fn push_decimal(s: &mut String, n: u64)
    ensures
        final(s)@ == old(s)@ + decimal(n as nat),
    decreases n,
{
    if n >= 10 {
        push_decimal(s, n / 10);
    }
    let d = (n % 10) as u8;
    let c = (48u8 + d) as char;
    assert(c == digit_char((n % 10) as nat));
    push_char(s, c);
}

/// Appends the decimal rendering of `n`.
pub fn push_u64(s: &mut String, n: u64)
    ensures
        final(s)@ == old(s)@ + decimal(n as nat),
{
    push_decimal(s, n);
}

/// Appends the decimal rendering of `n`, with `-` for negative values.
pub fn push_i64(s: &mut String, n: i64)
    ensures
        final(s)@ == old(s)@ + signed_decimal(n as int),
{
    if n < 0 {
        push_char(s, '-');
        let m: u64 = if n == i64::MIN {
            9223372036854775808u64
        } else {
            (-n) as u64
        };
        push_decimal(s, m);
        assert(s@ =~= old(s)@ + signed_decimal(n as int));
    } else {
        push_decimal(s, n as u64);
    }
}

/// The text that `bytes` encode, or `None` when they are not valid UTF-8
/// (`std::str::from_utf8`). The contract claims that std accepts exactly the
/// byte strings vstd calls valid UTF-8, and decodes them as vstd does.
#[verifier::external_body]
pub(crate) fn utf8_text(bytes: &[u8]) -> (r: Option<&str>)
    ensures
        r is Some <==> valid_utf8(bytes@),
        r matches Some(t) ==> t@ == decode_utf8(bytes@),
{
    std::str::from_utf8(bytes).ok()
}

/// Unicode's `White_Space` property, which `char::is_whitespace` tests.
pub open spec fn is_white_space(c: char) -> bool {
    let u = c as u32;
    ||| 0x9 <= u <= 0xd
    ||| u == 0x20
    ||| u == 0x85
    ||| u == 0xa0
    ||| u == 0x1680
    ||| 0x2000 <= u <= 0x200a
    ||| u == 0x2028
    ||| u == 0x2029
    ||| u == 0x202f
    ||| u == 0x205f
    ||| u == 0x3000
}

/// `s` without its leading white space.
pub open spec fn trim_start_white(s: Seq<char>) -> Seq<char>
    decreases s.len(),
{
    if s.len() > 0 && is_white_space(s[0]) {
        trim_start_white(s.drop_first())
    } else {
        s
    }
}

/// `s` without its trailing white space.
pub open spec fn trim_end_white(s: Seq<char>) -> Seq<char>
    decreases s.len(),
{
    if s.len() > 0 && is_white_space(s.last()) {
        trim_end_white(s.drop_last())
    } else {
        s
    }
}

/// `s` without leading and trailing white space.
pub open spec fn trimmed(s: Seq<char>) -> Seq<char> {
    trim_end_white(trim_start_white(s))
}

fn is_white(c: char) -> (r: bool)
    ensures
        r == is_white_space(c),
{
    let u = c as u32;
    (0x9 <= u && u <= 0xd) || u == 0x20 || u == 0x85 || u == 0xa0 || u == 0x1680 || (0x2000 <= u && u
        <= 0x200a) || u == 0x2028 || u == 0x2029 || u == 0x202f || u == 0x205f || u == 0x3000
}

/// `s` with leading and trailing white space removed, as `str::trim` does:
/// white space is what has Unicode's `White_Space` property.
pub fn trim_white(s: &str) -> (r: &str)
    ensures
        r@ == trimmed(s@),
{
    let n = s.unicode_len();
    let mut a: usize = 0;
    assert(s@.subrange(0, n as int) =~= s@);
    loop
        invariant
            a <= n,
            n == s@.len(),
            trim_start_white(s@) == trim_start_white(s@.subrange(a as int, n as int)),
        ensures
            a <= n,
            trim_start_white(s@) == s@.subrange(a as int, n as int),
        decreases n - a,
    {
        if a == n {
            break;
        }
        let c = s.get_char(a);
        if !is_white(c) {
            break;
        }
        assert(s@.subrange(a as int, n as int).drop_first() =~= s@.subrange(a + 1, n as int));
        a = a + 1;
    }
    let mut b: usize = n;
    loop
        invariant
            a <= b <= n,
            n == s@.len(),
            trimmed(s@) == trim_end_white(s@.subrange(a as int, b as int)),
        ensures
            a <= b <= n,
            trimmed(s@) == s@.subrange(a as int, b as int),
        decreases b - a,
    {
        if b == a {
            break;
        }
        let c = s.get_char(b - 1);
        if !is_white(c) {
            break;
        }
        assert(s@.subrange(a as int, b as int).drop_last() =~= s@.subrange(a as int, b - 1));
        b = b - 1;
    }
    s.substring_char(a, b)
}

/// An ASCII decimal digit.
pub open spec fn is_digit(c: char) -> bool {
    '0' <= c <= '9'
}

/// The value of a string of decimal digits, most significant first.
pub open spec fn digits_value(d: Seq<char>) -> int
    decreases d.len(),
{
    if d.len() == 0 {
        0
    } else {
        digits_value(d.drop_last()) * 10 + (d.last() as int - '0' as int)
    }
}

/// Whether `s` starts with `-`, and its digits after an optional sign.
pub open spec fn sign_and_digits(s: Seq<char>) -> (bool, Seq<char>) {
    if s.len() > 0 && s[0] == '-' {
        (true, s.drop_first())
    } else if s.len() > 0 && s[0] == '+' {
        (false, s.drop_first())
    } else {
        (false, s)
    }
}

/// An `i64` written in decimal: an optional `+` or `-`, then one or more
/// ASCII digits and nothing else, in range (as `i64::from_str` reads it).
pub open spec fn parsed_i64(s: Seq<char>) -> Option<i64> {
    let (neg, d) = sign_and_digits(s);
    let v = if neg {
        -digits_value(d)
    } else {
        digits_value(d)
    };
    if d.len() > 0 && (forall|i: int| 0 <= i < d.len() ==> is_digit(#[trigger] d[i])) && i64::MIN <= v
        <= i64::MAX {
        Some(v as i64)
    } else {
        None
    }
}

proof fn lemma_digits_value_grows(d: Seq<char>, k: int)
    requires
        0 <= k <= d.len(),
        forall|i: int| 0 <= i < d.len() ==> is_digit(#[trigger] d[i]),
    ensures
        digits_value(d.take(k)) <= digits_value(d),
        0 <= digits_value(d),
    decreases d.len(),
{
    if d.len() > 0 {
        let p = d.drop_last();
        assert(forall|i: int| 0 <= i < p.len() ==> is_digit(#[trigger] p[i]) <== d[i] == p[i]);
        if k == d.len() {
            assert(d.take(k) =~= d);
            lemma_digits_value_grows(p, 0);
        } else {
            assert(d.take(k) =~= p.take(k));
            lemma_digits_value_grows(p, k);
        }
        assert(is_digit(d.last()));
    } else {
        assert(d.take(k) =~= d);
    }
}

/// Reads an `i64` written in decimal: an optional sign, then digits only.
pub fn parse_i64(s: &str) -> (r: Option<i64>)
    ensures
        r == parsed_i64(s@),
{
    let mut cs: Vec<char> = Vec::new();
    for c in it: s.chars()
        invariant
            cs@ == it.seq().take(it.index()),
            it.seq() == s@,
    {
        cs.push(c);
        proof {
            assert(it.seq().take(it.index() + 1) =~= it.seq().take(it.index() as int).push(c));
        }
    }
    proof {
        assert(cs@ =~= s@);
    }
    let ghost sd = sign_and_digits(s@);
    let mut neg = false;
    let mut start: usize = 0;
    if cs.len() > 0 && cs[0] == '-' {
        neg = true;
        start = 1;
    } else if cs.len() > 0 && cs[0] == '+' {
        start = 1;
    }
    let ghost d = sd.1;
    assert(d =~= cs@.skip(start as int));
    assert(neg == sd.0);
    if start >= cs.len() {
        return None;
    }
    let limit: u128 = 9223372036854775808u128;
    let mut mag: u128 = 0;
    let mut i: usize = start;
    while i < cs.len()
        invariant
            start <= i <= cs@.len(),
            cs@ == s@,
            d == sign_and_digits(s@).1,
            neg == sign_and_digits(s@).0,
            limit == 9223372036854775808u128,
            d == cs@.skip(start as int),
            mag == digits_value(d.take(i - start)),
            mag <= limit,
            forall|j: int| 0 <= j < i - start ==> is_digit(#[trigger] d[j]),
        decreases cs@.len() - i,
    {
        let c = cs[i];
        assert(c == d[i - start]);
        if !('0' <= c && c <= '9') {
            assert(!is_digit(d[i - start]));
            return None;
        }
        let dv = (c as u32 - '0' as u32) as u128;
        assert(dv <= 9);
        proof {
            assert(d.take(i - start + 1).drop_last() =~= d.take(i - start));
            assert(d.take(i - start + 1).last() == c);
        }
        assert(mag * 10 <= limit * 10) by (nonlinear_arith)
            requires
                mag <= limit,
        ;
        let next = mag * 10 + dv;
        if next > limit {
            proof {
                let k = (i - start + 1) as int;
                if forall|j: int| 0 <= j < d.len() ==> is_digit(#[trigger] d[j]) {
                    lemma_digits_value_grows(d, k);
                }
            }
            return None;
        }
        mag = next;
        i = i + 1;
    }
    proof {
        assert(d.take(i - start) =~= d);
    }
    if neg {
        if mag == limit {
            Some(i64::MIN)
        } else {
            Some(-(mag as i64))
        }
    } else {
        if mag == limit {
            None
        } else {
            Some(mag as i64)
        }
    }
}

proof fn lemma_decimal_digits(n: nat)
    ensures
        decimal(n).len() > 0,
        forall|i: int| 0 <= i < decimal(n).len() ==> is_digit(#[trigger] decimal(n)[i]),
        digits_value(decimal(n)) == n,
    decreases n,
{
    let c = digit_char(n % 10);
    assert(c as int == '0' as int + n % 10);
    if n < 10 {
        assert(decimal(n) =~= seq![c]);
        assert(seq![c].drop_last() =~= Seq::<char>::empty());
        assert(digits_value(seq![c]) == digits_value(Seq::<char>::empty()) * 10 + (c as int - '0' as int));
    } else {
        lemma_decimal_digits(n / 10);
        let d = decimal(n / 10);
        assert(decimal(n) == d.push(c));
        assert(d.push(c).drop_last() =~= d);
        assert(digits_value(d.push(c)) == digits_value(d) * 10 + (c as int - '0' as int));
        assert(n == (n / 10) * 10 + n % 10) by (nonlinear_arith);
        assert forall|i: int| 0 <= i < decimal(n).len() implies is_digit(#[trigger] decimal(n)[i]) by {
            if i < d.len() {
                assert(decimal(n)[i] == d[i]);
            }
        }
    }
}

/// Reading back the decimal rendering of any `i64` gives that integer.
pub proof fn law_parse_rendered_i64(n: i64)
    ensures
        parsed_i64(signed_decimal(n as int)) == Some(n),
{
    if n < 0 {
        let m = (-(n as int)) as nat;
        lemma_decimal_digits(m);
        let s = signed_decimal(n as int);
        assert(s == seq!['-'] + decimal(m));
        assert(s.drop_first() =~= decimal(m));
        assert(s[0] == '-');
    } else {
        let m = n as nat;
        lemma_decimal_digits(m);
        let s = signed_decimal(n as int);
        assert(is_digit(s[0]));
    }
}

} // verus!
