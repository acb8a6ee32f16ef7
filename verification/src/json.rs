//! The JSON text that rows are written in: strings with their escapes and
//! unsigned integers in decimal, as compact JSON has them.

use vstd::prelude::*;
use vstd::utf8::*;

verus! {

/// The double quote.
pub const QUOTE: u8 = 0x22;

/// The backslash.
pub const BACKSLASH: u8 = 0x5c;

/// The colon.
pub const COLON: u8 = 0x3a;

/// The comma.
pub const COMMA: u8 = 0x2c;

/// The opening brace.
pub const BRACE_OPEN: u8 = 0x7b;

/// The closing brace.
pub const BRACE_CLOSE: u8 = 0x7d;

/// The ASCII code of the lower-case hexadecimal digit of a value below sixteen.
pub open spec fn hex_code(n: int) -> u8 {
    if n < 10 {
        (0x30 + n) as u8
    } else {
        (0x57 + n) as u8
    }
}

/// What one byte of a string becomes inside a JSON string: the quote and the
/// backslash get a backslash in front, the control characters their short
/// escape where JSON has one and `\u00XX` where it has none, and every other
/// byte stands for itself.
pub open spec fn escape_byte(b: u8) -> Seq<u8> {
    if b == QUOTE {
        seq![BACKSLASH, QUOTE]
    } else if b == BACKSLASH {
        seq![BACKSLASH, BACKSLASH]
    } else if b == 0x08 {
        seq![BACKSLASH, 0x62]
    } else if b == 0x09 {
        seq![BACKSLASH, 0x74]
    } else if b == 0x0a {
        seq![BACKSLASH, 0x6e]
    } else if b == 0x0c {
        seq![BACKSLASH, 0x66]
    } else if b == 0x0d {
        seq![BACKSLASH, 0x72]
    } else if b < 0x20 {
        seq![BACKSLASH, 0x75, 0x30, 0x30, hex_code(b as int / 16), hex_code(b as int % 16)]
    } else {
        seq![b]
    }
}

/// The escaped form of a byte string, byte after byte.
pub open spec fn escape_bytes(s: Seq<u8>) -> Seq<u8>
    decreases s.len(),
{
    if s.len() == 0 {
        Seq::empty()
    } else {
        escape_bytes(s.drop_last()) + escape_byte(s.last())
    }
}

/// A string as a JSON string: its UTF-8 bytes, escaped, between two quotes.
pub open spec fn json_string(s: Seq<char>) -> Seq<u8> {
    seq![QUOTE] + escape_bytes(encode_utf8(s)) + seq![QUOTE]
}

/// A natural number in decimal, without leading zeros.
pub open spec fn decimal(n: nat) -> Seq<u8>
    decreases n,
{
    if n < 10 {
        seq![(0x30 + n) as u8]
    } else {
        decimal(n / 10).push((0x30 + n % 10) as u8)
    }
}

/// A member of a JSON object: the name as a string, a colon, the value.
pub open spec fn json_member(name: Seq<char>, value: Seq<u8>) -> Seq<u8> {
    json_string(name) + seq![COLON] + value
}

/// Whether a byte is a decimal digit.
pub open spec fn is_digit(b: u8) -> bool {
    0x30 <= b <= 0x39
}

/// Two byte strings that begin alike go on alike.
pub proof fn lemma_cancel(lead: Seq<u8>, a: Seq<u8>, b: Seq<u8>)
    requires
        lead + a == lead + b,
    ensures
        a == b,
{
    assert((lead + a).skip(lead.len() as int) =~= a);
    assert((lead + b).skip(lead.len() as int) =~= b);
}

/// A number in decimal is one digit or more, and digits only.
pub proof fn lemma_decimal_digits(n: nat)
    ensures
        decimal(n).len() >= 1,
        forall|i: int| 0 <= i < decimal(n).len() ==> is_digit(#[trigger] decimal(n)[i]),
    decreases n,
{
    if n >= 10 {
        lemma_decimal_digits(n / 10);
    }
}

/// Different numbers are different in decimal.
pub proof fn lemma_decimal_injective(m: nat, n: nat)
    requires
        decimal(m) == decimal(n),
    ensures
        m == n,
    decreases m,
{
    lemma_decimal_digits(m / 10);
    lemma_decimal_digits(n / 10);
    if m >= 10 && n >= 10 {
        let a = decimal(m / 10);
        let b = decimal(n / 10);
        let x = (0x30 + m % 10) as u8;
        let y = (0x30 + n % 10) as u8;
        assert(decimal(m) == a.push(x));
        assert(decimal(n) == b.push(y));
        assert(a.push(x).last() == x);
        assert(b.push(y).last() == y);
        assert(a.push(x).drop_last() =~= a);
        assert(b.push(y).drop_last() =~= b);
        assert(x == 0x30 + m % 10 && y == 0x30 + n % 10);
        lemma_decimal_injective(m / 10, n / 10);
        assert(m == 10 * (m / 10) + m % 10);
        assert(n == 10 * (n / 10) + n % 10);
    } else if m < 10 && n < 10 {
        assert(decimal(m)[0] == decimal(n)[0]);
        assert(decimal(m)[0] == 0x30 + m && decimal(n)[0] == 0x30 + n);
    } else if m < 10 {
        assert(decimal(n).len() >= 2);
    } else {
        assert(decimal(m).len() >= 2);
    }
}

/// A number in decimal ends where something that is no digit follows: two
/// texts that begin with a number each and go on with something else agree
/// only if the numbers agree, and what follows them.
pub proof fn lemma_decimal_delimited(m: nat, n: nat, r: Seq<u8>, s: Seq<u8>)
    requires
        decimal(m) + r == decimal(n) + s,
        r.len() > 0 && !is_digit(r[0]),
        s.len() > 0 && !is_digit(s[0]),
    ensures
        m == n,
        r == s,
{
    lemma_decimal_digits(m);
    lemma_decimal_digits(n);
    let a = decimal(m);
    let b = decimal(n);
    if a.len() < b.len() {
        assert((a + r)[a.len() as int] == r[0]);
        assert((b + s)[a.len() as int] == b[a.len() as int]);
    } else if b.len() < a.len() {
        assert((b + s)[b.len() as int] == s[0]);
        assert((a + r)[b.len() as int] == a[b.len() as int]);
    }
    assert(a =~= (a + r).take(a.len() as int));
    assert(b =~= (b + s).take(b.len() as int));
    lemma_decimal_injective(m, n);
    lemma_cancel(a, r, s);
}

/// The escaped form of a byte string begins with the escaped form of its
/// first byte.
pub proof fn lemma_escape_front(s: Seq<u8>)
    requires
        s.len() > 0,
    ensures
        escape_bytes(s) == escape_byte(s[0]) + escape_bytes(s.drop_first()),
    decreases s.len(),
{
    if s.len() == 1 {
        assert(s.drop_last() =~= Seq::<u8>::empty());
        assert(s.drop_first() =~= Seq::<u8>::empty());
        assert(escape_bytes(s) =~= escape_byte(s[0]) + escape_bytes(s.drop_first()));
    } else {
        lemma_escape_front(s.drop_last());
        assert(s.drop_last().drop_first() =~= s.drop_first().drop_last());
        assert(s.drop_last()[0] == s[0]);
        assert(s.drop_first().last() == s.last());
        assert(escape_bytes(s) =~= escape_byte(s[0]) + escape_bytes(s.drop_first()));
    }
}

/// The escaped form of a byte tells which byte it is, whatever follows it.
pub proof fn lemma_escape_byte_delimited(b: u8, c: u8, r: Seq<u8>, s: Seq<u8>)
    requires
        escape_byte(b) + r == escape_byte(c) + s,
    ensures
        b == c,
        r == s,
{
    let x = escape_byte(b) + r;
    let y = escape_byte(c) + s;
    assert(x[0] == escape_byte(b)[0]);
    assert(y[0] == escape_byte(c)[0]);
    if escape_byte(b)[0] == BACKSLASH {
        assert(x[1] == escape_byte(b)[1]);
        assert(y[1] == escape_byte(c)[1]);
        if escape_byte(b)[1] == 0x75 {
            assert(x[4] == escape_byte(b)[4] && x[5] == escape_byte(b)[5]);
            assert(y[4] == escape_byte(c)[4] && y[5] == escape_byte(c)[5]);
            assert(b as int / 16 == c as int / 16);
            assert(b as int % 16 == c as int % 16);
        }
    }
    lemma_cancel(escape_byte(b), r, s);
}

/// The escaped form of a byte string never begins with a quote.
pub proof fn lemma_escape_no_quote(s: Seq<u8>)
    requires
        s.len() > 0,
    ensures
        escape_bytes(s).len() > 0,
        escape_bytes(s)[0] != QUOTE,
{
    lemma_escape_front(s);
    assert(escape_bytes(s)[0] == escape_byte(s[0])[0]);
}

/// An escaped byte string ends where a quote follows: two texts that begin
/// with an escaped string and a quote each agree only if the strings agree,
/// and what follows the quotes.
pub proof fn lemma_escape_delimited(u: Seq<u8>, v: Seq<u8>, r: Seq<u8>, s: Seq<u8>)
    requires
        escape_bytes(u) + seq![QUOTE] + r == escape_bytes(v) + seq![QUOTE] + s,
    ensures
        u == v,
        r == s,
    decreases u.len(),
{
    let left = escape_bytes(u) + seq![QUOTE] + r;
    let right = escape_bytes(v) + seq![QUOTE] + s;
    if u.len() == 0 || v.len() == 0 {
        if u.len() > 0 {
            lemma_escape_no_quote(u);
            assert(left[0] == escape_bytes(u)[0]);
            assert(right[0] == QUOTE);
        }
        if v.len() > 0 {
            lemma_escape_no_quote(v);
            assert(right[0] == escape_bytes(v)[0]);
            assert(left[0] == QUOTE);
        }
        assert(u =~= v);
        assert(left =~= seq![QUOTE] + r);
        assert(right =~= seq![QUOTE] + s);
        lemma_cancel(seq![QUOTE], r, s);
    } else {
        lemma_escape_front(u);
        lemma_escape_front(v);
        let rest_u = escape_bytes(u.drop_first()) + seq![QUOTE] + r;
        let rest_v = escape_bytes(v.drop_first()) + seq![QUOTE] + s;
        assert(left =~= escape_byte(u[0]) + rest_u);
        assert(right =~= escape_byte(v[0]) + rest_v);
        lemma_escape_byte_delimited(u[0], v[0], rest_u, rest_v);
        lemma_escape_delimited(u.drop_first(), v.drop_first(), r, s);
        assert(u =~= seq![u[0]] + u.drop_first());
        assert(v =~= seq![v[0]] + v.drop_first());
    }
}

/// A JSON string ends with its closing quote: two texts that begin with a
/// JSON string each agree only if the strings agree, and what follows them.
pub proof fn lemma_json_string_delimited(x: Seq<char>, y: Seq<char>, r: Seq<u8>, s: Seq<u8>)
    requires
        json_string(x) + r == json_string(y) + s,
    ensures
        x == y,
        r == s,
{
    let u = encode_utf8(x);
    let v = encode_utf8(y);
    let left = escape_bytes(u) + seq![QUOTE] + r;
    let right = escape_bytes(v) + seq![QUOTE] + s;
    assert(json_string(x) + r =~= seq![QUOTE] + left);
    assert(json_string(y) + s =~= seq![QUOTE] + right);
    lemma_cancel(seq![QUOTE], left, right);
    lemma_escape_delimited(u, v, r, s);
    encode_utf8_decode_utf8(x);
    encode_utf8_decode_utf8(y);
}

/// The ASCII code of the hexadecimal digit of a value below sixteen.
fn hex_code_of(n: u8) -> (c: u8)
    requires
        n < 16,
    ensures
        c == hex_code(n as int),
{
    if n < 10 {
        0x30 + n
    } else {
        0x57 + n
    }
}

/// Appends what one byte of a string becomes inside a JSON string.
fn push_escaped(out: &mut Vec<u8>, b: u8)
    ensures
        final(out)@ == old(out)@ + escape_byte(b),
{
    let ghost before = out@;
    if b == QUOTE || b == BACKSLASH {
        out.push(BACKSLASH);
        out.push(b);
    } else if b == 0x08 {
        out.push(BACKSLASH);
        out.push(0x62);
    } else if b == 0x09 {
        out.push(BACKSLASH);
        out.push(0x74);
    } else if b == 0x0a {
        out.push(BACKSLASH);
        out.push(0x6e);
    } else if b == 0x0c {
        out.push(BACKSLASH);
        out.push(0x66);
    } else if b == 0x0d {
        out.push(BACKSLASH);
        out.push(0x72);
    } else if b < 0x20 {
        out.push(BACKSLASH);
        out.push(0x75);
        out.push(0x30);
        out.push(0x30);
        out.push(hex_code_of(b / 16));
        out.push(hex_code_of(b % 16));
    } else {
        out.push(b);
    }
    assert(out@ =~= before + escape_byte(b));
}

/// Appends a string to `out` as a JSON string.
pub fn write_json_string(out: &mut Vec<u8>, s: &str)
    ensures
        final(out)@ == old(out)@ + json_string(s@),
{
    let ghost before = out@;
    let bytes = s.as_bytes();
    out.push(QUOTE);
    let mut i: usize = 0;
    while i < bytes.len()
        invariant
            i <= bytes.len(),
            out@ == before.push(QUOTE) + escape_bytes(bytes@.take(i as int)),
        decreases bytes.len() - i,
    {
        push_escaped(out, bytes[i]);
        proof {
            let next = bytes@.take(i + 1);
            assert(next.drop_last() =~= bytes@.take(i as int));
            assert(next.last() == bytes@[i as int]);
            assert(out@ =~= before.push(QUOTE) + escape_bytes(next));
        }
        i = i + 1;
    }
    out.push(QUOTE);
    proof {
        assert(bytes@.take(i as int) =~= bytes@);
        assert(out@ =~= before + json_string(s@));
    }
}

/// Appends an unsigned integer to `out` in decimal.
pub fn write_decimal(out: &mut Vec<u8>, n: u64)
    ensures
        final(out)@ == old(out)@ + decimal(n as nat),
{
    let ghost before = out@;
    // The digits, least significant first.
    let mut digits: Vec<u8> = Vec::new();
    let mut m: u64 = n;
    while m >= 10
        invariant
            decimal(n as nat) == decimal(m as nat) + digits@.reverse(),
        decreases m,
    {
        let d: u8 = 0x30 + (m % 10) as u8;
        let ghost earlier = digits@;
        digits.push(d);
        proof {
            assert(digits@.reverse() =~= seq![d] + earlier.reverse());
            assert(decimal(m as nat) == decimal((m / 10) as nat).push(d));
            assert(decimal((m / 10) as nat).push(d) + earlier.reverse() =~= decimal(
                (m / 10) as nat,
            ) + digits@.reverse());
        }
        m = m / 10;
    }
    let last: u8 = 0x30 + m as u8;
    let ghost earlier = digits@;
    digits.push(last);
    proof {
        assert(digits@.reverse() =~= seq![last] + earlier.reverse());
        assert(decimal(n as nat) =~= digits@.reverse());
    }
    let mut i: usize = digits.len();
    while i > 0
        invariant
            i <= digits.len(),
            out@ == before + digits@.reverse().take(digits.len() - i),
        decreases i,
    {
        i = i - 1;
        out.push(digits[i]);
        proof {
            let rev = digits@.reverse();
            let k = digits.len() - i;
            assert(rev[k - 1] == digits@[i as int]);
            assert(rev.take(k) =~= rev.take(k - 1).push(rev[k - 1]));
            assert(out@ =~= before + rev.take(k));
        }
    }
    proof {
        assert(digits@.reverse().take(digits.len() as int) =~= digits@.reverse());
    }
}

} // verus!
