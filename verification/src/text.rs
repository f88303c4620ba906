//! Text helpers shared by the protocol decoders and the source registry:
//! NUL-terminated name fields, hexadecimal and decimal rendering.
use vstd::prelude::*;
use vstd::slice::slice_subrange;
use vstd::string::*;

verus! {

/// The text that lossy UTF-8 decoding makes of a byte string: valid sequences
/// decode to their characters, each maximal invalid part to U+FFFD.
pub uninterp spec fn utf8_lossy(bytes: Seq<u8>) -> Seq<char>;

/// Decodes with `String::from_utf8_lossy`. Trusted: the result is the lossy
/// decoding of exactly the bytes given, nothing else is claimed of it.
#[verifier::external_body]
fn decode_utf8_lossy(bytes: &[u8]) -> (text: String)
    ensures
        text@ == utf8_lossy(bytes@),
{
    String::from_utf8_lossy(bytes).into_owned()
}

/// Appends one character with `String::push`. Trusted: the text grows by
/// exactly that character at its end.
#[verifier::external_body]
pub(crate) fn push_char(text: &mut String, c: char)
    ensures
        final(text)@ == old(text)@.push(c),
{
    text.push(c)
}

/// Index of the first zero byte at or after `from`, or the length if there is
/// none.
pub open spec fn nul_index_from(bytes: Seq<u8>, from: int) -> int
    decreases bytes.len() - from,
{
    if from < 0 || from >= bytes.len() || bytes[from] == 0 {
        from
    } else {
        nul_index_from(bytes, from + 1)
    }
}

/// The bytes of a fixed-width field up to, not including, its first zero byte.
pub open spec fn until_nul(bytes: Seq<u8>) -> Seq<u8> {
    bytes.take(nul_index_from(bytes, 0))
}

/// The text of a NUL-terminated (or full-width) name field.
pub open spec fn field_text(bytes: Seq<u8>) -> Seq<char> {
    utf8_lossy(until_nul(bytes))
}

/// The cut point of `until_nul` lies inside the field, nothing before it is
/// zero, and it is either the end or a zero byte.
pub proof fn lemma_nul_index(bytes: Seq<u8>, from: int)
    requires
        0 <= from <= bytes.len(),
    ensures
        from <= nul_index_from(bytes, from) <= bytes.len(),
        forall|i: int| from <= i < nul_index_from(bytes, from) ==> bytes[i] != 0,
        nul_index_from(bytes, from) < bytes.len() ==> bytes[nul_index_from(bytes, from)] == 0,
    decreases bytes.len() - from,
{
    if from < bytes.len() && bytes[from] != 0 {
        lemma_nul_index(bytes, from + 1);
    }
}

/// Reads a NUL-terminated string out of a fixed-width field.
pub fn extract_string(data: &[u8]) -> (text: String)
    ensures
        text@ == field_text(data@),
{
    let mut end: usize = 0;
    while end < data.len() && data[end] != 0
        invariant
            end <= data.len(),
            nul_index_from(data@, 0) == nul_index_from(data@, end as int),
        decreases data.len() - end,
    {
        end += 1;
    }
    let cut = slice_subrange(data, 0, end);
    assert(cut@ == until_nul(data@));
    decode_utf8_lossy(cut)
}

/// The hexadecimal digit of a value below sixteen, in the chosen case.
pub open spec fn hex_digit(n: u8, upper: bool) -> char {
    if n == 0 {
        '0'
    } else if n == 1 {
        '1'
    } else if n == 2 {
        '2'
    } else if n == 3 {
        '3'
    } else if n == 4 {
        '4'
    } else if n == 5 {
        '5'
    } else if n == 6 {
        '6'
    } else if n == 7 {
        '7'
    } else if n == 8 {
        '8'
    } else if n == 9 {
        '9'
    } else if n == 10 {
        if upper { 'A' } else { 'a' }
    } else if n == 11 {
        if upper { 'B' } else { 'b' }
    } else if n == 12 {
        if upper { 'C' } else { 'c' }
    } else if n == 13 {
        if upper { 'D' } else { 'd' }
    } else if n == 14 {
        if upper { 'E' } else { 'e' }
    } else {
        if upper { 'F' } else { 'f' }
    }
}

/// The two hexadecimal digits of a byte, high nibble first.
pub open spec fn hex_byte(b: u8, upper: bool) -> Seq<char> {
    seq![hex_digit(b / 16, upper), hex_digit(b % 16, upper)]
}

/// The decimal digit of a value below ten.
pub open spec fn decimal_digit(n: u8) -> char {
    hex_digit(n, false)
}

/// The decimal numeral of a byte, without leading zeros.
pub open spec fn decimal_byte(b: u8) -> Seq<char> {
    if b >= 100 {
        seq![decimal_digit(b / 100), decimal_digit((b / 10) % 10), decimal_digit(b % 10)]
    } else if b >= 10 {
        seq![decimal_digit(b / 10), decimal_digit(b % 10)]
    } else {
        seq![decimal_digit(b)]
    }
}

/// An IPv4 address in dotted-decimal notation.
pub open spec fn ipv4_text(ip: Seq<u8>) -> Seq<char>
    recommends
        ip.len() == 4,
{
    decimal_byte(ip[0]).push('.') + decimal_byte(ip[1]).push('.') + decimal_byte(ip[2]).push('.')
        + decimal_byte(ip[3])
}

/// Two digits below sixteen that are written alike are the same, and no
/// digit is written as a full stop, a dash or a colon.
pub proof fn lemma_hex_digit_injective(a: u8, b: u8, upper: bool)
    requires
        a < 16,
        b < 16,
    ensures
        hex_digit(a, upper) == hex_digit(b, upper) ==> a == b,
        hex_digit(a, upper) != '.',
        hex_digit(a, upper) != '-',
        hex_digit(a, upper) != ':',
        hex_digit(a, false) != 'r',
{
}

/// Two bytes whose hexadecimal digits are the same are the same.
pub proof fn lemma_hex_byte_injective(a: u8, b: u8, upper: bool)
    requires
        hex_byte(a, upper) == hex_byte(b, upper),
    ensures
        a == b,
{
    lemma_hex_digit_injective(a / 16, b / 16, upper);
    lemma_hex_digit_injective(a % 16, b % 16, upper);
    assert(hex_byte(a, upper)[0] == hex_byte(b, upper)[0]);
    assert(hex_byte(a, upper)[1] == hex_byte(b, upper)[1]);
}

/// Two bytes with the same decimal numeral are the same.
pub proof fn lemma_decimal_byte_injective(a: u8, b: u8)
    requires
        decimal_byte(a) == decimal_byte(b),
    ensures
        a == b,
{
    let x = decimal_byte(a);
    let y = decimal_byte(b);
    assert(x.len() == if a >= 100 {
        3nat
    } else if a >= 10 {
        2nat
    } else {
        1nat
    });
    assert(y.len() == if b >= 100 {
        3nat
    } else if b >= 10 {
        2nat
    } else {
        1nat
    });
    if a >= 100 {
        lemma_hex_digit_injective(a / 100, b / 100, false);
        lemma_hex_digit_injective((a / 10) % 10, (b / 10) % 10, false);
        lemma_hex_digit_injective(a % 10, b % 10, false);
        assert(b >= 100);
        assert(x[0] == y[0] && x[1] == y[1] && x[2] == y[2]);
        assert(a / 100 == b / 100);
        assert((a / 10) % 10 == (b / 10) % 10);
        assert(a % 10 == b % 10);
        assert(a == (a / 100) * 100 + ((a / 10) % 10) * 10 + a % 10);
        assert(b == (b / 100) * 100 + ((b / 10) % 10) * 10 + b % 10);
    } else if a >= 10 {
        lemma_hex_digit_injective(a / 10, b / 10, false);
        lemma_hex_digit_injective(a % 10, b % 10, false);
        assert(10 <= b < 100);
        assert(x[0] == y[0] && x[1] == y[1]);
        assert(a / 10 == b / 10);
        assert(a % 10 == b % 10);
        assert(a == (a / 10) * 10 + a % 10);
        assert(b == (b / 10) * 10 + b % 10);
    } else {
        assert(b < 10);
        lemma_hex_digit_injective(a, b, false);
        assert(x[0] == decimal_digit(a));
        assert(y[0] == decimal_digit(b));
        assert(hex_digit(a, false) == hex_digit(b, false));
    }
}

/// No character of a decimal numeral is a full stop.
pub proof fn lemma_numeral_has_no_stop(a: u8)
    ensures
        forall|i: int| 0 <= i < decimal_byte(a).len() ==> decimal_byte(a)[i] != '.',
{
    lemma_hex_digit_injective((a / 10) % 10, 0, false);
    lemma_hex_digit_injective(a % 10, 0, false);
    if a >= 100 {
        lemma_hex_digit_injective(a / 100, 0, false);
    } else if a >= 10 {
        lemma_hex_digit_injective(a / 10, 0, false);
    }
}

/// A text that opens with the numeral of a byte and a full stop opens with
/// the numeral of no other byte, and what follows the full stop is the rest.
pub proof fn lemma_dotted_segment(a: u8, b: u8, t: Seq<char>, u: Seq<char>)
    requires
        decimal_byte(a).push('.') + t == decimal_byte(b).push('.') + u,
    ensures
        a == b,
        t == u,
{
    let x = decimal_byte(a);
    let y = decimal_byte(b);
    let s = x.push('.') + t;
    let r = y.push('.') + u;
    assert(s[x.len() as int] == '.');
    assert(r[y.len() as int] == '.');
    lemma_numeral_has_no_stop(a);
    lemma_numeral_has_no_stop(b);
    if x.len() < y.len() {
        assert(r[x.len() as int] == y[x.len() as int]);
    }
    if y.len() < x.len() {
        assert(s[y.len() as int] == x[y.len() as int]);
    }
    assert(x.len() == y.len());
    assert(x =~= y) by {
        assert forall|i: int| 0 <= i < x.len() implies x[i] == y[i] by {
            assert(s[i] == x[i]);
            assert(r[i] == y[i]);
        }
    }
    lemma_decimal_byte_injective(a, b);
    assert(t =~= u) by {
        assert(s.len() == r.len());
        assert forall|i: int| 0 <= i < t.len() implies t[i] == u[i] by {
            assert(s[x.len() + 1 + i] == t[i]);
            assert(r[y.len() + 1 + i] == u[i]);
        }
    }
}

/// Two addresses that are written alike in dotted-decimal notation are the
/// same.
pub proof fn lemma_ipv4_text_injective(a: Seq<u8>, b: Seq<u8>)
    requires
        a.len() == 4,
        b.len() == 4,
        ipv4_text(a) == ipv4_text(b),
    ensures
        a == b,
{
    let ta = decimal_byte(a[1]).push('.') + (decimal_byte(a[2]).push('.') + decimal_byte(a[3]));
    let tb = decimal_byte(b[1]).push('.') + (decimal_byte(b[2]).push('.') + decimal_byte(b[3]));
    assert(ipv4_text(a) =~= decimal_byte(a[0]).push('.') + ta);
    assert(ipv4_text(b) =~= decimal_byte(b[0]).push('.') + tb);
    lemma_dotted_segment(a[0], b[0], ta, tb);
    lemma_dotted_segment(
        a[1],
        b[1],
        decimal_byte(a[2]).push('.') + decimal_byte(a[3]),
        decimal_byte(b[2]).push('.') + decimal_byte(b[3]),
    );
    lemma_dotted_segment(a[2], b[2], decimal_byte(a[3]), decimal_byte(b[3]));
    lemma_decimal_byte_injective(a[3], b[3]);
    assert(a =~= b);
}

/// Two texts that are equal behind the same opening are equal.
pub proof fn lemma_same_opening(p: Seq<char>, x: Seq<char>, y: Seq<char>)
    requires
        p + x == p + y,
    ensures
        x == y,
{
    assert((p + x).len() == p.len() + x.len());
    assert((p + y).len() == p.len() + y.len());
    assert forall|i: int| 0 <= i < x.len() implies x[i] == y[i] by {
        assert((p + x)[p.len() + i] == x[i]);
        assert((p + y)[p.len() + i] == y[i]);
    }
    assert(x =~= y);
}

/// Two texts that are equal and end in parts of the same length are equal
/// before those parts and in them.
pub proof fn lemma_same_ending(p: Seq<char>, h: Seq<char>, q: Seq<char>, k: Seq<char>)
    requires
        p + h == q + k,
        h.len() == k.len(),
    ensures
        p == q,
        h == k,
{
    assert((p + h).len() == p.len() + h.len());
    assert((q + k).len() == q.len() + k.len());
    assert forall|i: int| 0 <= i < p.len() implies p[i] == q[i] by {
        assert((p + h)[i] == p[i]);
        assert((q + k)[i] == q[i]);
    }
    assert forall|i: int| 0 <= i < h.len() implies h[i] == k[i] by {
        assert((p + h)[p.len() + i] == h[i]);
        assert((q + k)[q.len() + i] == k[i]);
    }
    assert(p =~= q);
    assert(h =~= k);
}

fn hex_digit_char(n: u8, upper: bool) -> (c: char)
    requires
        n < 16,
    ensures
        c == hex_digit(n, upper),
{
    match n {
        0 => '0',
        1 => '1',
        2 => '2',
        3 => '3',
        4 => '4',
        5 => '5',
        6 => '6',
        7 => '7',
        8 => '8',
        9 => '9',
        10 => if upper { 'A' } else { 'a' },
        11 => if upper { 'B' } else { 'b' },
        12 => if upper { 'C' } else { 'c' },
        13 => if upper { 'D' } else { 'd' },
        14 => if upper { 'E' } else { 'e' },
        _ => if upper { 'F' } else { 'f' },
    }
}

/// Appends the two hexadecimal digits of `b`.
pub fn push_hex_byte(text: &mut String, b: u8, upper: bool)
    ensures
        final(text)@ == old(text)@ + hex_byte(b, upper),
{
    push_char(text, hex_digit_char(b / 16, upper));
    push_char(text, hex_digit_char(b % 16, upper));
    assert(text@ =~= old(text)@ + hex_byte(b, upper));
}

/// Appends the decimal numeral of `b`.
pub fn push_decimal_byte(text: &mut String, b: u8)
    ensures
        final(text)@ == old(text)@ + decimal_byte(b),
{
    if b >= 100 {
        push_char(text, hex_digit_char(b / 100, false));
    }
    if b >= 10 {
        push_char(text, hex_digit_char((b / 10) % 10, false));
    }
    push_char(text, hex_digit_char(b % 10, false));
    assert(text@ =~= old(text)@ + decimal_byte(b));
}

/// Appends an IPv4 address in dotted-decimal notation.
pub fn push_ipv4(text: &mut String, ip: &[u8; 4])
    ensures
        final(text)@ == old(text)@ + ipv4_text(ip@),
{
    push_decimal_byte(text, ip[0]);
    push_char(text, '.');
    push_decimal_byte(text, ip[1]);
    push_char(text, '.');
    push_decimal_byte(text, ip[2]);
    push_char(text, '.');
    push_decimal_byte(text, ip[3]);
    assert(text@ =~= old(text)@ + ipv4_text(ip@));
}

/// Renders an IPv4 address in dotted-decimal notation.
pub fn ipv4_to_string(ip: &[u8; 4]) -> (text: String)
    ensures
        text@ == ipv4_text(ip@),
{
    let mut text = String::new();
    push_ipv4(&mut text, ip);
    assert(text@ =~= ipv4_text(ip@));
    text
}

} // verus!
