//! Textual descriptions: decimal and hexadecimal renderings of numbers and
//! hashes, and the one-line descriptions of images, QR payloads and
//! rectangles.

use vstd::prelude::*;

use crate::geometry::IntRect;
use crate::image::{channel_name, channel_name_spec, depth_name, depth_name_spec, ImageInfo};
use crate::qr::QRData;

verus! {

/// Trusted, not proved: the standard library's `String::push` appends the
/// character at the end of the string and leaves the characters before it
/// as they were.
pub assume_specification[ String::push ](s: &mut String, ch: char)
    ensures
        final(s)@ == old(s)@.push(ch),
;

/// The character of a decimal digit `d` (`0 <= d < 10`).
pub open spec fn digit_char(d: int) -> char {
    ((48 + d) as u32) as char
}

/// The decimal rendering of a natural number, without sign or leading zeros.
pub open spec fn decimal(n: nat) -> Seq<char>
    decreases n,
{
    if n < 10 {
        seq![digit_char(n as int)]
    } else {
        decimal(n / 10).push(digit_char((n % 10) as int))
    }
}

/// A decimal digit character, `'0'` to `'9'`.
pub open spec fn is_decimal_digit(c: char) -> bool {
    '0' <= c && c <= '9'
}

/// The value of a decimal digit character.
pub open spec fn decimal_digit_value(c: char) -> int {
    c as int - '0' as int
}

/// The number a string of decimal digits denotes, most significant first.
pub open spec fn numeral_value(digits: Seq<char>) -> int
    decreases digits.len(),
{
    if digits.len() == 0 {
        0
    } else {
        numeral_value(digits.drop_last()) * 10 + decimal_digit_value(digits.last())
    }
}

/// A standard decimal numeral: at least one digit, only digits, and no
/// leading zero unless the numeral is `0` itself.
pub open spec fn is_standard_numeral(digits: Seq<char>) -> bool {
    &&& digits.len() >= 1
    &&& forall|i: int| 0 <= i < digits.len() ==> is_decimal_digit(#[trigger] digits[i])
    &&& digits[0] == '0' ==> digits.len() == 1
}

/// The decimal rendering of `n` is the standard base-10 numeral of `n`: it
/// consists of decimal digits only, has no leading zero, denotes `n`, and
/// has one digit exactly for the numbers below ten.
pub proof fn law_decimal_is_numeral(n: nat)
    ensures
        is_standard_numeral(decimal(n)),
        numeral_value(decimal(n)) == n,
        decimal(n).len() == 1 <==> n < 10,
    decreases n,
{
    let last = (n % 10) as int;
    assert(decimal_digit_value(digit_char(last)) == last);
    assert(is_decimal_digit(digit_char(last)));
    if n < 10 {
        assert(decimal(n).drop_last() =~= Seq::<char>::empty());
        assert(last == n);
        assert(numeral_value(decimal(n)) == numeral_value(decimal(n).drop_last()) * 10
            + decimal_digit_value(decimal(n).last()));
    } else {
        law_decimal_is_numeral(n / 10);
        let d = decimal(n / 10);
        let e = decimal(n);
        assert(e.drop_last() =~= d);
        assert forall|i: int| 0 <= i < e.len() implies is_decimal_digit(#[trigger] e[i]) by {
            if i < d.len() {
                assert(e[i] == d[i]);
            }
        }
        assert(e[0] == d[0]);
        assert(e.last() == digit_char(last));
        assert(n == (n / 10) * 10 + last);
        assert(numeral_value(e) == numeral_value(e.drop_last()) * 10 + decimal_digit_value(
            e.last(),
        ));
        if d[0] == '0' {
            assert(numeral_value(d) == 0) by {
                assert(d.drop_last() =~= Seq::<char>::empty());
            }
        }
    }
}

/// Appends the decimal rendering of `n` to `s`.
pub fn push_decimal(s: &mut String, n: u64)
    ensures
        final(s)@ == old(s)@ + decimal(n as nat),
        final(s)@.subrange(0, old(s)@.len() as int) == old(s)@,
        is_standard_numeral(final(s)@.skip(old(s)@.len() as int)),
        numeral_value(final(s)@.skip(old(s)@.len() as int)) == n,
    decreases n,
{
    if n >= 10 {
        push_decimal(s, n / 10);
    }
    let d: u8 = (n % 10) as u8;
    s.push((48u8 + d) as char);
    proof {
        assert(((48u8 + d) as char) == digit_char((n % 10) as int));
        law_decimal_is_numeral(n as nat);
        assert(s@.skip(old(s)@.len() as int) =~= decimal(n as nat));
        assert(s@.subrange(0, old(s)@.len() as int) =~= old(s)@);
    }
}

/// Appends the decimal rendering of `v` to `s`, with a leading `-` when `v`
/// is negative.
pub fn push_signed_decimal(s: &mut String, v: i64)
    ensures
        final(s)@ == old(s)@ + signed_decimal(v as int),
        final(s)@.subrange(0, old(s)@.len() as int) == old(s)@,
        v >= 0 ==> is_standard_numeral(final(s)@.skip(old(s)@.len() as int)),
        v >= 0 ==> numeral_value(final(s)@.skip(old(s)@.len() as int)) == v,
        v < 0 ==> final(s)@[old(s)@.len() as int] == '-',
        v < 0 ==> is_standard_numeral(final(s)@.skip(old(s)@.len() as int + 1)),
        v < 0 ==> numeral_value(final(s)@.skip(old(s)@.len() as int + 1)) == -v,
{
    proof {
        law_signed_decimal(v as int);
    }
    if v < 0 {
        s.push('-');
        let magnitude: u64 = (0i128 - (v as i128)) as u64;
        push_decimal(s, magnitude);
        proof {
            assert(old(s)@.push('-') + decimal(magnitude as nat) =~= old(s)@ + (seq!['-'] + decimal((-v) as nat)));
            assert(s@.skip(old(s)@.len() as int + 1) =~= decimal(magnitude as nat));
            assert(s@.subrange(0, old(s)@.len() as int) =~= old(s)@);
        }
    } else {
        push_decimal(s, v as u64);
    }
}

/// The rendering of a signed integer is its sign, `-` for a negative
/// number and nothing otherwise, followed by the standard base-10 numeral
/// of its magnitude.
pub proof fn law_signed_decimal(v: int)
    ensures
        v >= 0 ==> is_standard_numeral(signed_decimal(v)),
        v >= 0 ==> numeral_value(signed_decimal(v)) == v,
        v < 0 ==> signed_decimal(v)[0] == '-',
        v < 0 ==> is_standard_numeral(signed_decimal(v).skip(1)),
        v < 0 ==> numeral_value(signed_decimal(v).skip(1)) == -v,
{
    if v < 0 {
        law_decimal_is_numeral((-v) as nat);
        assert(signed_decimal(v).skip(1) =~= decimal((-v) as nat));
    } else {
        law_decimal_is_numeral(v as nat);
    }
}

/// The decimal rendering of an integer, with a leading `-` when it is negative.
pub open spec fn signed_decimal(v: int) -> Seq<char> {
    if v < 0 {
        seq!['-'] + decimal((-v) as nat)
    } else {
        decimal(v as nat)
    }
}

/// The lower-case hexadecimal digit of `d` (`0 <= d < 16`).
pub open spec fn hex_digit(d: int) -> char {
    if d < 10 {
        digit_char(d)
    } else {
        ((87 + d) as u32) as char
    }
}

/// Two lower-case hexadecimal digits for one byte, high nibble first.
pub open spec fn hex_byte(b: u8) -> Seq<char> {
    seq![hex_digit(b as int / 16), hex_digit(b as int % 16)]
}

/// The lower-case hexadecimal rendering of a byte sequence, two digits per
/// byte.
pub open spec fn hex(bytes: Seq<u8>) -> Seq<char>
    decreases bytes.len(),
{
    if bytes.len() == 0 {
        seq![]
    } else {
        hex(bytes.drop_last()) + hex_byte(bytes.last())
    }
}

/// A lower-case hexadecimal digit character: `'0'` to `'9'` or `'a'` to
/// `'f'`.
pub open spec fn is_hex_char(c: char) -> bool {
    ('0' <= c && c <= '9') || ('a' <= c && c <= 'f')
}

/// The value of a lower-case hexadecimal digit character.
pub open spec fn hex_char_value(c: char) -> int {
    if c <= '9' {
        c as int - '0' as int
    } else {
        c as int - 'a' as int + 10
    }
}

/// Each value below sixteen is rendered as the lower-case hexadecimal digit
/// that denotes it; the values below ten as their decimal digit.
pub proof fn law_hex_digit(d: int)
    requires
        0 <= d < 16,
    ensures
        is_hex_char(hex_digit(d)),
        hex_char_value(hex_digit(d)) == d,
        d < 10 ==> is_decimal_digit(hex_digit(d)) && decimal_digit_value(hex_digit(d)) == d,
        d >= 10 ==> 'a' <= hex_digit(d) && hex_digit(d) <= 'f',
{
}

/// The rendering of a byte sequence holds lower-case hexadecimal digits
/// only, two per byte, and the two digits at positions `2k` and `2k + 1`
/// denote byte `k`, high nibble first.
pub proof fn law_hex_decodes(bytes: Seq<u8>)
    ensures
        hex(bytes).len() == 2 * bytes.len(),
        forall|i: int| 0 <= i < hex(bytes).len() ==> is_hex_char(#[trigger] hex(bytes)[i]),
        forall|k: int|
            0 <= k < bytes.len() ==> hex_char_value(#[trigger] hex(bytes)[2 * k]) * 16
                + hex_char_value(hex(bytes)[2 * k + 1]) == bytes[k],
{
    lemma_hex_len(bytes);
    assert forall|k: int| 0 <= k < bytes.len() implies hex_char_value(
        #[trigger] hex(bytes)[2 * k],
    ) * 16 + hex_char_value(hex(bytes)[2 * k + 1]) == bytes[k] by {
        lemma_hex_index(bytes, k);
        law_hex_digit(bytes[k] as int / 16);
        law_hex_digit(bytes[k] as int % 16);
    }
    assert forall|i: int| 0 <= i < hex(bytes).len() implies is_hex_char(#[trigger] hex(bytes)[i]) by {
        let k = i / 2;
        lemma_hex_index(bytes, k);
        law_hex_digit(bytes[k] as int / 16);
        law_hex_digit(bytes[k] as int % 16);
        if i % 2 == 0 {
            assert(i == 2 * k);
        } else {
            assert(i == 2 * k + 1);
        }
    }
}

fn hex_digit_char(d: u8) -> (c: char)
    requires
        d < 16,
    ensures
        c == hex_digit(d as int),
{
    if d < 10 {
        (48u8 + d) as char
    } else {
        (87u8 + d) as char
    }
}

/// Appends the hexadecimal rendering of the first `k` bytes of `bytes`.
fn push_hex_prefix(r: &mut String, bytes: &Vec<u8>, k: usize)
    requires
        k <= bytes@.len(),
    ensures
        final(r)@ == old(r)@ + hex(bytes@.take(k as int)),
{
    let ghost start = r@;
    for i in 0..k
        invariant
            k <= bytes@.len(),
            r@ == start + hex(bytes@.take(i as int)),
    {
        let b = bytes[i];
        r.push(hex_digit_char(b / 16));
        r.push(hex_digit_char(b % 16));
        proof {
            assert(bytes@.take(i + 1).drop_last() =~= bytes@.take(i as int));
            assert(bytes@.take(i + 1).last() == b);
            assert(start + hex(bytes@.take(i as int)) + hex_byte(b) =~= start + hex(bytes@.take(i + 1)));
        }
    }
}

/// Renders a hash as lower-case hexadecimal, two digits per byte.
pub fn pretty_hash(hash: &Vec<u8>) -> (r: String)
    ensures
        r@ == hex(hash@),
        r@.len() == 2 * hash@.len(),
        forall|i: int| 0 <= i < r@.len() ==> is_hex_char(#[trigger] r@[i]),
        forall|k: int|
            0 <= k < hash@.len() ==> hex_char_value(#[trigger] r@[2 * k]) * 16 + hex_char_value(
                r@[2 * k + 1],
            ) == hash@[k],
{
    proof {
        law_hex_decodes(hash@);
    }
    let mut r = String::new();
    push_hex_prefix(&mut r, hash, hash.len());
    proof {
        assert(hash@.take(hash@.len() as int) =~= hash@);
        assert(Seq::<char>::empty() + hex(hash@) =~= hex(hash@));
    }
    r
}

/// The hexadecimal rendering has two digits per byte.
pub proof fn lemma_hex_len(bytes: Seq<u8>)
    ensures
        hex(bytes).len() == 2 * bytes.len(),
    decreases bytes.len(),
{
    if bytes.len() > 0 {
        lemma_hex_len(bytes.drop_last());
    }
}

/// Byte `k` of the input is rendered at positions `2k` and `2k + 1`.
pub proof fn lemma_hex_index(bytes: Seq<u8>, k: int)
    requires
        0 <= k < bytes.len(),
    ensures
        hex(bytes)[2 * k] == hex_digit(bytes[k] as int / 16),
        hex(bytes)[2 * k + 1] == hex_digit(bytes[k] as int % 16),
    decreases bytes.len(),
{
    lemma_hex_len(bytes.drop_last());
    if k < bytes.len() - 1 {
        lemma_hex_index(bytes.drop_last(), k);
    }
}

/// The rendering of a prefix is the corresponding prefix of the rendering.
pub proof fn lemma_hex_take(bytes: Seq<u8>, k: int)
    requires
        0 <= k <= bytes.len(),
    ensures
        hex(bytes.take(k)) == hex(bytes).take(2 * k),
    decreases bytes.len(),
{
    lemma_hex_len(bytes);
    if k == bytes.len() {
        assert(bytes.take(k) =~= bytes);
        assert(hex(bytes).take(2 * k) =~= hex(bytes));
    } else {
        lemma_hex_take(bytes.drop_last(), k);
        assert(bytes.drop_last().take(k) =~= bytes.take(k));
        lemma_hex_len(bytes.drop_last());
        assert(hex(bytes.drop_last()).take(2 * k) =~= hex(bytes).take(2 * k));
    }
}

proof fn lemma_hex_digit_injective(a: int, b: int)
    requires
        0 <= a < 16,
        0 <= b < 16,
        hex_digit(a) == hex_digit(b),
    ensures
        a == b,
{
}

/// Distinct hashes have distinct renderings: the rendering loses nothing.
pub proof fn law_pretty_hash_injective(a: Seq<u8>, b: Seq<u8>)
    requires
        hex(a) == hex(b),
    ensures
        a == b,
{
    lemma_hex_len(a);
    lemma_hex_len(b);
    assert forall|k: int| 0 <= k < a.len() implies a[k] == b[k] by {
        lemma_hex_index(a, k);
        lemma_hex_index(b, k);
        lemma_hex_digit_injective(a[k] as int / 16, b[k] as int / 16);
        lemma_hex_digit_injective(a[k] as int % 16, b[k] as int % 16);
    }
    assert(a =~= b);
}

/// The short form of a hash: its first six hexadecimal digits followed by
/// the length of the full rendering in brackets, e.g. `0a1b2c[8]`.
pub fn short_pretty_hash(hash: &Vec<u8>) -> (r: String)
    requires
        hash@.len() >= 3,
        2 * hash@.len() <= usize::MAX,
    ensures
        r@ == hex(hash@).take(6) + seq!['['] + decimal(hex(hash@).len()) + seq![']'],
        hex(hash@).len() == 2 * hash@.len(),
        r@.len() >= 9,
        forall|k: int|
            0 <= k < 3 ==> is_hex_char(#[trigger] r@[2 * k]) && is_hex_char(r@[2 * k + 1])
                && hex_char_value(r@[2 * k]) * 16 + hex_char_value(r@[2 * k + 1]) == hash@[k],
        r@[6] == '[',
        r@[r@.len() - 1] == ']',
        is_standard_numeral(r@.subrange(7, r@.len() - 1)),
        numeral_value(r@.subrange(7, r@.len() - 1)) == 2 * hash@.len(),
{
    proof {
        lemma_hex_len(hash@);
        lemma_hex_take(hash@, 3);
        law_hex_decodes(hash@);
        law_decimal_is_numeral(2 * hash@.len());
    }
    let mut r = String::new();
    push_hex_prefix(&mut r, hash, 3);
    r.push('[');
    let digits: usize = 2 * hash.len();
    push_decimal(&mut r, digits as u64);
    r.push(']');
    proof {
        assert(Seq::<char>::empty() + hex(hash@.take(3)) =~= hex(hash@).take(6));
        let h = hex(hash@);
        let d = decimal(2 * hash@.len());
        assert(r@.subrange(7, r@.len() - 1) =~= d);
        assert forall|k: int| 0 <= k < 3 implies is_hex_char(#[trigger] r@[2 * k]) && is_hex_char(
            r@[2 * k + 1],
        ) && hex_char_value(r@[2 * k]) * 16 + hex_char_value(r@[2 * k + 1]) == hash@[k] by {
            assert(r@[2 * k] == h[2 * k]);
            assert(r@[2 * k + 1] == h[2 * k + 1]);
        }
    }
    r
}

/// `image(<width>x<height>, <channels> <depth>)`, with the channel layout and
/// depth named as `channel_name` and `depth_name` name them.
pub fn image_description_string(info: &ImageInfo) -> (r: String)
    ensures
        r@ == "image("@ + signed_decimal(info.width as int) + seq!['x'] + signed_decimal(
            info.height as int,
        ) + ", "@ + channel_name_spec(info.channels) + seq![' '] + depth_name_spec(info.depth)
            + seq![')'],
{
    let mut r = String::from_str("image(");
    push_signed_decimal(&mut r, info.width as i64);
    r.push('x');
    push_signed_decimal(&mut r, info.height as i64);
    r.append(", ");
    r.append(channel_name(info.channels));
    r.push(' ');
    r.append(depth_name(info.depth));
    r.push(')');
    r
}

/// `qr_data(<hash in hex>, exam ID <id>, page <page>)`.
pub fn qr_description_string(qr: &QRData) -> (r: String)
    ensures
        r@ == "qr_data("@ + hex(qr.hash@) + ", exam ID "@ + decimal(qr.id as nat) + ", page "@
            + decimal(qr.page as nat) + seq![')'],
{
    let mut r = String::from_str("qr_data(");
    push_hex_prefix(&mut r, &qr.hash, qr.hash.len());
    proof {
        assert(qr.hash@.take(qr.hash@.len() as int) =~= qr.hash@);
    }
    r.append(", exam ID ");
    push_decimal(&mut r, qr.id);
    r.append(", page ");
    push_decimal(&mut r, qr.page as u64);
    r.push(')');
    r
}

/// `r(<x>:<y>)`: the top-left corner of a rectangle.
pub fn standard_rect_description(rect: &IntRect) -> (r: String)
    ensures
        r@ == "r("@ + signed_decimal(rect.x as int) + seq![':'] + signed_decimal(rect.y as int)
            + seq![')'],
{
    let mut r = String::from_str("r(");
    push_signed_decimal(&mut r, rect.x as i64);
    r.push(':');
    push_signed_decimal(&mut r, rect.y as i64);
    r.push(')');
    r
}

/// The file a trace image called `name` is written to: `trace/<name>.jpg`.
pub fn trace_file_name(name: &str) -> (r: String)
    ensures
        r@ == "trace/"@ + name@ + ".jpg"@,
{
    let mut r = String::from_str("trace/");
    r.append(name);
    r.append(".jpg");
    r
}

} // verus!
