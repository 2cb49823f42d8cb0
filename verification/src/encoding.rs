//! Byte encodings: hexadecimal, base32 (RFC 4648 section 6), base64 and base64url (sections 4 and 5).
use crate::text::room_for;
use base64::engine::general_purpose::{STANDARD, URL_SAFE_NO_PAD};
use base64::Engine;
use vstd::prelude::*;

verus! {

/// Byte `k`, with zeros behind the last one.
pub open spec fn byte_at(bytes: Seq<u8>, k: int) -> int {
    if 0 <= k < bytes.len() {
        bytes[k] as int
    } else {
        0
    }
}

/// Group `i` of five bits: eight groups hold five bytes, most significant bits first.
pub open spec fn quintet(bytes: Seq<u8>, i: int) -> int {
    let first = 5 * (i / 8);
    let b0 = byte_at(bytes, first);
    let b1 = byte_at(bytes, first + 1);
    let b2 = byte_at(bytes, first + 2);
    let b3 = byte_at(bytes, first + 3);
    let b4 = byte_at(bytes, first + 4);
    if i % 8 == 0 {
        b0 / 8
    } else if i % 8 == 1 {
        b0 % 8 * 4 + b1 / 64
    } else if i % 8 == 2 {
        b1 % 64 / 2
    } else if i % 8 == 3 {
        b1 % 2 * 16 + b2 / 16
    } else if i % 8 == 4 {
        b2 % 16 * 2 + b3 / 128
    } else if i % 8 == 5 {
        b3 % 128 / 4
    } else if i % 8 == 6 {
        b3 % 4 * 8 + b4 / 32
    } else {
        b4 % 32
    }
}

/// Group `i` of six bits: four groups hold three bytes, most significant bits first.
pub open spec fn sextet(bytes: Seq<u8>, i: int) -> int {
    let first = 3 * (i / 4);
    let b0 = byte_at(bytes, first);
    let b1 = byte_at(bytes, first + 1);
    let b2 = byte_at(bytes, first + 2);
    if i % 4 == 0 {
        b0 / 4
    } else if i % 4 == 1 {
        b0 % 4 * 16 + b1 / 16
    } else if i % 4 == 2 {
        b1 % 16 * 4 + b2 / 64
    } else {
        b2 % 64
    }
}

/// How many groups of five bits cover `len` bytes.
pub open spec fn quintets(len: nat) -> nat {
    (8 * len + 4) / 5
}

/// How many groups of six bits cover `len` bytes.
pub open spec fn sextets(len: nat) -> nat {
    (8 * len + 5) / 6
}

/// The lower-case hexadecimal digit of a value below 16.
pub open spec fn hex_digit(value: int) -> char {
    if value < 10 {
        ('0' as int + value) as char
    } else {
        ('a' as int + value - 10) as char
    }
}

/// The upper-case hexadecimal digit of a value below 16.
pub open spec fn upper_hex_digit(value: int) -> char {
    if value < 10 {
        ('0' as int + value) as char
    } else {
        ('A' as int + value - 10) as char
    }
}

/// Two hexadecimal digits for each byte, the high half first.
pub open spec fn hex_text(bytes: Seq<u8>) -> Seq<char> {
    Seq::new(
        2 * bytes.len(),
        |i: int| hex_digit(if i % 2 == 0 { bytes[i / 2] as int / 16 } else { bytes[i / 2] as int % 16 }),
    )
}

/// The base32 alphabet.
pub open spec fn base32_digit(value: int) -> char {
    if value < 26 {
        ('A' as int + value) as char
    } else {
        ('2' as int + value - 26) as char
    }
}

/// Base32 without padding.
pub open spec fn base32_text(bytes: Seq<u8>) -> Seq<char> {
    Seq::new(quintets(bytes.len()), |i: int| base32_digit(quintet(bytes, i)))
}

/// A base64 alphabet, given its last two characters.
pub open spec fn base64_digit(value: int, c62: char, c63: char) -> char {
    if value < 26 {
        ('A' as int + value) as char
    } else if value < 52 {
        ('a' as int + value - 26) as char
    } else if value < 62 {
        ('0' as int + value - 52) as char
    } else if value == 62 {
        c62
    } else {
        c63
    }
}

/// Base64url without padding.
pub open spec fn base64url_text(bytes: Seq<u8>) -> Seq<char> {
    Seq::new(sextets(bytes.len()), |i: int| base64_digit(sextet(bytes, i), '-', '_'))
}

/// Base64 in the standard alphabet, padded with `=` to a multiple of four characters.
pub open spec fn base64_text(bytes: Seq<u8>) -> Seq<char> {
    let digits = sextets(bytes.len());
    Seq::new(
        (4 * ((digits + 3) / 4)) as nat,
        |i: int| if i < digits { base64_digit(sextet(bytes, i), '+', '/') } else { '=' },
    )
}

/// What the base64 decoder reports of a text that it refuses.
#[verifier::external_type_specification]
#[verifier::external_body]
pub struct ExDecodeError(base64::DecodeError);

/// `URL_SAFE_NO_PAD.encode` of base64: the unpadded base64url text of the bytes.
#[verifier::external_body]
pub(crate) fn base64url(bytes: &[u8]) -> (text: String)
    ensures
        text@ == base64url_text(bytes@),
{
    URL_SAFE_NO_PAD.encode(bytes)
}

/// `URL_SAFE_NO_PAD.decode` of base64: the bytes whose unpadded base64url text this is. The decoder
/// refuses every other text, also padding and bits behind the last whole byte.
#[verifier::external_body]
pub(crate) fn from_base64url(text: &str) -> (result: Result<Vec<u8>, base64::DecodeError>)
    ensures
        match result {
            Ok(bytes) => base64url_text(bytes@) == text@,
            Err(_) => forall|bytes: Seq<u8>| #[trigger] base64url_text(bytes) != text@,
        },
{
    URL_SAFE_NO_PAD.decode(text)
}

/// `STANDARD.encode` of base64: the padded base64 text of the bytes.
#[verifier::external_body]
pub(crate) fn base64_standard(bytes: &[u8]) -> (text: String)
    ensures
        text@ == base64_text(bytes@),
{
    STANDARD.encode(bytes)
}

/// Base64 in the standard alphabet, padded.
pub fn base64_padded(bytes: &[u8]) -> (text: String)
    ensures
        text@ == base64_text(bytes@),
{
    base64_standard(bytes)
}

/// Hexadecimal, two digits for each byte. Written into one buffer of the right size, so that no other one
/// holds parts of a secret.
pub fn hex(bytes: &[u8]) -> (text: String)
    ensures
        text@ == hex_text(bytes@),
{
    let mut text = room_for(bytes.len(), 2);
    let mut i: usize = 0;
    while i < bytes.len()
        invariant
            i <= bytes@.len(),
            text@ == hex_text(bytes@.take(i as int)),
        decreases bytes@.len() - i,
    {
        text.push(lower_digit(bytes[i] / 16));
        text.push(lower_digit(bytes[i] % 16));
        assert(text@ =~= hex_text(bytes@.take(i + 1)));
        i += 1;
    }
    assert(bytes@.take(bytes@.len() as int) =~= bytes@);
    text
}

/// The lower-case hexadecimal digit of a value below 16.
pub fn lower_digit(value: u8) -> (c: char)
    requires
        value < 16,
    ensures
        c == hex_digit(value as int),
{
    if value < 10 {
        (48 + value) as char
    } else {
        (97 + (value - 10)) as char
    }
}

/// The upper-case hexadecimal digit of a value below 16.
pub fn upper_digit(value: u8) -> (c: char)
    requires
        value < 16,
    ensures
        c == upper_hex_digit(value as int),
{
    if value < 10 {
        (48 + value) as char
    } else {
        (65 + (value - 10)) as char
    }
}

/// The byte `distance` behind `first`; zero behind the last byte.
fn byte_behind(bytes: &[u8], first: usize, distance: usize) -> (byte: u8)
    requires
        first < bytes@.len(),
    ensures
        byte == byte_at(bytes@, first + distance),
{
    if distance < bytes.len() - first {
        bytes[first + distance]
    } else {
        0
    }
}

/// Appends the digits of up to five bytes from `first` on.
fn push_block(text: &mut String, bytes: &[u8], first: usize)
    requires
        first < bytes@.len(),
        first % 5 == 0,
        old(text)@.len() == 8 * (first / 5),
    ensures
        final(text)@ == old(text)@ + block_text(bytes@, first as int),
{
    let b0: u8 = bytes[first];
    let b1: u8 = byte_behind(bytes, first, 1);
    let b2: u8 = byte_behind(bytes, first, 2);
    let b3: u8 = byte_behind(bytes, first, 3);
    let b4: u8 = byte_behind(bytes, first, 4);
    let left: usize = bytes.len() - first;
    let ghost before = text@;
    text.push(base32_char(b0 / 8));
    text.push(base32_char(b0 % 8 * 4 + b1 / 64));
    if left > 1 {
        text.push(base32_char(b1 % 64 / 2));
        text.push(base32_char(b1 % 2 * 16 + b2 / 16));
    }
    if left > 2 {
        text.push(base32_char(b2 % 16 * 2 + b3 / 128));
    }
    if left > 3 {
        text.push(base32_char(b3 % 128 / 4));
        text.push(base32_char(b3 % 4 * 8 + b4 / 32));
    }
    if left > 4 {
        text.push(base32_char(b4 % 32));
    }
    proof {
        let count = 8 * (first as int / 5);
        assert(5 * (first as int / 5) == first);
        assert(text@.len() == before.len() + block_text(bytes@, first as int).len());
        assert forall|k: int| 0 <= k < block_text(bytes@, first as int).len() implies text@[count + k] == block_text(
            bytes@,
            first as int,
        )[k] by {
            assert((count + k) / 8 == first as int / 5 && (count + k) % 8 == k);
        }
        assert(text@ =~= before + block_text(bytes@, first as int));
    }
}

/// The digits of up to five bytes from `first` on.
spec fn block_text(bytes: Seq<u8>, first: int) -> Seq<char> {
    let left = bytes.len() - first;
    Seq::new(
        if left >= 5 {
            8
        } else {
            quintets(left as nat)
        },
        |k: int| base32_digit(quintet(bytes, 8 * (first / 5) + k)),
    )
}

/// Base32 without padding, the form that authenticator apps take. Written into one buffer, as `hex` is.
pub fn base32(bytes: &[u8]) -> (text: String)
    ensures
        text@ == base32_text(bytes@),
{
    let mut text = room_for(bytes.len() / 5 + 1, 8);
    let mut first: usize = 0;
    while first < bytes.len()
        invariant_except_break
            first <= bytes@.len(),
            first % 5 == 0,
            text@ == base32_text(bytes@).take(8 * (first as int / 5)),
            8 * (first as int / 5) <= base32_text(bytes@).len(),
        ensures
            text@ == base32_text(bytes@),
        decreases bytes@.len() - first,
    {
        let ghost count = 8 * (first as int / 5);
        let ghost before = text@;
        push_block(&mut text, bytes, first);
        let left: usize = bytes.len() - first;
        proof {
            let block = block_text(bytes@, first as int);
            assert(base32_text(bytes@).len() == quintets(bytes@.len()));
            assert(count + block.len() <= base32_text(bytes@).len());
            assert(text@ =~= base32_text(bytes@).take(count + block.len()));
        }
        if left <= 5 {
            proof {
                assert(count + block_text(bytes@, first as int).len() == quintets(bytes@.len()));
                assert(base32_text(bytes@).take(base32_text(bytes@).len() as int) =~= base32_text(bytes@));
            }
            break;
        }
        first = first + 5;
    }
    text
}

/// The base32 digit of a value below 32.
fn base32_char(value: u8) -> (c: char)
    requires
        value < 32,
    ensures
        c == base32_digit(value as int),
{
    if value < 26 {
        (65 + value) as char
    } else {
        (50 + (value - 26)) as char
    }
}

/// Two byte strings with the same hexadecimal text are equal.
pub proof fn hex_is_injective(a: Seq<u8>, b: Seq<u8>)
    requires
        hex_text(a) == hex_text(b),
    ensures
        a == b,
{
    assert(hex_text(a).len() == 2 * a.len() && hex_text(b).len() == 2 * b.len());
    assert forall|k: int| 0 <= k < a.len() implies a[k] == b[k] by {
        assert((2 * k) / 2 == k && (2 * k) % 2 == 0 && (2 * k + 1) / 2 == k && (2 * k + 1) % 2 == 1);
        assert(hex_text(a)[2 * k] == hex_digit(a[k] as int / 16) && hex_text(b)[2 * k] == hex_digit(b[k] as int / 16));
        assert(hex_text(a)[2 * k + 1] == hex_digit(a[k] as int % 16) && hex_text(b)[2 * k + 1] == hex_digit(b[k] as int % 16));
        hex_digit_is_injective(a[k] as int / 16, b[k] as int / 16);
        hex_digit_is_injective(a[k] as int % 16, b[k] as int % 16);
    }
    assert(a =~= b);
}

proof fn hex_digit_is_injective(x: int, y: int)
    requires
        0 <= x < 16,
        0 <= y < 16,
        hex_digit(x) == hex_digit(y),
    ensures
        x == y,
{
    assert(hex_digit(x) as int == if x < 10 { 48 + x } else { 87 + x });
    assert(hex_digit(y) as int == if y < 10 { 48 + y } else { 87 + y });
}

/// Two byte strings with the same base64url text are equal.
pub proof fn base64url_is_injective(a: Seq<u8>, b: Seq<u8>)
    requires
        base64url_text(a) == base64url_text(b),
    ensures
        a == b,
{
    assert(base64url_text(a).len() == sextets(a.len()) && base64url_text(b).len() == sextets(b.len()));
    assert(a.len() == b.len());
    assert forall|i: int| 0 <= i < sextets(a.len()) implies #[trigger] sextet(a, i) == sextet(b, i) by {
        assert(base64url_text(a)[i] == base64_digit(sextet(a, i), '-', '_'));
        assert(base64url_text(b)[i] == base64_digit(sextet(b, i), '-', '_'));
        base64_digit_is_injective(sextet(a, i), sextet(b, i));
    }
    assert forall|k: int| 0 <= k < a.len() implies a[k] == b[k] by {
        let i = 4 * (k / 3);
        let r = k % 3;
        assert(r == 0 ==> sextet(a, i) == sextet(b, i) && sextet(a, i + 1) == sextet(b, i + 1));
        assert(r == 1 ==> sextet(a, i + 1) == sextet(b, i + 1) && sextet(a, i + 2) == sextet(b, i + 2));
        assert(r == 2 ==> sextet(a, i + 2) == sextet(b, i + 2) && sextet(a, i + 3) == sextet(b, i + 3));
        assert(i / 4 == k / 3 && (i + 1) / 4 == k / 3 && (i + 2) / 4 == k / 3 && (i + 3) / 4 == k / 3);
        assert(byte_at(a, k) == byte_at(b, k));
    }
    assert(a =~= b);
}

proof fn base64_digit_is_injective(x: int, y: int)
    requires
        0 <= x < 64,
        0 <= y < 64,
        base64_digit(x, '-', '_') == base64_digit(y, '-', '_'),
    ensures
        x == y,
{
    assert(x < 62 ==> base64_digit(x, '-', '_') as int == if x < 26 { 65 + x } else if x < 52 { 71 + x } else { x - 4 });
    assert(y < 62 ==> base64_digit(y, '-', '_') as int == if y < 26 { 65 + y } else if y < 52 { 71 + y } else { y - 4 });
}

/// Two byte strings with the same base32 text are equal.
pub proof fn base32_is_injective(a: Seq<u8>, b: Seq<u8>)
    requires
        base32_text(a) == base32_text(b),
    ensures
        a == b,
{
    assert(base32_text(a).len() == quintets(a.len()) && base32_text(b).len() == quintets(b.len()));
    assert(a.len() == b.len());
    assert forall|i: int| 0 <= i < quintets(a.len()) implies #[trigger] quintet(a, i) == quintet(b, i) by {
        assert(base32_text(a)[i] == base32_digit(quintet(a, i)));
        assert(base32_text(b)[i] == base32_digit(quintet(b, i)));
        let (x, y) = (quintet(a, i), quintet(b, i));
        assert(base32_digit(x) as int == if x < 26 { 65 + x } else { 24 + x });
        assert(base32_digit(y) as int == if y < 26 { 65 + y } else { 24 + y });
    }
    assert forall|k: int| 0 <= k < a.len() implies a[k] == b[k] by {
        base32_byte(a, b, k);
    }
    assert(a =~= b);
}

/// A byte is fixed by the groups of five bits that hold it.
proof fn base32_byte(a: Seq<u8>, b: Seq<u8>, k: int)
    requires
        0 <= k < a.len(),
        a.len() == b.len(),
        forall|i: int| 0 <= i < quintets(a.len()) ==> #[trigger] quintet(a, i) == quintet(b, i),
    ensures
        a[k] == b[k],
{
    let m = k / 5;
    let i = 8 * m;
    let r = k % 5;
    assert(byte_at(a, k) == a[k] && byte_at(b, k) == b[k]);
    base32_block(a, m);
    base32_block(b, m);
    assert(k == 5 * m + r);
    if r == 0 {
        assert(quintet(a, i) == quintet(b, i) && quintet(a, i + 1) == quintet(b, i + 1));
    } else if r == 1 {
        assert(quintet(a, i + 1) == quintet(b, i + 1));
        assert(quintet(a, i + 2) == quintet(b, i + 2) && quintet(a, i + 3) == quintet(b, i + 3));
    } else if r == 2 {
        assert(quintet(a, i + 3) == quintet(b, i + 3) && quintet(a, i + 4) == quintet(b, i + 4));
    } else if r == 3 {
        assert(quintet(a, i + 4) == quintet(b, i + 4));
        assert(quintet(a, i + 5) == quintet(b, i + 5) && quintet(a, i + 6) == quintet(b, i + 6));
    } else {
        assert(quintet(a, i + 6) == quintet(b, i + 6) && quintet(a, i + 7) == quintet(b, i + 7));
    }
}

/// The five bytes of block `m`, read back from its eight groups.
proof fn base32_block(bytes: Seq<u8>, m: int)
    requires
        0 <= m,
    ensures
        byte_at(bytes, 5 * m) == quintet(bytes, 8 * m) * 8 + quintet(bytes, 8 * m + 1) / 4,
        byte_at(bytes, 5 * m + 1) == quintet(bytes, 8 * m + 1) % 4 * 64 + quintet(bytes, 8 * m + 2) * 2 + quintet(bytes, 8 * m + 3) / 16,
        byte_at(bytes, 5 * m + 2) == quintet(bytes, 8 * m + 3) % 16 * 16 + quintet(bytes, 8 * m + 4) / 2,
        byte_at(bytes, 5 * m + 3) == quintet(bytes, 8 * m + 4) % 2 * 128 + quintet(bytes, 8 * m + 5) * 4 + quintet(bytes, 8 * m + 6) / 8,
        byte_at(bytes, 5 * m + 4) == quintet(bytes, 8 * m + 6) % 8 * 32 + quintet(bytes, 8 * m + 7),
{
    let b0 = byte_at(bytes, 5 * m);
    let b1 = byte_at(bytes, 5 * m + 1);
    let b2 = byte_at(bytes, 5 * m + 2);
    let b3 = byte_at(bytes, 5 * m + 3);
    let b4 = byte_at(bytes, 5 * m + 4);
    assert((8 * m) / 8 == m);
    assert(quintet(bytes, 8 * m) == b0 / 8);
    assert((8 * m + 1) / 8 == m);
    assert(quintet(bytes, 8 * m + 1) == b0 % 8 * 4 + b1 / 64);
    assert((8 * m + 2) / 8 == m);
    assert(quintet(bytes, 8 * m + 2) == b1 % 64 / 2);
    assert((8 * m + 3) / 8 == m);
    assert(quintet(bytes, 8 * m + 3) == b1 % 2 * 16 + b2 / 16);
    assert((8 * m + 4) / 8 == m);
    assert(quintet(bytes, 8 * m + 4) == b2 % 16 * 2 + b3 / 128);
    assert((8 * m + 5) / 8 == m);
    assert(quintet(bytes, 8 * m + 5) == b3 % 128 / 4);
    assert((8 * m + 6) / 8 == m);
    assert(quintet(bytes, 8 * m + 6) == b3 % 4 * 8 + b4 / 32);
    assert((8 * m + 7) / 8 == m);
    assert(quintet(bytes, 8 * m + 7) == b4 % 32);
}

/// The value of a lower-case hexadecimal digit.
pub open spec fn hex_digit_value(c: char) -> int {
    if 48 <= c as int <= 57 {
        c as int - 48
    } else {
        c as int - 87
    }
}

/// Every byte is read back from its two hexadecimal digits, the high half first; they are digits or the
/// letters `a` to `f`.
pub proof fn hex_reads_back(bytes: Seq<u8>, k: int)
    requires
        0 <= k < bytes.len(),
    ensures
        hex_text(bytes).len() == 2 * bytes.len(),
        16 * hex_digit_value(hex_text(bytes)[2 * k]) + hex_digit_value(hex_text(bytes)[2 * k + 1]) == bytes[k],
        forall|i: int| 0 <= i < 2 * bytes.len() ==> {
            let point = #[trigger] hex_text(bytes)[i] as int;
            48 <= point <= 57 || 97 <= point <= 102
        },
{
    let text = hex_text(bytes);
    assert(text[2 * k] == hex_digit(bytes[k] as int / 16));
    assert(text[2 * k + 1] == hex_digit(bytes[k] as int % 16));
    assert forall|i: int| 0 <= i < 2 * bytes.len() implies {
        let point = #[trigger] text[i] as int;
        48 <= point <= 57 || 97 <= point <= 102
    } by {
        assert(0 <= i / 2 < bytes.len());
        assert(text[i] == hex_digit(if i % 2 == 0 { bytes[i / 2] as int / 16 } else { bytes[i / 2] as int % 16 }));
    }
}

/// The value of a base32 digit.
pub open spec fn base32_digit_value(c: char) -> int {
    if 65 <= c as int <= 90 {
        c as int - 65
    } else {
        c as int - 24
    }
}

/// Every five bytes are read back from their eight base32 digits, most significant digit first; the digits
/// are the letters `A` to `Z` and the digits `2` to `7`.
pub proof fn base32_reads_back(bytes: Seq<u8>, k: int)
    requires
        0 <= k,
        5 * k + 5 <= bytes.len(),
    ensures
        ({
            let text = base32_text(bytes);
            let high = ((base32_digit_value(text[8 * k]) * 32 + base32_digit_value(text[8 * k + 1])) * 32 + base32_digit_value(
                text[8 * k + 2],
            )) * 32 + base32_digit_value(text[8 * k + 3]);
            let low = ((base32_digit_value(text[8 * k + 4]) * 32 + base32_digit_value(text[8 * k + 5])) * 32 + base32_digit_value(
                text[8 * k + 6],
            )) * 32 + base32_digit_value(text[8 * k + 7]);
            high * 1048576 + low == (((bytes[5 * k] * 256 + bytes[5 * k + 1]) * 256 + bytes[5 * k + 2]) * 256 + bytes[5 * k + 3]) * 256 + bytes[5
                * k + 4]
        }),
{
    base32_digit_is(bytes, 8 * k);
    base32_digit_is(bytes, 8 * k + 1);
    base32_digit_is(bytes, 8 * k + 2);
    base32_digit_is(bytes, 8 * k + 3);
    base32_digit_is(bytes, 8 * k + 4);
    base32_digit_is(bytes, 8 * k + 5);
    base32_digit_is(bytes, 8 * k + 6);
    base32_digit_is(bytes, 8 * k + 7);
    quintets_hold_five_bytes(bytes, k);
}

proof fn base32_digit_is(bytes: Seq<u8>, i: int)
    requires
        0 <= i < quintets(bytes.len()),
    ensures
        base32_digit_value(base32_text(bytes)[i]) == quintet(bytes, i),
{
    assert(0 <= quintet(bytes, i) < 32);
}

proof fn quintets_hold_five_bytes(bytes: Seq<u8>, k: int)
    requires
        0 <= k,
        5 * k + 5 <= bytes.len(),
    ensures
        ({
            let high = ((quintet(bytes, 8 * k) * 32 + quintet(bytes, 8 * k + 1)) * 32 + quintet(bytes, 8 * k + 2)) * 32 + quintet(bytes, 8 * k + 3);
            let low = ((quintet(bytes, 8 * k + 4) * 32 + quintet(bytes, 8 * k + 5)) * 32 + quintet(bytes, 8 * k + 6)) * 32 + quintet(
                bytes,
                8 * k + 7,
            );
            high * 1048576 + low == (((bytes[5 * k] * 256 + bytes[5 * k + 1]) * 256 + bytes[5 * k + 2]) * 256 + bytes[5 * k + 3]) * 256 + bytes[5
                * k + 4]
        }),
{
    let (b0, b1, b2, b3, b4) = (
        bytes[5 * k] as int,
        bytes[5 * k + 1] as int,
        bytes[5 * k + 2] as int,
        bytes[5 * k + 3] as int,
        bytes[5 * k + 4] as int,
    );
    assert(quintet(bytes, 8 * k) == b0 / 8);
    assert(quintet(bytes, 8 * k + 1) == b0 % 8 * 4 + b1 / 64);
    assert(quintet(bytes, 8 * k + 2) == b1 % 64 / 2);
    assert(quintet(bytes, 8 * k + 3) == b1 % 2 * 16 + b2 / 16);
    assert(quintet(bytes, 8 * k + 4) == b2 % 16 * 2 + b3 / 128);
    assert(quintet(bytes, 8 * k + 5) == b3 % 128 / 4);
    assert(quintet(bytes, 8 * k + 6) == b3 % 4 * 8 + b4 / 32);
    assert(quintet(bytes, 8 * k + 7) == b4 % 32);
}

/// Both base64 forms have the same digits, but for the last two of their alphabets; the padded one is
/// filled with `=` to a multiple of four.
pub proof fn base64_forms_agree(bytes: Seq<u8>, i: int)
    requires
        0 <= i < base64_text(bytes).len(),
    ensures
        base64_text(bytes).len() % 4 == 0,
        base64url_text(bytes).len() <= base64_text(bytes).len() < base64url_text(bytes).len() + 4,
        i >= base64url_text(bytes).len() ==> base64_text(bytes)[i] == '=',
        i < base64url_text(bytes).len() ==> base64_text(bytes)[i] == if base64url_text(bytes)[i] == '-' {
            '+'
        } else if base64url_text(bytes)[i] == '_' {
            '/'
        } else {
            base64url_text(bytes)[i]
        },
{
    assert(0 <= sextet(bytes, i) < 64);
}

} // verus!
