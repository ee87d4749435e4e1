//! Hexadecimal text for byte strings: the upper-case form used in certificate
//! names, the lower-case form used for fingerprints, and the parsers that read
//! them back.

use vstd::prelude::*;

use crate::certificate_type::ascii_bytes;
use crate::text::push_char;

verus! {

/// The upper-case hexadecimal digit for `n` (`0..16`).
pub open spec fn upper_digit(n: int) -> char {
    seq!['0', '1', '2', '3', '4', '5', '6', '7', '8', '9', 'A', 'B', 'C', 'D', 'E', 'F'][n]
}

/// The lower-case hexadecimal digit for `n` (`0..16`).
pub open spec fn lower_digit(n: int) -> char {
    seq!['0', '1', '2', '3', '4', '5', '6', '7', '8', '9', 'a', 'b', 'c', 'd', 'e', 'f'][n]
}

/// The nibble written at position `i` of the hex text of `bytes`.
pub open spec fn nibble(bytes: Seq<u8>, i: int) -> int {
    if i % 2 == 0 {
        bytes[i / 2] as int / 16
    } else {
        bytes[i / 2] as int % 16
    }
}

/// Upper-case hex text of `bytes`, two digits per byte, most significant first.
pub open spec fn hex_upper(bytes: Seq<u8>) -> Seq<char> {
    Seq::new(2 * bytes.len(), |i: int| upper_digit(nibble(bytes, i)))
}

/// Lower-case hex text of `bytes`, two digits per byte, most significant first.
pub open spec fn hex_lower(bytes: Seq<u8>) -> Seq<char> {
    Seq::new(2 * bytes.len(), |i: int| lower_digit(nibble(bytes, i)))
}

/// The value of one hex digit (either case), if `b` is one.
pub open spec fn hex_value(b: u8) -> Option<int> {
    if 48 <= b <= 57 {
        Some(b - 48)
    } else if 65 <= b <= 70 {
        Some(b - 55)
    } else if 97 <= b <= 102 {
        Some(b - 87)
    } else {
        None
    }
}

/// Whether every byte of `bytes` is a hex digit.
pub open spec fn all_hex(bytes: Seq<u8>) -> bool {
    forall|i: int| 0 <= i < bytes.len() ==> (#[trigger] hex_value(bytes[i])) is Some
}

/// The bytes that the hex text `text` (either case) encodes: `None` unless
/// `text` has even length and consists of hex digits only.
pub open spec fn decode_hex(text: Seq<u8>) -> Option<Seq<u8>> {
    if text.len() % 2 == 0 && all_hex(text) {
        Some(
            Seq::new(
                text.len() / 2,
                |i: int|
                    (hex_value(text[2 * i])->0 * 16 + hex_value(text[2 * i + 1])->0) as u8,
            ),
        )
    } else {
        None
    }
}

fn upper_digit_of(n: u8) -> (c: char)
    requires
        n < 16,
    ensures
        c == upper_digit(n as int),
{
    let table: [char; 16] = [
        '0', '1', '2', '3', '4', '5', '6', '7', '8', '9', 'A', 'B', 'C', 'D', 'E', 'F',
    ];
    assert(table@ =~= seq![
        '0', '1', '2', '3', '4', '5', '6', '7', '8', '9', 'A', 'B', 'C', 'D', 'E', 'F'
    ]);
    table[n as usize]
}

fn lower_digit_of(n: u8) -> (c: char)
    requires
        n < 16,
    ensures
        c == lower_digit(n as int),
{
    let table: [char; 16] = [
        '0', '1', '2', '3', '4', '5', '6', '7', '8', '9', 'a', 'b', 'c', 'd', 'e', 'f',
    ];
    assert(table@ =~= seq![
        '0', '1', '2', '3', '4', '5', '6', '7', '8', '9', 'a', 'b', 'c', 'd', 'e', 'f'
    ]);
    table[n as usize]
}

fn upper_digit_byte_of(n: u8) -> (c: u8)
    requires
        n < 16,
    ensures
        c == upper_digit(n as int) as u8,
{
    let table: [u8; 16] = [48, 49, 50, 51, 52, 53, 54, 55, 56, 57, 65, 66, 67, 68, 69, 70];
    assert(table@ =~= seq![48u8, 49, 50, 51, 52, 53, 54, 55, 56, 57, 65, 66, 67, 68, 69, 70]);
    table[n as usize]
}

/// Upper-case hex text of `bytes`.
pub fn encode_upper(bytes: &[u8]) -> (s: String)
    requires
        2 * bytes@.len() <= usize::MAX,
    ensures
        s@ == hex_upper(bytes@),
{
    let mut s = String::new();
    let mut i: usize = 0;
    while i < bytes.len()
        invariant
            i <= bytes@.len(),
            s@ =~= hex_upper(bytes@).subrange(0, 2 * i as int),
        decreases bytes@.len() - i,
    {
        let b = bytes[i];
        push_char(&mut s, upper_digit_of(b / 16));
        push_char(&mut s, upper_digit_of(b % 16));
        i = i + 1;
    }
    s
}

/// Lower-case hex text of `bytes`.
pub fn encode_lower(bytes: &[u8]) -> (s: String)
    requires
        2 * bytes@.len() <= usize::MAX,
    ensures
        s@ == hex_lower(bytes@),
{
    let mut s = String::new();
    let mut i: usize = 0;
    while i < bytes.len()
        invariant
            i <= bytes@.len(),
            s@ =~= hex_lower(bytes@).subrange(0, 2 * i as int),
        decreases bytes@.len() - i,
    {
        let b = bytes[i];
        push_char(&mut s, lower_digit_of(b / 16));
        push_char(&mut s, lower_digit_of(b % 16));
        i = i + 1;
    }
    s
}

/// The ASCII bytes of the upper-case hex text of `bytes`.
pub fn encode_upper_bytes(bytes: &[u8]) -> (r: Vec<u8>)
    requires
        2 * bytes@.len() <= usize::MAX,
    ensures
        r@ == ascii_bytes(hex_upper(bytes@)),
{
    let mut r: Vec<u8> = Vec::new();
    let mut i: usize = 0;
    while i < bytes.len()
        invariant
            i <= bytes@.len(),
            r@ =~= ascii_bytes(hex_upper(bytes@)).subrange(0, 2 * i as int),
        decreases bytes@.len() - i,
    {
        let b = bytes[i];
        r.push(upper_digit_byte_of(b / 16));
        r.push(upper_digit_byte_of(b % 16));
        i = i + 1;
    }
    r
}

/// The value of one hex digit (either case).
pub fn hex_value_of(b: u8) -> (r: Option<u8>)
    ensures
        match hex_value(b) {
            Some(v) => r == Some(v as u8),
            None => r is None,
        },
{
    if 48 <= b && b <= 57 {
        Some(b - 48)
    } else if 65 <= b && b <= 70 {
        Some(b - 55)
    } else if 97 <= b && b <= 102 {
        Some(b - 87)
    } else {
        None
    }
}

/// Decodes hex text (either case) into bytes; `None` for odd length or a non-hex byte.
pub fn decode(text: &[u8]) -> (r: Option<Vec<u8>>)
    ensures
        match decode_hex(text@) {
            Some(v) => r is Some && r->0@ == v,
            None => r is None,
        },
{
    if text.len() % 2 != 0 {
        return None;
    }
    let mut out: Vec<u8> = Vec::new();
    let mut i: usize = 0;
    while i < text.len() / 2
        invariant
            text@.len() % 2 == 0,
            i <= text@.len() / 2,
            out@.len() == i,
            forall|k: int| 0 <= k < 2 * i ==> (#[trigger] hex_value(text@[k])) is Some,
            forall|k: int|
                0 <= k < i ==> #[trigger] out@[k] == (hex_value(text@[2 * k])->0 * 16
                    + hex_value(text@[2 * k + 1])->0) as u8,
        decreases text@.len() / 2 - i,
    {
        let hi = hex_value_of(text[2 * i]);
        let lo = hex_value_of(text[2 * i + 1]);
        match (hi, lo) {
            (Some(h), Some(l)) => {
                out.push(h * 16 + l);
            },
            _ => {
                assert(!all_hex(text@));
                return None;
            },
        }
        i = i + 1;
    }
    assert(all_hex(text@));
    assert(out@ =~= decode_hex(text@)->0);
    Some(out)
}

/// Reading upper-case hex text back gives the encoded bytes.
pub proof fn lemma_decode_hex_upper(bytes: Seq<u8>)
    ensures
        decode_hex(ascii_bytes(hex_upper(bytes))) == Some(bytes),
{
    let text = ascii_bytes(hex_upper(bytes));
    assert forall|i: int| 0 <= i < text.len() implies (#[trigger] hex_value(text[i])) is Some
        && hex_value(text[i])->0 == nibble(bytes, i) by {
        let n = nibble(bytes, i);
        assert(0 <= n < 16);
    }
    assert forall|i: int| 0 <= i < bytes.len() implies (hex_value(text[2 * i])->0 * 16
        + hex_value(text[2 * i + 1])->0) as u8 == bytes[i] by {
        assert(nibble(bytes, 2 * i) == bytes[i] as int / 16);
        assert(nibble(bytes, 2 * i + 1) == bytes[i] as int % 16);
        assert(hex_value(text[2 * i]) is Some);
        assert(hex_value(text[2 * i + 1]) is Some);
    }
    assert(decode_hex(text)->0 =~= bytes);
}

/// Lower-case hex text determines the bytes it encodes.
pub proof fn lemma_hex_lower_injective(a: Seq<u8>, b: Seq<u8>)
    requires
        hex_lower(a) == hex_lower(b),
    ensures
        a == b,
{
    assert(hex_lower(a).len() == 2 * a.len());
    assert(a.len() == b.len());
    assert forall|i: int| 0 <= i < a.len() implies a[i] == b[i] by {
        let ha = hex_lower(a);
        let hb = hex_lower(b);
        assert(ha[2 * i] == hb[2 * i]);
        assert(ha[2 * i + 1] == hb[2 * i + 1]);
        let x = nibble(a, 2 * i);
        let y = nibble(b, 2 * i);
        let u = nibble(a, 2 * i + 1);
        let v = nibble(b, 2 * i + 1);
        assert(0 <= x < 16 && 0 <= y < 16 && 0 <= u < 16 && 0 <= v < 16);
        assert(hex_value(lower_digit(x) as u8) == Some(x));
        assert(hex_value(lower_digit(y) as u8) == Some(y));
        assert(hex_value(lower_digit(u) as u8) == Some(u));
        assert(hex_value(lower_digit(v) as u8) == Some(v));
        assert(x == y);
        assert(u == v);
    }
    assert(a =~= b);
}

} // verus!
