//! Canonical hex codec: byte sequences and fixed-width big-endian numbers
//! rendered as `0x`-prefixed lowercase hexadecimal text, and the inverse
//! decoding with its error taxonomy.
use vstd::prelude::*;

verus! {

/// Why a decode failed: a malformed hex payload, a byte count that does not
/// match a fixed-length target, or a numeric payload wider than its field.
#[derive(Clone, Copy, Debug, PartialEq, Eq, Structural)]
pub enum CodecError {
    InvalidHex,
    LengthMismatch,
    Overflow,
}

/// The two characters `0x` that open every canonical hex rendering.
pub open spec fn hex_prefix_chars() -> Seq<char> {
    seq!['0', 'x']
}

/// The lowercase hex digit for a value below sixteen.
pub open spec fn hex_char_of(n: u8) -> char
    recommends
        n < 16,
{
    if n == 0 {
        '0'
    } else if n == 1 {
        '1'
    } else if n == 2 {
        '2'
    } else if n == 3 {
        '3'
    } else if n == 4 {
        '4'
    } else if n == 5 {
        '5'
    } else if n == 6 {
        '6'
    } else if n == 7 {
        '7'
    } else if n == 8 {
        '8'
    } else if n == 9 {
        '9'
    } else if n == 10 {
        'a'
    } else if n == 11 {
        'b'
    } else if n == 12 {
        'c'
    } else if n == 13 {
        'd'
    } else if n == 14 {
        'e'
    } else {
        'f'
    }
}

/// The numeric value of a hex digit, either case, or `None` for any other
/// character.
pub open spec fn hex_val_of(c: char) -> Option<u8> {
    if c == '0' {
        Some(0u8)
    } else if c == '1' {
        Some(1u8)
    } else if c == '2' {
        Some(2u8)
    } else if c == '3' {
        Some(3u8)
    } else if c == '4' {
        Some(4u8)
    } else if c == '5' {
        Some(5u8)
    } else if c == '6' {
        Some(6u8)
    } else if c == '7' {
        Some(7u8)
    } else if c == '8' {
        Some(8u8)
    } else if c == '9' {
        Some(9u8)
    } else if c == 'a' || c == 'A' {
        Some(10u8)
    } else if c == 'b' || c == 'B' {
        Some(11u8)
    } else if c == 'c' || c == 'C' {
        Some(12u8)
    } else if c == 'd' || c == 'D' {
        Some(13u8)
    } else if c == 'e' || c == 'E' {
        Some(14u8)
    } else if c == 'f' || c == 'F' {
        Some(15u8)
    } else {
        None
    }
}

pub open spec fn is_hex_digit(c: char) -> bool {
    hex_val_of(c) is Some
}

pub open spec fn all_hex_digits(s: Seq<char>) -> bool {
    forall|i: int| 0 <= i < s.len() ==> is_hex_digit(#[trigger] s[i])
}

/// The byte written as the hex digit pair `hi`, `lo`.
pub open spec fn byte_of_pair(hi: char, lo: char) -> u8
    recommends
        is_hex_digit(hi),
        is_hex_digit(lo),
{
    (hex_val_of(hi).unwrap() * 16 + hex_val_of(lo).unwrap()) as u8
}

/// Hex rendering of a byte sequence: two lowercase digits per byte, most
/// significant digit of each byte first.
pub open spec fn hex_of(bytes: Seq<u8>) -> Seq<char>
    decreases bytes.len(),
{
    if bytes.len() == 0 {
        Seq::<char>::empty()
    } else {
        hex_of(bytes.drop_last()) + seq![
            hex_char_of(bytes.last() / 16),
            hex_char_of(bytes.last() % 16),
        ]
    }
}

/// The bytes written by an even-length sequence of hex digits.
pub open spec fn bytes_of_hex(s: Seq<char>) -> Seq<u8>
    recommends
        s.len() % 2 == 0,
        all_hex_digits(s),
    decreases s.len(),
{
    if s.len() < 2 {
        Seq::<u8>::empty()
    } else {
        bytes_of_hex(s.take(s.len() - 2)).push(byte_of_pair(s[s.len() - 2], s[s.len() - 1]))
    }
}

/// Removes one leading `0x`, if present; any other text is left unchanged.
pub open spec fn strip_hex_prefix(s: Seq<char>) -> Seq<char> {
    if s.len() >= 2 && s[0] == '0' && s[1] == 'x' {
        s.skip(2)
    } else {
        s
    }
}

/// What decoding hex text into a fixed-length byte value yields: the hex
/// payload after optional prefix stripping must be even-length and all hex
/// digits, and must spell exactly `expected_len` bytes.
pub open spec fn spec_decode_bytes(s: Seq<char>, expected_len: nat) -> Result<Seq<u8>, CodecError> {
    let h = strip_hex_prefix(s);
    if h.len() % 2 != 0 || !all_hex_digits(h) {
        Err(CodecError::InvalidHex)
    } else if h.len() / 2 != expected_len {
        Err(CodecError::LengthMismatch)
    } else {
        Ok(bytes_of_hex(h))
    }
}

pub(crate) fn hex_char_str(n: u8) -> (r: &'static str)
    requires
        n < 16,
    ensures
        r@ =~= seq![hex_char_of(n)],
{
    proof {
        reveal_strlit("0");
        reveal_strlit("1");
        reveal_strlit("2");
        reveal_strlit("3");
        reveal_strlit("4");
        reveal_strlit("5");
        reveal_strlit("6");
        reveal_strlit("7");
        reveal_strlit("8");
        reveal_strlit("9");
        reveal_strlit("a");
        reveal_strlit("b");
        reveal_strlit("c");
        reveal_strlit("d");
        reveal_strlit("e");
        reveal_strlit("f");
    }
    match n {
        0 => "0",
        1 => "1",
        2 => "2",
        3 => "3",
        4 => "4",
        5 => "5",
        6 => "6",
        7 => "7",
        8 => "8",
        9 => "9",
        10 => "a",
        11 => "b",
        12 => "c",
        13 => "d",
        14 => "e",
        _ => "f",
    }
}

/// Renders raw bytes as a `0x`-prefixed lowercase hex string; total, and the
/// empty input yields exactly `0x`.
pub fn encode_bytes(raw: &Vec<u8>) -> (r: String)
    ensures
        r@ == hex_prefix_chars() + hex_of(raw@),
        r@.len() == 2 + 2 * raw@.len(),
{
    let prefix = "0x";
    proof {
        reveal_strlit("0x");
        assert(prefix@ =~= hex_prefix_chars());
    }
    let mut out: String = prefix.to_owned();
    let mut i: usize = 0;
    while i < raw.len()
        invariant
            i <= raw@.len(),
            out@ == hex_prefix_chars() + hex_of(raw@.take(i as int)),
            out@.len() == 2 + 2 * i,
        decreases raw@.len() - i,
    {
        let b = raw[i];
        out.append(hex_char_str(b / 16));
        out.append(hex_char_str(b % 16));
        i = i + 1;
        proof {
            assert(raw@.take(i as int).drop_last() =~= raw@.take(i - 1));
            assert(out@ =~= hex_prefix_chars() + hex_of(raw@.take(i as int)));
        }
    }
    proof {
        assert(raw@.take(raw@.len() as int) =~= raw@);
    }
    out
}

fn hex_val(c: char) -> (r: Option<u8>)
    ensures
        r == hex_val_of(c),
{
    match c {
        '0' => Some(0),
        '1' => Some(1),
        '2' => Some(2),
        '3' => Some(3),
        '4' => Some(4),
        '5' => Some(5),
        '6' => Some(6),
        '7' => Some(7),
        '8' => Some(8),
        '9' => Some(9),
        'a' | 'A' => Some(10),
        'b' | 'B' => Some(11),
        'c' | 'C' => Some(12),
        'd' | 'D' => Some(13),
        'e' | 'E' => Some(14),
        'f' | 'F' => Some(15),
        _ => None,
    }
}

/// Decodes hex text, with or without a leading `0x`, into a byte value of
/// exactly `expected_len` bytes. `InvalidHex` names a malformed payload,
/// `LengthMismatch` a well-formed one of the wrong size.
pub fn decode_bytes(text: &str, expected_len: usize) -> (r: Result<Vec<u8>, CodecError>)
    ensures
        match r {
            Ok(v) => spec_decode_bytes(text@, expected_len as nat) == Ok::<Seq<u8>, CodecError>(
                v@,
            ),
            Err(e) => spec_decode_bytes(text@, expected_len as nat) == Err::<Seq<u8>, CodecError>(
                e,
            ),
        },
{
    let n = text.unicode_len();
    let off: usize = if n >= 2 && text.get_char(0) == '0' && text.get_char(1) == 'x' {
        2
    } else {
        0
    };
    let ghost h = strip_hex_prefix(text@);
    proof {
        assert(h =~= text@.skip(off as int));
    }
    let m = n - off;
    if m % 2 != 0 {
        return Err(CodecError::InvalidHex);
    }
    let pairs = m / 2;
    let mut out: Vec<u8> = Vec::new();
    let mut i: usize = 0;
    while i < pairs
        invariant
            i <= pairs,
            2 * pairs == m,
            m == h.len(),
            off + m == n,
            n == text@.len(),
            h =~= text@.skip(off as int),
            h == strip_hex_prefix(text@),
            out@ == bytes_of_hex(h.take(2 * i as int)),
            out@.len() == i,
            forall|j: int| 0 <= j < 2 * i ==> is_hex_digit(#[trigger] h[j]),
        decreases pairs - i,
    {
        let c_hi = text.get_char(off + 2 * i);
        let c_lo = text.get_char(off + 2 * i + 1);
        proof {
            assert(h[2 * i as int] == text@[off + 2 * i]);
            assert(h[2 * i + 1] == text@[off + 2 * i + 1]);
        }
        let v_hi = hex_val(c_hi);
        let v_lo = hex_val(c_lo);
        if v_hi.is_none() || v_lo.is_none() {
            proof {
                if hex_val_of(c_hi) is None {
                    assert(!is_hex_digit(h[2 * i as int]));
                } else {
                    assert(!is_hex_digit(h[2 * i + 1]));
                }
            }
            return Err(CodecError::InvalidHex);
        }
        let b: u8 = v_hi.unwrap() * 16 + v_lo.unwrap();
        out.push(b);
        i = i + 1;
        proof {
            let t = h.take(2 * i as int);
            assert(t.take(t.len() - 2) =~= h.take(2 * (i - 1)));
            assert(out@ =~= bytes_of_hex(h.take(2 * i as int)));
        }
    }
    proof {
        assert(h.take(2 * pairs as int) =~= h);
        assert(all_hex_digits(h));
    }
    if out.len() != expected_len {
        return Err(CodecError::LengthMismatch);
    }
    Ok(out)
}

/// 256 raised to `n`: the number of values a big-endian field of `n` bytes
/// can hold.
pub open spec fn pow256(n: nat) -> nat
    decreases n,
{
    if n == 0 {
        1
    } else {
        256 * pow256((n - 1) as nat)
    }
}

/// The big-endian rendering of `v` in exactly `width` bytes; high bits beyond
/// the width are discarded.
pub open spec fn be_bytes_of(v: nat, width: nat) -> Seq<u8>
    decreases width,
{
    if width == 0 {
        Seq::<u8>::empty()
    } else {
        be_bytes_of(v / 256, (width - 1) as nat).push((v % 256) as u8)
    }
}

/// The unsigned integer a big-endian byte sequence spells.
pub open spec fn be_val_of(s: Seq<u8>) -> nat
    decreases s.len(),
{
    if s.len() == 0 {
        0
    } else {
        (be_val_of(s.drop_last()) * 256 + s.last()) as nat
    }
}

/// What decoding hex text into a number of at most `width` big-endian bytes
/// yields: a payload wider than `width` bytes is an `Overflow`; a shorter one
/// counts as if left-padded with zero bytes.
pub open spec fn spec_decode_number(s: Seq<char>, width: nat) -> Result<u64, CodecError> {
    let h = strip_hex_prefix(s);
    if h.len() % 2 != 0 || !all_hex_digits(h) {
        Err(CodecError::InvalidHex)
    } else if h.len() / 2 > width {
        Err(CodecError::Overflow)
    } else {
        Ok(be_val_of(bytes_of_hex(h)) as u64)
    }
}

/// The concrete powers of 256 up to the eight-byte word width.
pub proof fn lemma_pow256_values()
    ensures
        pow256(7) == 0x100_0000_0000_0000,
        pow256(8) == 0x1_0000_0000_0000_0000,
{
    assert(pow256(0) == 1);
    assert(pow256(1) == 256 * pow256(0));
    assert(pow256(2) == 256 * pow256(1));
    assert(pow256(3) == 256 * pow256(2));
    assert(pow256(4) == 256 * pow256(3));
    assert(pow256(5) == 256 * pow256(4));
    assert(pow256(6) == 256 * pow256(5));
    assert(pow256(7) == 256 * pow256(6));
    assert(pow256(8) == 256 * pow256(7));
}

pub proof fn lemma_pow256_monotone(a: nat, b: nat)
    requires
        a <= b,
    ensures
        pow256(a) <= pow256(b),
    decreases b,
{
    if a < b {
        lemma_pow256_monotone(a, (b - 1) as nat);
    }
}

pub proof fn lemma_be_bytes_len(v: nat, width: nat)
    ensures
        be_bytes_of(v, width).len() == width,
    decreases width,
{
    if width > 0 {
        lemma_be_bytes_len(v / 256, (width - 1) as nat);
    }
}

fn be_bytes(value: u64, width_bytes: usize) -> (r: Vec<u8>)
    ensures
        r@ == be_bytes_of(value as nat, width_bytes as nat),
        r@.len() == width_bytes,
    decreases width_bytes,
{
    proof {
        lemma_be_bytes_len(value as nat, width_bytes as nat);
    }
    if width_bytes == 0 {
        Vec::new()
    } else {
        let mut r = be_bytes(value / 256, width_bytes - 1);
        r.push((value % 256) as u8);
        r
    }
}

/// Renders `value` as `width_bytes` big-endian bytes in canonical hex: always
/// the full declared width, `2 + 2 * width_bytes` characters in all.
pub fn encode_number(value: u64, width_bytes: usize) -> (r: String)
    requires
        1 <= width_bytes <= 8,
        (value as nat) < pow256(width_bytes as nat),
    ensures
        r@ == hex_prefix_chars() + hex_of(be_bytes_of(value as nat, width_bytes as nat)),
        r@.len() == 2 + 2 * width_bytes,
{
    let bytes = be_bytes(value, width_bytes);
    encode_bytes(&bytes)
}

/// Every 64-bit value fits the canonical eight-byte word width.
pub proof fn lemma_u64_fits_word(value: u64)
    ensures
        (value as nat) < pow256(8),
{
    lemma_pow256_values();
}

/// Decodes hex text, with or without a leading `0x`, into an unsigned number
/// of at most `width_bytes` big-endian bytes; shorter payloads count as
/// left-padded with zero bytes, wider ones fail with `Overflow`.
pub fn decode_number(text: &str, width_bytes: usize) -> (r: Result<u64, CodecError>)
    requires
        1 <= width_bytes <= 8,
    ensures
        match r {
            Ok(v) => spec_decode_number(text@, width_bytes as nat) == Ok::<u64, CodecError>(v),
            Err(e) => spec_decode_number(text@, width_bytes as nat) == Err::<u64, CodecError>(e),
        },
{
    let n = text.unicode_len();
    let off: usize = if n >= 2 && text.get_char(0) == '0' && text.get_char(1) == 'x' {
        2
    } else {
        0
    };
    let ghost h = strip_hex_prefix(text@);
    proof {
        assert(h =~= text@.skip(off as int));
    }
    let m = n - off;
    if m % 2 != 0 {
        return Err(CodecError::InvalidHex);
    }
    let pairs = m / 2;
    let mut bytes: Vec<u8> = Vec::new();
    let mut i: usize = 0;
    while i < pairs
        invariant
            i <= pairs,
            2 * pairs == m,
            m == h.len(),
            off + m == n,
            n == text@.len(),
            h =~= text@.skip(off as int),
            h == strip_hex_prefix(text@),
            bytes@ == bytes_of_hex(h.take(2 * i as int)),
            bytes@.len() == i,
            forall|j: int| 0 <= j < 2 * i ==> is_hex_digit(#[trigger] h[j]),
        decreases pairs - i,
    {
        let c_hi = text.get_char(off + 2 * i);
        let c_lo = text.get_char(off + 2 * i + 1);
        proof {
            assert(h[2 * i as int] == text@[off + 2 * i]);
            assert(h[2 * i + 1] == text@[off + 2 * i + 1]);
        }
        let v_hi = hex_val(c_hi);
        let v_lo = hex_val(c_lo);
        if v_hi.is_none() || v_lo.is_none() {
            proof {
                if hex_val_of(c_hi) is None {
                    assert(!is_hex_digit(h[2 * i as int]));
                } else {
                    assert(!is_hex_digit(h[2 * i + 1]));
                }
            }
            return Err(CodecError::InvalidHex);
        }
        let b: u8 = v_hi.unwrap() * 16 + v_lo.unwrap();
        bytes.push(b);
        i = i + 1;
        proof {
            let t = h.take(2 * i as int);
            assert(t.take(t.len() - 2) =~= h.take(2 * (i - 1)));
            assert(bytes@ =~= bytes_of_hex(h.take(2 * i as int)));
        }
    }
    proof {
        assert(h.take(2 * pairs as int) =~= h);
        assert(all_hex_digits(h));
    }
    if bytes.len() > width_bytes {
        return Err(CodecError::Overflow);
    }
    let mut value: u64 = 0;
    let mut k: usize = 0;
    while k < bytes.len()
        invariant
            k <= bytes@.len(),
            bytes@.len() <= 8,
            value == be_val_of(bytes@.take(k as int)),
            (value as nat) < pow256(k as nat),
        decreases bytes@.len() - k,
    {
        let b = bytes[k];
        proof {
            lemma_pow256_monotone(k as nat, 7);
            lemma_pow256_values();
            assert((value as nat) * 256 + b < pow256((k + 1) as nat)) by (nonlinear_arith)
                requires
                    (value as nat) < pow256(k as nat),
                    b < 256,
                    pow256((k + 1) as nat) == 256 * pow256(k as nat),
            {
            }
            assert(bytes@.take(k + 1).drop_last() =~= bytes@.take(k as int));
        }
        value = value * 256 + (b as u64);
        k = k + 1;
    }
    proof {
        assert(bytes@.take(bytes@.len() as int) =~= bytes@);
    }
    Ok(value)
}

/// Reading back the digit written for a value below sixteen gives that value.
pub proof fn lemma_hex_digit_round_trip(n: u8)
    requires
        n < 16,
    ensures
        hex_val_of(hex_char_of(n)) == Some(n),
{
}

pub proof fn lemma_hex_of_len(bytes: Seq<u8>)
    ensures
        hex_of(bytes).len() == 2 * bytes.len(),
    decreases bytes.len(),
{
    if bytes.len() > 0 {
        lemma_hex_of_len(bytes.drop_last());
    }
}

pub proof fn lemma_hex_of_all_hex(bytes: Seq<u8>)
    ensures
        all_hex_digits(hex_of(bytes)),
    decreases bytes.len(),
{
    if bytes.len() > 0 {
        lemma_hex_of_all_hex(bytes.drop_last());
        lemma_hex_of_len(bytes.drop_last());
        let s = hex_of(bytes);
        let p = hex_of(bytes.drop_last());
        assert forall|i: int| 0 <= i < s.len() implies is_hex_digit(#[trigger] s[i]) by {
            if i < p.len() {
                assert(s[i] == p[i]);
            } else {
                lemma_hex_digit_round_trip(bytes.last() / 16);
                lemma_hex_digit_round_trip(bytes.last() % 16);
            }
        }
    }
}

/// Reading back the hex written for a byte sequence gives that sequence.
pub proof fn lemma_bytes_of_hex_of(bytes: Seq<u8>)
    ensures
        bytes_of_hex(hex_of(bytes)) == bytes,
    decreases bytes.len(),
{
    if bytes.len() == 0 {
        assert(bytes_of_hex(hex_of(bytes)) =~= bytes);
    } else {
        lemma_bytes_of_hex_of(bytes.drop_last());
        lemma_hex_of_len(bytes.drop_last());
        let s = hex_of(bytes);
        let p = hex_of(bytes.drop_last());
        assert(s.take(s.len() - 2) =~= p);
        assert(s[s.len() - 2] == hex_char_of(bytes.last() / 16));
        assert(s[s.len() - 1] == hex_char_of(bytes.last() % 16));
        lemma_hex_digit_round_trip(bytes.last() / 16);
        lemma_hex_digit_round_trip(bytes.last() % 16);
        assert(byte_of_pair(s[s.len() - 2], s[s.len() - 1]) == bytes.last());
        assert(bytes_of_hex(hex_of(bytes)) =~= bytes);
    }
}

pub proof fn lemma_strip_of_prefixed(h: Seq<char>)
    ensures
        strip_hex_prefix(hex_prefix_chars() + h) == h,
{
    let s = hex_prefix_chars() + h;
    assert(s[0] == '0' && s[1] == 'x');
    assert(s.skip(2) =~= h);
}

/// Round trip: decoding the canonical hex rendering of any byte value, at
/// that value's own length, gives the value back.
pub proof fn lemma_bytes_round_trip(bytes: Seq<u8>)
    ensures
        spec_decode_bytes(hex_prefix_chars() + hex_of(bytes), bytes.len()) == Ok::<
            Seq<u8>,
            CodecError,
        >(bytes),
{
    lemma_strip_of_prefixed(hex_of(bytes));
    lemma_hex_of_len(bytes);
    lemma_hex_of_all_hex(bytes);
    lemma_bytes_of_hex_of(bytes);
}

/// Reading back the big-endian bytes written for a value that fits the width
/// gives that value.
pub proof fn lemma_be_round_trip(v: nat, width: nat)
    requires
        v < pow256(width),
    ensures
        be_val_of(be_bytes_of(v, width)) == v,
    decreases width,
{
    if width == 0 {
        assert(v == 0);
    } else {
        let rest = be_bytes_of(v / 256, (width - 1) as nat);
        lemma_be_bytes_len(v / 256, (width - 1) as nat);
        assert(v / 256 < pow256((width - 1) as nat)) by (nonlinear_arith)
            requires
                v < 256 * pow256((width - 1) as nat),
        {
        }
        lemma_be_round_trip(v / 256, (width - 1) as nat);
        let s = be_bytes_of(v, width);
        assert(s.drop_last() =~= rest);
        assert(be_val_of(s) == (v / 256) * 256 + v % 256);
        assert((v / 256) * 256 + v % 256 == v) by (nonlinear_arith);
    }
}

/// The same byte sequence with its leading zero bytes removed: the compact
/// form a human would write for a number.
pub open spec fn trim_leading_zeros(s: Seq<u8>) -> Seq<u8>
    decreases s.len(),
{
    if s.len() > 0 && s[0] == 0 {
        trim_leading_zeros(s.skip(1))
    } else {
        s
    }
}

pub proof fn lemma_be_val_drop_leading_zero(s: Seq<u8>)
    requires
        s.len() > 0,
        s[0] == 0,
    ensures
        be_val_of(s.skip(1)) == be_val_of(s),
    decreases s.len(),
{
    if s.len() == 1 {
        assert(s.skip(1) =~= Seq::<u8>::empty());
        assert(s.drop_last() =~= Seq::<u8>::empty());
        assert(be_val_of(s) == s.last());
    } else {
        lemma_be_val_drop_leading_zero(s.drop_last());
        assert(s.skip(1).drop_last() =~= s.drop_last().skip(1));
        assert(s.skip(1).last() == s.last());
    }
}

proof fn lemma_trim_is_skip(s: Seq<u8>, k: int)
    requires
        0 <= k <= s.len(),
        forall|j: int| 0 <= j < k ==> s[j] == 0,
        k == s.len() || s[k] != 0,
    ensures
        trim_leading_zeros(s) == s.skip(k),
    decreases k,
{
    if k == 0 {
        assert(s.skip(0) =~= s);
    } else {
        assert(s[0] == 0);
        let t = s.skip(1);
        assert forall|j: int| 0 <= j < k - 1 implies t[j] == 0 by {
            assert(t[j] == s[j + 1]);
        }
        assert(k - 1 == t.len() || t[k - 1] != 0);
        lemma_trim_is_skip(t, k - 1);
        assert(t.skip(k - 1) =~= s.skip(k));
    }
}

/// Renders `value` in compact hex: its big-endian bytes at the given width
/// with the leading zero bytes stripped, the form a human would write; zero
/// itself becomes the bare prefix.
pub fn encode_number_compact(value: u64, width_bytes: usize) -> (r: String)
    requires
        1 <= width_bytes <= 8,
        (value as nat) < pow256(width_bytes as nat),
    ensures
        r@ == hex_prefix_chars() + hex_of(
            trim_leading_zeros(be_bytes_of(value as nat, width_bytes as nat)),
        ),
{
    let bytes = be_bytes(value, width_bytes);
    let mut k: usize = 0;
    while k < bytes.len() && bytes[k] == 0
        invariant
            k <= bytes@.len(),
            forall|j: int| 0 <= j < k ==> bytes@[j] == 0,
        decreases bytes@.len() - k,
    {
        k = k + 1;
    }
    let mut compact: Vec<u8> = Vec::new();
    let mut j = k;
    while j < bytes.len()
        invariant
            k <= j <= bytes@.len(),
            compact@ =~= bytes@.subrange(k as int, j as int),
        decreases bytes@.len() - j,
    {
        compact.push(bytes[j]);
        j = j + 1;
    }
    proof {
        lemma_trim_is_skip(bytes@, k as int);
        assert(compact@ =~= bytes@.skip(k as int));
    }
    encode_bytes(&compact)
}

pub proof fn lemma_trim_keeps_value(s: Seq<u8>)
    ensures
        be_val_of(trim_leading_zeros(s)) == be_val_of(s),
        trim_leading_zeros(s).len() <= s.len(),
    decreases s.len(),
{
    if s.len() > 0 && s[0] == 0 {
        lemma_be_val_drop_leading_zero(s);
        lemma_trim_keeps_value(s.skip(1));
    }
}

/// Round trip with padding: a value that fits `width` bytes, rendered in
/// compact form with its leading zero bytes stripped, decodes at that width
/// to the same value.
pub proof fn lemma_number_round_trip_padded(v: u64, width: nat)
    requires
        1 <= width <= 8,
        (v as nat) < pow256(width),
    ensures
        spec_decode_number(
            hex_prefix_chars() + hex_of(trim_leading_zeros(be_bytes_of(v as nat, width))),
            width,
        ) == Ok::<u64, CodecError>(v),
{
    let full = be_bytes_of(v as nat, width);
    let s = trim_leading_zeros(full);
    lemma_be_bytes_len(v as nat, width);
    lemma_trim_keeps_value(full);
    lemma_be_round_trip(v as nat, width);
    lemma_strip_of_prefixed(hex_of(s));
    lemma_hex_of_len(s);
    lemma_hex_of_all_hex(s);
    lemma_bytes_of_hex_of(s);
}

/// The same character with an uppercase hex digit lowered; any other
/// character is left unchanged.
pub open spec fn lower_hex_char(c: char) -> char {
    if c == 'A' {
        'a'
    } else if c == 'B' {
        'b'
    } else if c == 'C' {
        'c'
    } else if c == 'D' {
        'd'
    } else if c == 'E' {
        'e'
    } else if c == 'F' {
        'f'
    } else {
        c
    }
}

/// The same text with every uppercase hex digit lowered.
pub open spec fn lower_hex(s: Seq<char>) -> Seq<char> {
    s.map_values(|c: char| lower_hex_char(c))
}

pub proof fn lemma_bytes_of_hex_ignores_case(s: Seq<char>)
    ensures
        bytes_of_hex(lower_hex(s)) == bytes_of_hex(s),
    decreases s.len(),
{
    let l = lower_hex(s);
    assert(l.len() == s.len());
    if s.len() < 2 {
        assert(bytes_of_hex(l) =~= bytes_of_hex(s));
    } else {
        lemma_bytes_of_hex_ignores_case(s.take(s.len() - 2));
        assert(l.take(l.len() - 2) =~= lower_hex(s.take(s.len() - 2)));
        assert(l[l.len() - 2] == lower_hex_char(s[s.len() - 2]));
        assert(l[l.len() - 1] == lower_hex_char(s[s.len() - 1]));
        assert(byte_of_pair(l[l.len() - 2], l[l.len() - 1]) == byte_of_pair(
            s[s.len() - 2],
            s[s.len() - 1],
        ));
        assert(bytes_of_hex(l) =~= bytes_of_hex(s));
    }
}

/// Case tolerance: hex digits decode the same in either case, so text with
/// its uppercase hex digits lowered decodes to exactly the same result.
pub proof fn lemma_case_tolerance(s: Seq<char>, expected_len: nat)
    ensures
        spec_decode_bytes(lower_hex(s), expected_len) == spec_decode_bytes(s, expected_len),
{
    let l = lower_hex(s);
    let h = strip_hex_prefix(s);
    let lh = strip_hex_prefix(l);
    assert(l.len() == s.len());
    if s.len() >= 2 && s[0] == '0' && s[1] == 'x' {
        assert(l[0] == '0' && l[1] == 'x');
        assert(lh =~= lower_hex(h)) by {
            assert(lh =~= l.skip(2));
            assert(h =~= s.skip(2));
        }
    } else {
        if s.len() >= 2 {
            assert(l[0] == '0' ==> s[0] == '0');
            assert(l[1] == 'x' ==> s[1] == 'x');
        }
        assert(lh =~= lower_hex(h));
    }
    assert(lh == lower_hex(h));
    assert(lh.len() == h.len());
    if all_hex_digits(h) {
        assert forall|i: int| 0 <= i < lh.len() implies is_hex_digit(#[trigger] lh[i]) by {
            assert(lh[i] == lower_hex_char(h[i]));
            assert(is_hex_digit(h[i]));
        }
    }
    if all_hex_digits(lh) {
        assert forall|i: int| 0 <= i < h.len() implies is_hex_digit(#[trigger] h[i]) by {
            assert(lh[i] == lower_hex_char(h[i]));
            assert(is_hex_digit(lh[i]));
        }
    }
    assert(all_hex_digits(lh) == all_hex_digits(h));
    lemma_bytes_of_hex_ignores_case(h);
}

/// Canonical width: the rendering of any 64-bit value at the eight-byte word
/// width is exactly eighteen characters, the prefix and sixteen hex digits.
pub proof fn lemma_canonical_word_width(value: u64)
    ensures
        (hex_prefix_chars() + hex_of(be_bytes_of(value as nat, 8))).len() == 18,
{
    lemma_be_bytes_len(value as nat, 8);
    lemma_hex_of_len(be_bytes_of(value as nat, 8));
}

/// Round trip at full width: the canonical rendering of a value that fits
/// the width decodes at that width to the same value.
pub proof fn lemma_number_round_trip_canonical(v: u64, width: nat)
    requires
        1 <= width <= 8,
        (v as nat) < pow256(width),
    ensures
        spec_decode_number(hex_prefix_chars() + hex_of(be_bytes_of(v as nat, width)), width)
            == Ok::<u64, CodecError>(v),
{
    let full = be_bytes_of(v as nat, width);
    lemma_be_bytes_len(v as nat, width);
    lemma_be_round_trip(v as nat, width);
    lemma_strip_of_prefixed(hex_of(full));
    lemma_hex_of_len(full);
    lemma_hex_of_all_hex(full);
    lemma_bytes_of_hex_of(full);
}

/// Prefix tolerance: text that does not itself open with `0x` decodes to the
/// same result with or without the prefix written in front of it.
pub proof fn lemma_prefix_tolerance(h: Seq<char>, expected_len: nat)
    requires
        !(h.len() >= 2 && h[0] == '0' && h[1] == 'x'),
    ensures
        spec_decode_bytes(hex_prefix_chars() + h, expected_len) == spec_decode_bytes(
            h,
            expected_len,
        ),
{
    lemma_strip_of_prefixed(h);
}

} // verus!
