//! Small text encodings used across the host: fixed-width C strings,
//! lowercase hex, decimal numbers, ASCII case folding and UTF-16.
use vstd::prelude::*;
use vstd::utf8::*;

verus! {

// ---------------------------------------------------------------------
// Trusted helpers over std
// ---------------------------------------------------------------------

/// `String::push`: appends one character at the end.
#[verifier::external_body]
pub(crate) fn push_char(s: &mut String, c: char)
    ensures
        final(s)@ == old(s)@.push(c),
{
    s.push(c);
}

/// What `String::from_utf8_lossy` makes of a byte sequence: valid UTF-8 is
/// decoded, every invalid run becomes U+FFFD.
pub uninterp spec fn utf8_lossy(bytes: Seq<u8>) -> Seq<char>;

/// `String::from_utf8_lossy(bytes).into_owned()`.  The result is named by
/// `utf8_lossy`; for valid UTF-8 std documents that the text is decoded
/// unchanged, which is stated over vstd's `decode_utf8`.  Invalid runs
/// become U+FFFD and UTF-8 encodes NUL only as the byte 0, so bytes without
/// a 0 give text without NUL.
#[verifier::external_body]
pub(crate) fn string_from_utf8_lossy(bytes: &[u8]) -> (s: String)
    ensures
        s@ == utf8_lossy(bytes@),
        valid_utf8(bytes@) ==> s@ == decode_utf8(bytes@),
        !bytes@.contains(0u8) ==> !s@.contains('\0'),
{
    String::from_utf8_lossy(bytes).into_owned()
}

// ---------------------------------------------------------------------
// Fixed-width C strings
// ---------------------------------------------------------------------

/// The two's-complement bit pattern of a C `char` read as an unsigned byte.
pub open spec fn i8_bits(b: i8) -> u8 {
    if b < 0 {
        (b + 256) as u8
    } else {
        b as u8
    }
}

/// The signed C `char` whose bit pattern is the given byte.
pub open spec fn u8_as_i8(b: u8) -> i8 {
    if b < 128 {
        b as i8
    } else {
        (b - 256) as i8
    }
}

/// Number of characters before the first NUL (or the whole length if none).
pub open spec fn c_string_len(s: Seq<i8>) -> nat
    decreases s.len(),
{
    if s.len() == 0 || s[0] == 0 {
        0
    } else {
        1 + c_string_len(s.drop_first())
    }
}

/// The bytes of a NUL-terminated fixed-width buffer, terminator excluded.
pub open spec fn c_string_bytes(s: Seq<i8>) -> Seq<u8> {
    s.take(c_string_len(s) as int).map_values(|b: i8| i8_bits(b))
}

/// `c_string_len` is the first index holding NUL, or the length.
pub proof fn lemma_c_string_len(s: Seq<i8>, k: int)
    requires
        0 <= k <= s.len(),
        forall|j: int| 0 <= j < k ==> s[j] != 0,
        k == s.len() || s[k] == 0,
    ensures
        c_string_len(s) == k,
    decreases s.len(),
{
    if s.len() != 0 && s[0] != 0 {
        let t = s.drop_first();
        assert forall|j: int| 0 <= j < k - 1 implies t[j] != 0 by {
            assert(t[j] == s[j + 1]);
        }
        if k - 1 < t.len() {
            assert(t[k - 1] == s[k]);
        }
        lemma_c_string_len(t, k - 1);
    }
}

/// Law: only the bytes before the first NUL matter.  Two buffers that agree
/// up to and including their first NUL convert to the same text.
pub proof fn lemma_c_string_ignores_tail(a: Seq<i8>, b: Seq<i8>, k: int)
    requires
        0 <= k < a.len(),
        k < b.len(),
        a.take(k) == b.take(k),
        a[k] == 0,
        b[k] == 0,
        forall|j: int| 0 <= j < k ==> a[j] != 0,
    ensures
        c_string_bytes(a) == c_string_bytes(b),
        utf8_lossy(c_string_bytes(a)) == utf8_lossy(c_string_bytes(b)),
{
    assert forall|j: int| 0 <= j < k implies b[j] != 0 by {
        assert(b[j] == b.take(k)[j]);
        assert(a[j] == a.take(k)[j]);
    }
    lemma_c_string_len(a, k);
    lemma_c_string_len(b, k);
}

// ---------------------------------------------------------------------
// Lowercase hexadecimal
// ---------------------------------------------------------------------

/// The lowercase hexadecimal digit for a value below 16.
pub open spec fn hex_digit(v: int) -> char {
    if v < 10 {
        (v + 48) as char
    } else {
        (v + 87) as char
    }
}

/// Two lowercase hex digits per byte, most significant nibble first
/// (what `format!("{:02x}", b)` writes).
pub open spec fn hex_of(bytes: Seq<u8>) -> Seq<char>
    decreases bytes.len(),
{
    if bytes.len() == 0 {
        seq![]
    } else {
        hex_of(bytes.drop_last()) + seq![
            hex_digit(bytes.last() as int / 16),
            hex_digit(bytes.last() as int % 16),
        ]
    }
}

fn hex_digit_exec(v: u8) -> (c: char)
    requires
        v < 16,
    ensures
        c == hex_digit(v as int),
{
    if v < 10 {
        ((v + 48) as char)
    } else {
        ((v + 87) as char)
    }
}

/// Lowercase hex text of a byte sequence.
pub fn hex_string(bytes: &[u8]) -> (s: String)
    ensures
        s@ == hex_of(bytes@),
{
    let mut out = String::new();
    let mut i: usize = 0;
    while i < bytes.len()
        invariant
            i <= bytes@.len(),
            out@ == hex_of(bytes@.take(i as int)),
        decreases bytes@.len() - i,
    {
        let b = bytes[i];
        push_char(&mut out, hex_digit_exec(b / 16));
        push_char(&mut out, hex_digit_exec(b % 16));
        assert(bytes@.take(i + 1).drop_last() =~= bytes@.take(i as int));
        i = i + 1;
    }
    assert(bytes@.take(bytes@.len() as int) =~= bytes@);
    out
}

/// The hex text has two digits per byte.
pub proof fn lemma_hex_len(bytes: Seq<u8>)
    ensures
        hex_of(bytes).len() == 2 * bytes.len(),
    decreases bytes.len(),
{
    if bytes.len() > 0 {
        lemma_hex_len(bytes.drop_last());
    }
}

proof fn lemma_hex_digit_injective(a: int, b: int)
    requires
        0 <= a < 16,
        0 <= b < 16,
        hex_digit(a) == hex_digit(b),
    ensures
        a == b,
{
    assert((a + 48) as char as int == a + 48);
    assert((a + 87) as char as int == a + 87);
    assert((b + 48) as char as int == b + 48);
    assert((b + 87) as char as int == b + 87);
}

/// Law: hex text determines the bytes it was made of.
pub proof fn lemma_hex_injective(a: Seq<u8>, b: Seq<u8>)
    requires
        hex_of(a) == hex_of(b),
    ensures
        a == b,
    decreases a.len(),
{
    lemma_hex_len(a);
    lemma_hex_len(b);
    if a.len() > 0 {
        let ha = hex_of(a.drop_last());
        let hb = hex_of(b.drop_last());
        lemma_hex_len(a.drop_last());
        lemma_hex_len(b.drop_last());
        let n = ha.len() as int;
        let ta = seq![hex_digit(a.last() as int / 16), hex_digit(a.last() as int % 16)];
        let tb = seq![hex_digit(b.last() as int / 16), hex_digit(b.last() as int % 16)];
        assert(hex_of(a) == ha + ta);
        assert(hex_of(b) == hb + tb);
        assert((ha + ta)[n] == ta[0]);
        assert((hb + tb)[n] == tb[0]);
        assert((ha + ta)[n + 1] == ta[1]);
        assert((hb + tb)[n + 1] == tb[1]);
        lemma_hex_digit_injective(a.last() as int / 16, b.last() as int / 16);
        lemma_hex_digit_injective(a.last() as int % 16, b.last() as int % 16);
        assert(ha =~= hex_of(a).take(n));
        assert(hb =~= hex_of(b).take(n));
        lemma_hex_injective(a.drop_last(), b.drop_last());
        assert(a =~= a.drop_last().push(a.last()));
        assert(b =~= b.drop_last().push(b.last()));
    }
}

/// Whether a character is a lowercase hexadecimal digit (`0-9`, `a-f`).
pub open spec fn is_lower_hex_digit(c: char) -> bool {
    ('0' <= c && c <= '9') || ('a' <= c && c <= 'f')
}

/// The value of a lowercase hexadecimal digit.
pub open spec fn hex_value(c: char) -> int {
    if '0' <= c && c <= '9' {
        c as int - 48
    } else {
        c as int - 87
    }
}

/// A digit made by `hex_digit` is a lowercase hex digit that reads back as
/// its value.
pub proof fn lemma_hex_digit_reads_back(v: int)
    requires
        0 <= v < 16,
    ensures
        is_lower_hex_digit(hex_digit(v)),
        hex_value(hex_digit(v)) == v,
{
    assert((v + 48) as char as int == v + 48);
    assert((v + 87) as char as int == v + 87);
}

/// Law: the hex text of a byte sequence is made of lowercase hex digits,
/// two per byte, and the pair at `2 * j` reads back as byte `j` (high
/// nibble first).
pub proof fn lemma_hex_pairs(bytes: Seq<u8>, j: int)
    requires
        0 <= j < bytes.len(),
    ensures
        hex_of(bytes).len() == 2 * bytes.len(),
        hex_of(bytes)[2 * j] == hex_digit(bytes[j] as int / 16),
        hex_of(bytes)[2 * j + 1] == hex_digit(bytes[j] as int % 16),
        is_lower_hex_digit(hex_of(bytes)[2 * j]),
        is_lower_hex_digit(hex_of(bytes)[2 * j + 1]),
        hex_value(hex_of(bytes)[2 * j]) * 16 + hex_value(hex_of(bytes)[2 * j + 1]) == bytes[j],
    decreases bytes.len(),
{
    lemma_hex_len(bytes);
    let init = bytes.drop_last();
    lemma_hex_len(init);
    let tail = seq![hex_digit(bytes.last() as int / 16), hex_digit(bytes.last() as int % 16)];
    assert(hex_of(bytes) == hex_of(init) + tail);
    if j == bytes.len() - 1 {
        assert(hex_of(bytes)[2 * j] == tail[0]);
        assert(hex_of(bytes)[2 * j + 1] == tail[1]);
    } else {
        lemma_hex_pairs(init, j);
        assert(init[j] == bytes[j]);
        assert(hex_of(bytes)[2 * j] == hex_of(init)[2 * j]);
        assert(hex_of(bytes)[2 * j + 1] == hex_of(init)[2 * j + 1]);
    }
    let b = bytes[j] as int;
    lemma_hex_digit_reads_back(b / 16);
    lemma_hex_digit_reads_back(b % 16);
}

// ---------------------------------------------------------------------
// Decimal numbers
// ---------------------------------------------------------------------

/// The decimal digit for a value below 10.
pub open spec fn decimal_digit(v: int) -> char {
    (v + 48) as char
}

/// Decimal digits of a natural number, no leading zeros (`0` is `"0"`).
pub open spec fn decimal(n: nat) -> Seq<char>
    decreases n,
{
    if n < 10 {
        seq![decimal_digit(n as int)]
    } else {
        decimal(n / 10).push(decimal_digit((n % 10) as int))
    }
}

/// Decimal text of a signed integer, as `Display` writes it.
pub open spec fn signed_decimal(v: int) -> Seq<char> {
    if v < 0 {
        seq!['-'] + decimal((-v) as nat)
    } else {
        decimal(v as nat)
    }
}

fn push_decimal(out: &mut String, n: u64)
    ensures
        final(out)@ == old(out)@ + decimal(n as nat),
    decreases n,
{
    if n >= 10 {
        push_decimal(out, n / 10);
    }
    let d = (n % 10) as u8;
    push_char(out, ((d + 48) as char));
}

/// `text` padded on the left with `0` up to `width` characters (what the
/// `{:0width$}` format writes for a number).
pub open spec fn zero_pad(text: Seq<char>, width: nat) -> Seq<char> {
    if text.len() >= width {
        text
    } else {
        Seq::new((width - text.len()) as nat, |i: int| '0') + text
    }
}

/// The decimal text of a number.
pub fn decimal_string(n: u64) -> (s: String)
    ensures
        s@ == decimal(n as nat),
{
    let mut s = String::new();
    push_decimal(&mut s, n);
    assert(Seq::<char>::empty() + decimal(n as nat) =~= decimal(n as nat));
    s
}

/// Appends a number in decimal, zero-padded on the left to `width`.
pub fn push_zero_padded(out: &mut String, n: u64, width: usize)
    ensures
        final(out)@ == old(out)@ + zero_pad(decimal(n as nat), width as nat),
{
    let digits = decimal_string(n);
    let len = digits.as_str().unicode_len();
    let ghost start = out@;
    if len < width {
        let mut k: usize = 0;
        while k < width - len
            invariant
                len < width,
                k <= width - len,
                out@ == start + Seq::new(k as nat, |i: int| '0'),
            decreases width - len - k,
        {
            push_char(out, '0');
            assert(start + Seq::new((k + 1) as nat, |i: int| '0') =~= (start + Seq::new(
                k as nat,
                |i: int| '0',
            )).push('0'));
            k = k + 1;
        }
    }
    out.append(digits.as_str());
    assert(final(out)@ =~= start + zero_pad(decimal(n as nat), width as nat));
}

/// Appends the decimal text of a signed 32-bit integer.
pub fn push_i32(out: &mut String, v: i32)
    ensures
        final(out)@ == old(out)@ + signed_decimal(v as int),
{
    if v < 0 {
        push_char(out, '-');
        let m: u64 = (-(v as i64)) as u64;
        push_decimal(out, m);
        assert(old(out)@.push('-') + decimal(m as nat) =~= old(out)@ + (seq!['-'] + decimal(m as nat)));
    } else {
        push_decimal(out, v as u64);
    }
}

// ---------------------------------------------------------------------
// ASCII case folding
// ---------------------------------------------------------------------

/// `char::to_ascii_lowercase`.
pub open spec fn ascii_lower(c: char) -> char {
    if 'A' <= c && c <= 'Z' {
        ((c as int) + 32) as char
    } else {
        c
    }
}

/// `str::eq_ignore_ascii_case`: equal once ASCII letters are lowercased.
pub open spec fn eq_ignore_ascii_case(a: Seq<char>, b: Seq<char>) -> bool {
    &&& a.len() == b.len()
    &&& forall|i: int| 0 <= i < a.len() ==> ascii_lower(a[i]) == ascii_lower(b[i])
}

fn ascii_lower_exec(c: char) -> (r: char)
    ensures
        r == ascii_lower(c),
{
    if 'A' <= c && c <= 'Z' {
        let v: u32 = (c as u32) + 32;
        let r: char = (v as u8) as char;
        r
    } else {
        c
    }
}

/// Compares two texts ignoring the case of ASCII letters.
pub fn str_eq_ignore_ascii_case(a: &str, b: &str) -> (r: bool)
    ensures
        r == eq_ignore_ascii_case(a@, b@),
{
    let n = a.unicode_len();
    if n != b.unicode_len() {
        return false;
    }
    let mut i: usize = 0;
    while i < n
        invariant
            n == a@.len(),
            n == b@.len(),
            i <= n,
            forall|j: int| 0 <= j < i ==> ascii_lower(a@[j]) == ascii_lower(b@[j]),
        decreases n - i,
    {
        if ascii_lower_exec(a.get_char(i)) != ascii_lower_exec(b.get_char(i)) {
            return false;
        }
        i = i + 1;
    }
    true
}

// ---------------------------------------------------------------------
// UTF-16
// ---------------------------------------------------------------------

/// The UTF-16 code units of one scalar value: itself below U+10000, else a
/// surrogate pair.
pub open spec fn utf16_units(c: char) -> Seq<u16> {
    let v = c as int;
    if v < 0x10000 {
        seq![v as u16]
    } else {
        seq![(0xD800 + (v - 0x10000) / 0x400) as u16, (0xDC00 + (v - 0x10000) % 0x400) as u16]
    }
}

/// `str::encode_utf16`, collected.
pub open spec fn utf16_of(s: Seq<char>) -> Seq<u16>
    decreases s.len(),
{
    if s.len() == 0 {
        seq![]
    } else {
        utf16_of(s.drop_last()) + utf16_units(s.last())
    }
}

/// Encodes text as UTF-16 code units.
pub fn encode_utf16(s: &str) -> (units: Vec<u16>)
    ensures
        units@ == utf16_of(s@),
{
    let n = s.unicode_len();
    let mut units: Vec<u16> = Vec::new();
    let mut i: usize = 0;
    while i < n
        invariant
            n == s@.len(),
            i <= n,
            units@ == utf16_of(s@.take(i as int)),
        decreases n - i,
    {
        let c = s.get_char(i);
        let v: u32 = c as u32;
        assert(v <= 0x10FFFF);
        if v < 0x10000 {
            units.push(v as u16);
        } else {
            let w: u32 = v - 0x10000;
            units.push((0xD800 + w / 0x400) as u16);
            units.push((0xDC00 + w % 0x400) as u16);
        }
        assert(s@.take(i + 1).drop_last() =~= s@.take(i as int));
        assert(s@.take(i + 1).last() == c);
        i = i + 1;
    }
    assert(s@.take(n as int) =~= s@);
    units
}

/// A UTF-16 code unit stored in a signed 16-bit slot (same bits).
pub open spec fn u16_as_i16(u: u16) -> i16 {
    if u < 0x8000 {
        u as i16
    } else {
        (u - 0x10000) as i16
    }
}

pub(crate) fn u16_to_i16(u: u16) -> (r: i16)
    ensures
        r == u16_as_i16(u),
{
    let r: i16 = u as i16;
    assert(u < 0x8000 ==> (u as i16) as int == u as int) by (bit_vector);
    assert(u >= 0x8000 ==> (u as i16) as int == u as int - 0x10000) by (bit_vector);
    r
}

} // verus!
