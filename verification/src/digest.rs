//! SHA-1 digests, their lower-case hex form, and the decimal and byte renderings of
//! integers that identities and fingerprints are built from.
use vstd::prelude::*;

verus! {

/// The SHA-1 digest of a byte sequence, as the `sha1` crate computes it.
pub uninterp spec fn sha1_spec(data: Seq<u8>) -> Seq<u8>;

/// `sha1::Sha1::digest`: the 20-byte SHA-1 digest of `data`. Trusted: the result is
/// the named digest of the input bytes, and a SHA-1 digest is always 160 bits long.
#[verifier::external_body]
pub(crate) fn sha1_digest(data: &[u8]) -> (digest: Vec<u8>)
    ensures
        digest@ == sha1_spec(data@),
        digest@.len() == 20,
{
    <sha1::Sha1 as sha1::Digest>::digest(data).to_vec()
}

/// The lower-case hexadecimal digit for a value below 16.
pub open spec fn hex_digit_lower(v: int) -> char {
    if v < 10 {
        ((v + 48) as u8) as char
    } else {
        ((v - 10 + 97) as u8) as char
    }
}

/// The upper-case hexadecimal digit for a value below 16.
pub open spec fn hex_digit_upper(v: int) -> char {
    if v < 10 {
        ((v + 48) as u8) as char
    } else {
        ((v - 10 + 65) as u8) as char
    }
}

/// Two lower-case hex digits per byte, high nibble first.
pub open spec fn hex_lower_spec(bytes: Seq<u8>) -> Seq<char>
    decreases bytes.len(),
{
    if bytes.len() == 0 {
        Seq::empty()
    } else {
        hex_lower_spec(bytes.drop_last()) + seq![
            hex_digit_lower(bytes.last() as int / 16),
            hex_digit_lower(bytes.last() as int % 16),
        ]
    }
}

pub fn hex_char_lower(v: u8) -> (c: char)
    requires
        v < 16,
    ensures
        c == hex_digit_lower(v as int),
{
    if v < 10 {
        (v + 48) as char
    } else {
        (v - 10 + 97) as char
    }
}

pub fn hex_char_upper(v: u8) -> (c: char)
    requires
        v < 16,
    ensures
        c == hex_digit_upper(v as int),
{
    if v < 10 {
        (v + 48) as char
    } else {
        (v - 10 + 65) as char
    }
}

/// Lower-case hex encoding of bytes.
pub fn hex_lower(bytes: &[u8]) -> (s: String)
    ensures
        s@ == hex_lower_spec(bytes@),
{
    let mut s = String::new();
    let mut i: usize = 0;
    while i < bytes.len()
        invariant
            i <= bytes@.len(),
            s@ == hex_lower_spec(bytes@.subrange(0, i as int)),
        decreases bytes@.len() - i,
    {
        let b = bytes[i];
        crate::text::push_char(&mut s, hex_char_lower(b / 16));
        crate::text::push_char(&mut s, hex_char_lower(b % 16));
        i = i + 1;
        proof {
            let pre = bytes@.subrange(0, i as int);
            assert(pre.drop_last() =~= bytes@.subrange(0, i - 1));
        }
        assert(s@ =~= hex_lower_spec(bytes@.subrange(0, i as int)));
    }
    assert(bytes@.subrange(0, bytes@.len() as int) =~= bytes@);
    s
}

/// Lower-case hex of the SHA-1 digest of some bytes.
pub open spec fn sha1_hex_spec(data: Seq<u8>) -> Seq<char> {
    hex_lower_spec(sha1_spec(data))
}

/// Lower-case hex of the SHA-1 digest of `data`.
pub fn sha1_hex(data: &[u8]) -> (s: String)
    ensures
        s@ == sha1_hex_spec(data@),
{
    let digest = sha1_digest(data);
    hex_lower(digest.as_slice())
}

/// The decimal digit character for a value below 10.
pub open spec fn digit_char(v: int) -> char {
    ((v + 48) as u8) as char
}

/// The decimal rendering of a natural number, without sign or leading zeros.
pub open spec fn decimal_spec(n: nat) -> Seq<char>
    decreases n,
{
    if n < 10 {
        seq![digit_char(n as int)]
    } else {
        decimal_spec(n / 10) + seq![digit_char((n % 10) as int)]
    }
}

/// The decimal rendering of an integer, with a leading `-` when negative.
pub open spec fn signed_decimal_spec(n: int) -> Seq<char> {
    if n < 0 {
        seq!['-'] + decimal_spec((-n) as nat)
    } else {
        decimal_spec(n as nat)
    }
}

/// The decimal rendering of an unsigned integer (`u64::to_string`).
pub fn decimal_u64(n: u64) -> (s: String)
    ensures
        s@ == decimal_spec(n as nat),
{
    let v = decimal_chars_u128(n as u128);
    crate::text::string_from_chars(v.as_slice())
}

/// The decimal digits of a 128-bit unsigned integer.
pub fn decimal_chars_u128(n: u128) -> (v: Vec<char>)
    ensures
        v@ == decimal_spec(n as nat),
{
    let mut tail: Vec<char> = Vec::new();
    let mut m = n;
    while m >= 10
        invariant
            decimal_spec(n as nat) == decimal_spec(m as nat) + tail@,
        decreases m,
    {
        let d = (m % 10) as u8;
        let c = (d + 48) as char;
        assert(c == digit_char((m % 10) as int));
        tail.insert(0, c);
        let ghost old_m = m;
        m = m / 10;
        assert(decimal_spec(old_m as nat) == decimal_spec(m as nat) + seq![c]);
        assert(decimal_spec(n as nat) =~= decimal_spec(m as nat) + tail@);
    }
    let mut v: Vec<char> = Vec::new();
    v.push(((m as u8) + 48) as char);
    v.append(&mut tail);
    assert(v@ =~= decimal_spec(n as nat));
    v
}

/// The decimal rendering of a signed integer (`i64::to_string`).
pub fn decimal_i64(n: i64) -> (s: String)
    ensures
        s@ == signed_decimal_spec(n as int),
{
    if n < 0 {
        let magnitude: u128 = (0 - (n as i128)) as u128;
        let mut v: Vec<char> = Vec::new();
        v.push('-');
        let mut digits = decimal_chars_u128(magnitude);
        v.append(&mut digits);
        crate::text::string_from_chars(v.as_slice())
    } else {
        decimal_u64(n as u64)
    }
}

/// The decimal rendering of a `usize` (`usize::to_string`).
pub fn decimal_usize(n: usize) -> (s: String)
    ensures
        s@ == decimal_spec(n as nat),
{
    let v = decimal_chars_u128(n as u128);
    crate::text::string_from_chars(v.as_slice())
}

/// The little-endian bytes of `n` in `width` bytes.
pub open spec fn le_bytes_spec(n: nat, width: nat) -> Seq<u8>
    decreases width,
{
    if width == 0 {
        Seq::empty()
    } else {
        seq![(n % 256) as u8] + le_bytes_spec(n / 256, (width - 1) as nat)
    }
}

/// The big-endian bytes of a `usize` in the machine's word width (`usize::to_be_bytes`).
pub open spec fn usize_be_bytes_spec(n: usize) -> Seq<u8> {
    le_bytes_spec(n as nat, (usize::BITS / 8) as nat).reverse()
}

/// `usize::to_be_bytes`, as a vector.
pub fn usize_be_bytes(n: usize) -> (b: Vec<u8>)
    ensures
        b@ == usize_be_bytes_spec(n),
{
    let width: usize = (usize::BITS / 8) as usize;
    let mut le: Vec<u8> = Vec::new();
    let mut m = n;
    let mut i: usize = 0;
    while i < width
        invariant
            width == usize::BITS / 8,
            i <= width,
            le_bytes_spec(n as nat, width as nat) == le@ + le_bytes_spec(m as nat, (width - i) as nat),
        decreases width - i,
    {
        let ghost old_m = m;
        let ghost old_le = le@;
        le.push((m % 256) as u8);
        m = m / 256;
        i = i + 1;
        assert(le_bytes_spec(old_m as nat, (width - i + 1) as nat) == seq![(old_m % 256) as u8]
            + le_bytes_spec(m as nat, (width - i) as nat));
        assert(le_bytes_spec(n as nat, width as nat) =~= le@ + le_bytes_spec(m as nat, (width - i) as nat));
    }
    assert(le@ =~= le_bytes_spec(n as nat, width as nat));
    let mut b: Vec<u8> = Vec::new();
    let mut j: usize = le.len();
    while j > 0
        invariant
            j <= le@.len(),
            b@ =~= le@.subrange(j as int, le@.len() as int).reverse(),
        decreases j,
    {
        j = j - 1;
        b.push(le[j]);
        assert(b@ =~= le@.subrange(j as int, le@.len() as int).reverse());
    }
    assert(le@.subrange(0, le@.len() as int) =~= le@);
    b
}

} // verus!
