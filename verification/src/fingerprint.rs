//! Stable identifiers derived from text: 64-bit FNV-1a hashes written in hexadecimal.
use vstd::prelude::*;

verus! {

/// The FNV-1a offset basis.
pub const FNV_OFFSET: u64 = 0xcbf29ce484222325;

/// The FNV-1a prime.
pub const FNV_PRIME: u64 = 0x100000001b3;

/// The 64-bit FNV-1a hash of a byte string.
pub open spec fn fnv1a(bytes: Seq<u8>) -> u64
    decreases bytes.len(),
{
    if bytes.len() == 0 {
        FNV_OFFSET
    } else {
        vstd::wrapping::u64_specs::wrapping_mul(
            fnv1a(bytes.drop_last()) ^ (bytes.last() as u64),
            FNV_PRIME,
        )
    }
}

/// The 64-bit FNV-1a hash of `bytes`.
pub fn hash_bytes(bytes: &[u8]) -> (r: u64)
    ensures
        r == fnv1a(bytes@),
{
    let mut h: u64 = FNV_OFFSET;
    let mut i: usize = 0;
    while i < bytes.len()
        invariant
            i <= bytes@.len(),
            h == fnv1a(bytes@.take(i as int)),
        decreases bytes@.len() - i,
    {
        assert(bytes@.take(i + 1).drop_last() == bytes@.take(i as int));
        h = (h ^ bytes[i] as u64).wrapping_mul(FNV_PRIME);
        i += 1;
    }
    assert(bytes@.take(bytes@.len() as int) == bytes@);
    h
}

/// The lowercase hexadecimal digit for `n` in 0..16.
pub open spec fn hex_digit(n: int) -> char {
    if n < 10 {
        (('0' as u32) + n) as char
    } else {
        (('a' as u32) + (n - 10)) as char
    }
}

/// The last `n` hexadecimal digits of `x`, most significant first (zero-padded).
pub open spec fn hex_digits(x: int, n: nat) -> Seq<char>
    decreases n,
{
    if n == 0 {
        Seq::empty()
    } else {
        hex_digits(x / 16, (n - 1) as nat).push(hex_digit(x % 16))
    }
}

fn digit_char(n: u64) -> (c: char)
    requires
        n < 16,
    ensures
        c == hex_digit(n as int),
{
    if n < 10 {
        ((0x30 + n) as u8) as char
    } else {
        ((0x61 + (n - 10)) as u8) as char
    }
}

fn push_hex(out: &mut Vec<char>, x: u64, n: usize)
    requires
        n <= 16,
    ensures
        final(out)@ == old(out)@ + hex_digits(x as int, n as nat),
    decreases n,
{
    if n > 0 {
        push_hex(out, x / 16, n - 1);
        out.push(digit_char(x % 16));
    }
}

/// `hex_digits` gives exactly `n` digits.
pub proof fn lemma_hex_digits_len(x: int, n: nat)
    ensures
        hex_digits(x, n).len() == n,
    decreases n,
{
    if n > 0 {
        lemma_hex_digits_len(x / 16, (n - 1) as nat);
    }
}

/// The 16 lowercase hexadecimal digits of the FNV-1a hash of the UTF-8 bytes of `value`.
pub open spec fn hash_text(value: Seq<char>) -> Seq<char> {
    hex_digits(fnv1a(vstd::utf8::encode_utf8(value)) as int, 16)
}

/// A stable identifier fragment for a text: its FNV-1a hash in 16 hex digits.
pub fn hash(value: &str) -> (r: String)
    ensures
        r@ == hash_text(value@),
{
    let h = hash_bytes(value.as_bytes());
    let mut v: Vec<char> = Vec::new();
    push_hex(&mut v, h, 16);
    assert(v@ == Seq::<char>::empty() + hex_digits(h as int, 16));
    crate::text::string_of_chars(&v)
}

/// `x` in 16 lowercase hexadecimal digits (`format!("{:016x}", x)`).
pub fn hex16(x: u64) -> (r: String)
    ensures
        r@ == hex_digits(x as int, 16),
{
    let mut v: Vec<char> = Vec::new();
    push_hex(&mut v, x, 16);
    assert(v@ == Seq::<char>::empty() + hex_digits(x as int, 16));
    crate::text::string_of_chars(&v)
}

} // verus!
