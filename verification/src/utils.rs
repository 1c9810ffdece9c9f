use vstd::prelude::*;
use vstd::string::*;
use vstd::utf8::*;

use crate::error::ParseError;

verus! {

/// `n` as a `usize`, or `usize::MAX` when it does not fit.
pub open spec fn usize_sat(n: int) -> usize {
    if n <= usize::MAX {
        n as usize
    } else {
        usize::MAX
    }
}

/// The outcome of a length check: `BufferTooShort` exactly when `len < needed`.
/// A requirement too large for a `usize` is reported as `usize::MAX`.
pub open spec fn len_error(len: int, needed: int) -> Option<ParseError> {
    if len < needed {
        Some(ParseError::BufferTooShort { needed: usize_sat(needed), got: len as usize })
    } else {
        None
    }
}

/// Ensure `buf` holds at least `needed` bytes, else `BufferTooShort`.
pub fn require_len(buf: &[u8], needed: usize) -> (res: Result<(), ParseError>)
    ensures
        match res {
            Ok(_) => len_error(buf@.len() as int, needed as int) is None,
            Err(e) => len_error(buf@.len() as int, needed as int) == Some(e),
        },
{
    if buf.len() < needed {
        Err(ParseError::BufferTooShort { needed, got: buf.len() })
    } else {
        Ok(())
    }
}

// ── Big-endian fixed-width readers ──────────────────────────────
//
// All integers of the protocol are big-endian. The spec functions give
// the numeric value of the bytes at `off`; the readers compute it.

/// Unsigned value of the two bytes at `off`, most significant first.
pub open spec fn be16(s: Seq<u8>, off: int) -> int {
    s[off] * 256 + s[off + 1]
}

/// Unsigned value of the four bytes at `off`, most significant first.
pub open spec fn be32(s: Seq<u8>, off: int) -> int {
    s[off] * 0x100_0000 + s[off + 1] * 0x1_0000 + s[off + 2] * 0x100 + s[off + 3]
}

/// Unsigned value of the eight bytes at `off`, most significant first.
pub open spec fn be64(s: Seq<u8>, off: int) -> int {
    be32(s, off) * 0x1_0000_0000 + be32(s, off + 4)
}

/// Two's-complement reading of a 32-bit unsigned value.
pub open spec fn signed32(u: int) -> int {
    if u < 0x8000_0000 { u } else { u - 0x1_0000_0000 }
}

/// Two's-complement reading of a 64-bit unsigned value.
pub open spec fn signed64(u: int) -> int {
    if u < 0x8000_0000_0000_0000 { u } else { u - 0x1_0000_0000_0000_0000 }
}

// ── Reading numbers off a byte string ────────────────────────────
//
// A second, positional vocabulary: the number whose base-256 digits are a
// run of bytes, most significant first. The laws of the message modules
// state each field's place in these terms.

/// The unsigned number whose base-256 digits, most significant first, are
/// `bytes`.
pub open spec fn be_value(bytes: Seq<u8>) -> nat
    decreases bytes.len(),
{
    if bytes.len() == 0 {
        0
    } else {
        be_value(bytes.drop_last()) * 256 + bytes.last() as nat
    }
}

/// `256` to the power `n`.
pub open spec fn pow256(n: nat) -> nat
    decreases n,
{
    if n == 0 {
        1
    } else {
        256 * pow256((n - 1) as nat)
    }
}

/// The two's-complement number written in `bytes`: negative exactly when
/// the top bit of the first byte is set.
pub open spec fn signed_be(bytes: Seq<u8>) -> int {
    if bytes.len() > 0 && bytes[0] >= 0x80 {
        be_value(bytes) - pow256(bytes.len())
    } else {
        be_value(bytes) as int
    }
}

/// The unsigned field of `n` bytes at `off` of `s`.
pub open spec fn uint_at(s: Seq<u8>, off: int, n: int) -> int {
    be_value(s.subrange(off, off + n)) as int
}

/// The signed (two's-complement) field of `n` bytes at `off` of `s`.
pub open spec fn int_at(s: Seq<u8>, off: int, n: int) -> int {
    signed_be(s.subrange(off, off + n))
}

/// Reading a field of the bytes from `base` on is reading the same bytes
/// of the whole string, `base` further along.
pub proof fn lemma_field_shift(s: Seq<u8>, base: int, off: int, n: int)
    requires
        0 <= base,
        0 <= off,
        0 <= n,
        base + off + n <= s.len(),
    ensures
        uint_at(s.subrange(base, s.len() as int), off, n) == uint_at(s, base + off, n),
        int_at(s.subrange(base, s.len() as int), off, n) == int_at(s, base + off, n),
{
    assert(s.subrange(base, s.len() as int).subrange(off, off + n) =~= s.subrange(
        base + off,
        base + off + n,
    ));
}

proof fn lemma_be_value_step(s: Seq<u8>, off: int, n: int)
    requires
        0 <= off,
        0 <= n,
        off + n + 1 <= s.len(),
    ensures
        be_value(s.subrange(off, off + n + 1)) == be_value(s.subrange(off, off + n)) * 256
            + s[off + n],
{
    assert(s.subrange(off, off + n + 1).drop_last() =~= s.subrange(off, off + n));
}

proof fn lemma_be_value_first(s: Seq<u8>, off: int)
    requires
        0 <= off < s.len(),
    ensures
        be_value(s.subrange(off, off + 1)) == s[off],
{
    lemma_be_value_step(s, off, 0);
    assert(s.subrange(off, off) =~= Seq::<u8>::empty());
}

/// Two bytes read positionally are the value `be16` computes.
pub proof fn lemma_uint16(s: Seq<u8>, off: int)
    requires
        0 <= off,
        off + 2 <= s.len(),
    ensures
        uint_at(s, off, 2) == be16(s, off),
{
    lemma_be_value_first(s, off);
    lemma_be_value_step(s, off, 1);
}

/// Four bytes read positionally are the value `be32` computes.
pub proof fn lemma_uint32(s: Seq<u8>, off: int)
    requires
        0 <= off,
        off + 4 <= s.len(),
    ensures
        uint_at(s, off, 4) == be32(s, off),
{
    lemma_be_value_first(s, off);
    lemma_be_value_step(s, off, 1);
    lemma_be_value_step(s, off, 2);
    lemma_be_value_step(s, off, 3);
}

/// Eight bytes read positionally are the value `be64` computes.
pub proof fn lemma_uint64(s: Seq<u8>, off: int)
    requires
        0 <= off,
        off + 8 <= s.len(),
    ensures
        uint_at(s, off, 8) == be64(s, off),
{
    lemma_be_value_first(s, off);
    lemma_be_value_step(s, off, 1);
    lemma_be_value_step(s, off, 2);
    lemma_be_value_step(s, off, 3);
    lemma_be_value_step(s, off, 4);
    lemma_be_value_step(s, off, 5);
    lemma_be_value_step(s, off, 6);
    lemma_be_value_step(s, off, 7);
}

/// The two's-complement reading of four bytes is `signed32` of `be32`.
pub proof fn lemma_int32(s: Seq<u8>, off: int)
    requires
        0 <= off,
        off + 4 <= s.len(),
    ensures
        int_at(s, off, 4) == signed32(be32(s, off)),
{
    lemma_uint32(s, off);
    reveal_with_fuel(pow256, 5);
    assert(s.subrange(off, off + 4)[0] == s[off]);
}

/// The two's-complement reading of eight bytes is `signed64` of `be64`.
pub proof fn lemma_int64(s: Seq<u8>, off: int)
    requires
        0 <= off,
        off + 8 <= s.len(),
    ensures
        int_at(s, off, 8) == signed64(be64(s, off)),
{
    lemma_uint64(s, off);
    reveal_with_fuel(pow256, 9);
    assert(s.subrange(off, off + 8)[0] == s[off]);
}

pub(crate) fn be_u8(buf: &[u8], off: usize) -> (r: u8)
    requires
        off < buf.len(),
    ensures
        r == buf@[off as int],
{
    buf[off]
}

pub(crate) fn be_u16(buf: &[u8], off: usize) -> (r: u16)
    requires
        off + 2 <= buf.len(),
    ensures
        r == be16(buf@, off as int),
{
    (buf[off] as u16) * 256 + (buf[off + 1] as u16)
}

pub(crate) fn be_u32(buf: &[u8], off: usize) -> (r: u32)
    requires
        off + 4 <= buf.len(),
    ensures
        r == be32(buf@, off as int),
{
    (buf[off] as u32) * 0x100_0000 + (buf[off + 1] as u32) * 0x1_0000 + (buf[off + 2] as u32)
        * 0x100 + (buf[off + 3] as u32)
}

pub(crate) fn be_i32(buf: &[u8], off: usize) -> (r: i32)
    requires
        off + 4 <= buf.len(),
    ensures
        r == signed32(be32(buf@, off as int)),
{
    let u = be_u32(buf, off);
    if u < 0x8000_0000 {
        u as i32
    } else {
        -((u32::MAX - u) as i32) - 1
    }
}

fn be_u64(buf: &[u8], off: usize) -> (r: u64)
    requires
        off + 8 <= buf.len(),
    ensures
        r == be64(buf@, off as int),
{
    let hi = be_u32(buf, off) as u64;
    let lo = be_u32(buf, off + 4) as u64;
    hi * 0x1_0000_0000 + lo
}

pub(crate) fn be_i64(buf: &[u8], off: usize) -> (r: i64)
    requires
        off + 8 <= buf.len(),
    ensures
        r == signed64(be64(buf@, off as int)),
{
    let u = be_u64(buf, off);
    if u < 0x8000_0000_0000_0000 {
        u as i64
    } else {
        -((u64::MAX - u) as i64) - 1
    }
}

/// Copy a fixed-size byte field into an owned array.
pub(crate) fn fixed<const N: usize>(buf: &[u8], off: usize) -> (r: [u8; N])
    requires
        off + N <= buf.len(),
    ensures
        r@ == buf@.subrange(off as int, off + N),
{
    let mut a = [0u8; N];
    let mut i: usize = 0;
    while i < N
        invariant
            off + N <= buf.len(),
            i <= N,
            a@.len() == N,
            forall|j: int| 0 <= j < i ==> a@[j] == buf@[off + j],
        decreases N - i,
    {
        a[i] = buf[off + i];
        i = i + 1;
    }
    assert(a@ =~= buf@.subrange(off as int, off + N));
    a
}


// ── Text fields ─────────────────────────────────────────────────

/// The characters with the Unicode `White_Space` property, the set that
/// `char::is_whitespace` tests for.
pub open spec fn is_unicode_whitespace(c: char) -> bool {
    let v = c as int;
    ||| 9 <= v <= 13
    ||| v == 0x20
    ||| v == 0x85
    ||| v == 0xA0
    ||| v == 0x1680
    ||| 0x2000 <= v <= 0x200A
    ||| v == 0x2028
    ||| v == 0x2029
    ||| v == 0x202F
    ||| v == 0x205F
    ||| v == 0x3000
}

/// `s` with every trailing whitespace character removed.
pub open spec fn trim_end_chars(s: Seq<char>) -> Seq<char>
    decreases s.len(),
{
    if s.len() > 0 && is_unicode_whitespace(s.last()) {
        trim_end_chars(s.drop_last())
    } else {
        s
    }
}

/// Trimming keeps a prefix, removes only whitespace, leaves no trailing
/// whitespace, and trimming again changes nothing.
pub proof fn lemma_trim_end(s: Seq<char>)
    ensures
        trim_end_chars(s).len() <= s.len(),
        trim_end_chars(s) =~= s.subrange(0, trim_end_chars(s).len() as int),
        forall|i: int|
            trim_end_chars(s).len() <= i < s.len() ==> is_unicode_whitespace(#[trigger] s[i]),
        trim_end_chars(s).len() > 0 ==> !is_unicode_whitespace(trim_end_chars(s).last()),
        trim_end_chars(trim_end_chars(s)) == trim_end_chars(s),
    decreases s.len(),
{
    if s.len() > 0 && is_unicode_whitespace(s.last()) {
        lemma_trim_end(s.drop_last());
        let t = trim_end_chars(s.drop_last());
        assert forall|i: int| t.len() <= i < s.len() implies is_unicode_whitespace(
            #[trigger] s[i],
        ) by {
            if i < s.len() - 1 {
                assert(s[i] == s.drop_last()[i]);
            }
        }
    }
}

/// The whitespace characters, listed: tab, line feed, vertical tab, form
/// feed, carriage return, space, next line, no-break space, ogham space
/// mark, the spaces U+2000 to U+200A, line and paragraph separators,
/// narrow no-break space, medium mathematical space, ideographic space.
pub proof fn lemma_whitespace_set(c: char)
    ensures
        is_unicode_whitespace(c) <==> (c == '\t' || c == '\n' || c == '\u{0B}' || c == '\u{0C}'
            || c == '\r' || c == ' ' || c == '\u{85}' || c == '\u{A0}' || c == '\u{1680}' || (
        '\u{2000}' <= c && c <= '\u{200A}') || c == '\u{2028}' || c == '\u{2029}' || c
            == '\u{202F}' || c == '\u{205F}' || c == '\u{3000}'),
{
}

/// The text a space-padded field carries: its UTF-8 decoding with the
/// trailing whitespace removed, or the empty text when the bytes are not
/// valid UTF-8.
pub open spec fn field_text(bytes: Seq<u8>) -> Seq<char> {
    if valid_utf8(bytes) {
        trim_end_chars(decode_utf8(bytes))
    } else {
        Seq::empty()
    }
}

/// The text of a field is its decoded characters up to the trailing
/// whitespace: a prefix of the decoding that does not end in whitespace,
/// followed in the field only by whitespace; bytes that are not UTF-8
/// carry no text.
pub proof fn lemma_field_text(bytes: Seq<u8>)
    ensures
        valid_utf8(bytes) ==> ({
            let d = decode_utf8(bytes);
            let t = field_text(bytes);
            &&& t.len() <= d.len()
            &&& t == d.subrange(0, t.len() as int)
            &&& forall|i: int| t.len() <= i < d.len() ==> is_unicode_whitespace(#[trigger] d[i])
            &&& t.len() > 0 ==> !is_unicode_whitespace(t.last())
        }),
        !valid_utf8(bytes) ==> field_text(bytes).len() == 0,
{
    if valid_utf8(bytes) {
        lemma_trim_end(decode_utf8(bytes));
    }
}

/// Calls `std::str::from_utf8`. Claimed: it succeeds exactly on valid
/// UTF-8 (as `vstd::utf8::valid_utf8` defines it), and the string it
/// returns is made of the very same bytes.
#[verifier::external_body]
fn utf8_str(buf: &[u8]) -> (res: Option<&str>)
    ensures
        res is Some <==> valid_utf8(buf@),
        res matches Some(s) ==> s.spec_bytes() == buf@,
{
    match std::str::from_utf8(buf) {
        Ok(s) => Some(s),
        Err(_) => None,
    }
}

/// Whether `c` has the Unicode `White_Space` property.
fn is_whitespace(c: char) -> (b: bool)
    ensures
        b == is_unicode_whitespace(c),
{
    let v = c as u32;
    (9 <= v && v <= 13) || v == 0x20 || v == 0x85 || v == 0xA0 || v == 0x1680 || (0x2000 <= v
        && v <= 0x200A) || v == 0x2028 || v == 0x2029 || v == 0x202F || v == 0x205F || v == 0x3000
}

/// `s` with its trailing whitespace removed, as `str::trim_end` does.
fn trim_end(s: &str) -> (res: &str)
    ensures
        res@ == trim_end_chars(s@),
{
    let mut k = s.unicode_len();
    assert(s@.subrange(0, k as int) =~= s@);
    loop
        invariant
            k <= s@.len(),
            trim_end_chars(s@) == trim_end_chars(s@.subrange(0, k as int)),
        ensures
            trim_end_chars(s@) == s@.subrange(0, k as int),
        decreases k,
    {
        if k == 0 {
            break;
        }
        let c = s.get_char(k - 1);
        if !is_whitespace(c) {
            break;
        }
        assert(s@.subrange(0, k as int).drop_last() =~= s@.subrange(0, k - 1));
        k = k - 1;
    }
    s.substring_char(0, k)
}

/// Decode a space-padded field into a trimmed `&str`.
///
/// Strings are UTF-8 and right-padded with spaces; invalid bytes yield
/// an empty string rather than panicking.
pub fn trimmed_str(buf: &[u8]) -> (res: &str)
    ensures
        res@ == field_text(buf@),
{
    let s: &str = match utf8_str(buf) {
        Some(s) => s,
        None => "",
    };
    proof {
        if valid_utf8(buf@) {
            encode_utf8_decode_utf8(s@);
        } else {
            reveal_strlit("");
        }
    }
    trim_end(s)
}

// ── Checksum ────────────────────────────────────────────────────

/// Sum of all the bytes of `s`.
pub open spec fn byte_sum(s: Seq<u8>) -> nat
    decreases s.len(),
{
    if s.len() == 0 {
        0
    } else {
        byte_sum(s.drop_last()) + s.last() as nat
    }
}

/// Replacing the byte at `i` by `b` changes the sum by the difference.
pub proof fn lemma_byte_sum_update(s: Seq<u8>, i: int, b: u8)
    requires
        0 <= i < s.len(),
    ensures
        byte_sum(s.update(i, b)) == byte_sum(s) - s[i] + b,
    decreases s.len(),
{
    let t = s.update(i, b);
    if i == s.len() - 1 {
        assert(t.drop_last() =~= s.drop_last());
    } else {
        assert(t.drop_last() =~= s.drop_last().update(i, b));
        lemma_byte_sum_update(s.drop_last(), i, b);
    }
}

/// The checksum of the bytes `s`: their sum taken mod 256.
pub open spec fn checksum_of(s: Seq<u8>) -> int {
    (byte_sum(s) % 256) as int
}

/// The checksum of nothing is 0, and appending a byte adds it mod 256:
/// together these fix the checksum of every byte string.
pub proof fn lemma_checksum_push(s: Seq<u8>, b: u8)
    ensures
        checksum_of(Seq::<u8>::empty()) == 0,
        checksum_of(s.push(b)) == (checksum_of(s) + b) % 256,
        0 <= checksum_of(s) < 256,
{
    assert(s.push(b).drop_last() =~= s);
    vstd::arithmetic::div_mod::lemma_add_mod_noop(byte_sum(s) as int, b as int, 256);
    vstd::arithmetic::div_mod::lemma_small_mod(b as nat, 256);
}

/// Compute the message checksum: the unsigned 8-bit sum of every byte
/// from the start of the header through the end of the body, taken mod
/// 256.
///
/// `frame` must span `[header .. end-of-body]`, i.e. exclude the 4-byte
/// checksum tail itself.
pub fn checksum(frame: &[u8]) -> (r: u32)
    ensures
        r == checksum_of(frame@),
{
    let mut cks: u32 = 0;
    let mut i: usize = 0;
    while i < frame.len()
        invariant
            i <= frame@.len(),
            cks == byte_sum(frame@.take(i as int)) % 0x1_0000_0000,
        decreases frame@.len() - i,
    {
        let b = frame[i];
        proof {
            assert(frame@.take(i + 1).drop_last() =~= frame@.take(i as int));
            vstd::arithmetic::div_mod::lemma_add_mod_noop(
                byte_sum(frame@.take(i as int)) as int,
                b as int,
                0x1_0000_0000,
            );
            vstd::arithmetic::div_mod::lemma_small_mod(b as nat, 0x1_0000_0000);
            vstd::arithmetic::div_mod::lemma_mod_self_0(0x1_0000_0000);
            vstd::arithmetic::div_mod::lemma_mod_twice(
                (cks as int + b as int),
                0x1_0000_0000,
            );
            if cks as int + b as int >= 0x1_0000_0000 {
                vstd::arithmetic::div_mod::lemma_mod_sub_multiples_vanish(
                    cks as int + b as int,
                    0x1_0000_0000,
                );
            } else {
                vstd::arithmetic::div_mod::lemma_small_mod(
                    (cks as int + b as int) as nat,
                    0x1_0000_0000,
                );
            }
        }
        cks = cks.wrapping_add(b as u32);
        i = i + 1;
    }
    proof {
        assert(frame@.take(frame@.len() as int) =~= frame@);
        vstd::arithmetic::div_mod::lemma_mod_mod(byte_sum(frame@) as int, 256, 0x100_0000);
    }
    cks % 256
}

} // verus!
