use vstd::prelude::*;
use vstd::string::*;

verus! {

/// Errors that can occur while parsing an SZSE Binary message.
#[derive(Debug, Clone, PartialEq, Eq)]
pub enum ParseError {
    /// Buffer is shorter than the field/message requires.
    BufferTooShort { needed: usize, got: usize },
    /// `MsgType` in the header is not handled by this parser.
    UnknownMsgType(u32),
    /// A single-byte enum field held a value outside the spec.
    ///
    /// `field` names the field (e.g. `"Side"`), `value` is the raw byte.
    InvalidEnum { field: &'static str, value: u8 },
    /// `BodyLength` in the header disagrees with the buffer / message layout.
    BodyLengthMismatch { declared: usize, actual: usize },
    /// Checksum tail did not match the computed value.
    ChecksumMismatch { declared: u32, computed: u32 },
}

/// The character of the digit `d` (`0..16`), lower-case for `a..f`.
pub open spec fn digit_char(d: nat) -> char {
    if d < 10 {
        (('0' as u32) + d) as char
    } else {
        (('a' as u32) + d - 10) as char
    }
}

/// The decimal digits of `n`, most significant first, without leading
/// zeros (`0` is written `"0"`).
pub open spec fn decimal(n: nat) -> Seq<char>
    decreases n,
{
    if n < 10 {
        seq![digit_char(n)]
    } else {
        decimal(n / 10).push(digit_char(n % 10))
    }
}

/// The byte `b` in the `{:#04x}` form: `0x` and two lower-case hex digits.
pub open spec fn hex_byte(b: u8) -> Seq<char> {
    seq!['0', 'x', digit_char(b as nat / 16), digit_char(b as nat % 16)]
}

/// The human-readable description of an error.
pub open spec fn message_text(e: ParseError) -> Seq<char> {
    match e {
        ParseError::BufferTooShort { needed, got } => "buffer too short: need "@ + decimal(
            needed as nat,
        ) + " bytes, got "@ + decimal(got as nat),
        ParseError::UnknownMsgType(t) => "unknown message type: "@ + decimal(t as nat),
        ParseError::InvalidEnum { field, value } => "invalid value "@ + hex_byte(value)
            + " for field "@ + field@,
        ParseError::BodyLengthMismatch { declared, actual } => "body length mismatch: header says "@
            + decimal(declared as nat) + ", layout needs "@ + decimal(actual as nat),
        ParseError::ChecksumMismatch { declared, computed } => "checksum mismatch: message has "@
            + decimal(declared as nat) + ", computed "@ + decimal(computed as nat),
    }
}

/// The number that a run of decimal digit characters writes.
pub open spec fn digits_value(cs: Seq<char>) -> int
    decreases cs.len(),
{
    if cs.len() == 0 {
        0
    } else {
        digits_value(cs.drop_last()) * 10 + (cs.last() as int - '0' as int)
    }
}

/// The decimal text of `n` is made of digit characters only, starts with
/// a non-zero digit unless `n` is 0, and reads back as `n`.
pub proof fn lemma_decimal_round_trip(n: nat)
    ensures
        digits_value(decimal(n)) == n,
        forall|i: int| 0 <= i < decimal(n).len() ==> '0' <= #[trigger] decimal(n)[i] <= '9',
        decimal(n).len() > 0,
        n > 0 ==> decimal(n)[0] != '0',
    decreases n,
{
    let last = digit_char(n % 10);
    assert(last as int == '0' as int + n % 10);
    if n < 10 {
        assert(decimal(n).drop_last() =~= Seq::<char>::empty());
        assert(decimal(n).last() == last);
        assert(digits_value(decimal(n)) == digits_value(decimal(n).drop_last()) * 10 + (
        decimal(n).last() as int - '0' as int));
    } else {
        lemma_decimal_round_trip(n / 10);
        let d = decimal(n);
        assert(d.drop_last() =~= decimal(n / 10));
        assert(d.last() == last);
        assert(digits_value(d) == digits_value(d.drop_last()) * 10 + (d.last() as int - '0' as int));
        assert((n / 10) * 10 + n % 10 == n);
        assert forall|i: int| 0 <= i < d.len() implies '0' <= #[trigger] d[i] <= '9' by {
            if i < d.len() - 1 {
                assert(d[i] == decimal(n / 10)[i]);
            }
        }
    }
}

/// The hex text of a byte is `0x` and two lower-case hex digits, the
/// high and the low half of the byte.
pub proof fn lemma_hex_byte(b: u8)
    ensures
        hex_byte(b).len() == 4,
        hex_byte(b)[0] == '0' && hex_byte(b)[1] == 'x',
        forall|i: int|
            2 <= i < 4 ==> ('0' <= #[trigger] hex_byte(b)[i] <= '9' || 'a' <= hex_byte(b)[i]
                <= 'f'),
        hex_value(hex_byte(b)[2]) * 16 + hex_value(hex_byte(b)[3]) == b,
{
}

/// The value of a lower-case hex digit character.
pub open spec fn hex_value(c: char) -> int {
    if '0' <= c <= '9' {
        c as int - '0' as int
    } else {
        c as int - 'a' as int + 10
    }
}

/// The one-character text of the digit `d`.
fn digit_str(d: u64) -> (s: &'static str)
    requires
        d < 16,
    ensures
        s@ == seq![digit_char(d as nat)],
{
    proof {
        reveal_strlit("0");
        reveal_strlit("1");
        reveal_strlit("2");
        reveal_strlit("3");
        reveal_strlit("4");
        reveal_strlit("5");
        reveal_strlit("6");
        reveal_strlit("7");
        reveal_strlit("8");
        reveal_strlit("9");
        reveal_strlit("a");
        reveal_strlit("b");
        reveal_strlit("c");
        reveal_strlit("d");
        reveal_strlit("e");
        reveal_strlit("f");
    }
    match d {
        0 => "0",
        1 => "1",
        2 => "2",
        3 => "3",
        4 => "4",
        5 => "5",
        6 => "6",
        7 => "7",
        8 => "8",
        9 => "9",
        10 => "a",
        11 => "b",
        12 => "c",
        13 => "d",
        14 => "e",
        _ => "f",
    }
}

/// Append the decimal digits of `n` to `out`.
fn push_decimal(out: &mut String, n: u64)
    ensures
        final(out)@ == old(out)@ + decimal(n as nat),
    decreases n,
{
    if n >= 10 {
        push_decimal(out, n / 10);
    }
    out.append(digit_str(n % 10));
    proof {
        assert(decimal(n as nat) =~= if n < 10 {
            seq![digit_char(n as nat)]
        } else {
            decimal((n / 10) as nat).push(digit_char((n % 10) as nat))
        });
    }
}

impl ParseError {
    /// The human-readable description of the error, e.g.
    /// `"buffer too short: need 8 bytes, got 5"`.
    pub fn message(&self) -> (res: String)
        ensures
            res@ == message_text(*self),
    {
        let mut out = String::new();
        match self {
            ParseError::BufferTooShort { needed, got } => {
                out.append("buffer too short: need ");
                push_decimal(&mut out, *needed as u64);
                out.append(" bytes, got ");
                push_decimal(&mut out, *got as u64);
            },
            ParseError::UnknownMsgType(t) => {
                out.append("unknown message type: ");
                push_decimal(&mut out, *t as u64);
            },
            ParseError::InvalidEnum { field, value } => {
                out.append("invalid value 0x");
                out.append(digit_str((*value / 16) as u64));
                out.append(digit_str((*value % 16) as u64));
                out.append(" for field ");
                out.append(*field);
                proof {
                    reveal_strlit("invalid value 0x");
                    reveal_strlit("invalid value ");
                }
            },
            ParseError::BodyLengthMismatch { declared, actual } => {
                out.append("body length mismatch: header says ");
                push_decimal(&mut out, *declared as u64);
                out.append(", layout needs ");
                push_decimal(&mut out, *actual as u64);
            },
            ParseError::ChecksumMismatch { declared, computed } => {
                out.append("checksum mismatch: message has ");
                push_decimal(&mut out, *declared as u64);
                out.append(", computed ");
                push_decimal(&mut out, *computed as u64);
            },
        }
        proof {
            reveal_strlit("");
            assert(out@ =~= message_text(*self));
        }
        out
    }
}

} // verus!
