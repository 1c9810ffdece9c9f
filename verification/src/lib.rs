//! A parser for the Shenzhen Stock Exchange (SZSE) Binary market-data
//! protocol.
//!
//! Every message is `header (8B) + body + checksum tail (4B)`. The header
//! carries `MsgType` and `BodyLength`; this crate decodes the body for each
//! supported `MsgType` into a typed struct.
//!
//! - All integers are big-endian.
//! - Decimals are scaled integers, `Nx(y)`: price `/10_000`, qty `/100`,
//!   `MDEntryPx` `/1_000_000`.
//! - Strings are UTF-8, right-padded with spaces; use the `*_str()`
//!   accessors.

mod error;
mod header;
mod utils;

pub mod messages;
pub mod types;

pub use error::ParseError;
pub use header::{MSG_HEADER_LEN, MsgHeader};
pub use messages::{
    BUSINESS_REJECT_BODY_LEN, BusinessReject, CHANNEL_HEARTBEAT_BODY_LEN, ChannelHeartbeat,
    Heartbeat, LOGON_BODY_LEN, LOGOUT_BODY_LEN, Logon, Logout, MDEntry, OrderExtension,
    RESEND_BODY_LEN, Resend, SNAPSHOT_FIXED_HEADER_LEN, SessionStatus, Snapshot, SnapshotBody,
    SnapshotHeader, TICK_ORDER_BODY_LEN, TICK_TRADE_BODY_LEN, TickOrder, TickTrade,
};
pub use types::{ExecType, OrdType, Side};
pub use utils::{checksum, require_len, trimmed_str};

use vstd::prelude::*;

use crate::utils::{
    be32, be_u32, byte_sum, checksum_of, lemma_byte_sum_update, lemma_uint32, len_error, uint_at,
};

verus! {

/// A decoded SZSE Binary message: header type + typed body.
///
/// Tick orders and snapshots need the `MsgType` to pick their extension, so
/// the dispatcher in [`parse_frame`] passes it through for you.
#[derive(Debug, Clone, PartialEq, Eq)]
pub enum Message {
    Logon(Logon),
    Logout(Logout),
    Heartbeat,
    ChannelHeartbeat(ChannelHeartbeat),
    Resend(Resend),
    BusinessReject(BusinessReject),
    /// Tick-by-tick trade.
    TickTrade(TickTrade),
    /// Tick-by-tick order with its stream-specific extension (if any).
    TickOrder { order: TickOrder, extension: Option<OrderExtension> },
    Snapshot(Snapshot),
}

/// Message types whose body is a tick-by-tick trade.
pub open spec fn is_tick_trade_type(t: u32) -> bool {
    t == 300191 || t == 300591 || t == 300791 || t == 300291 || t == 300391 || t == 300491
}

/// Message types whose body is a tick-by-tick order with an extension.
pub open spec fn is_tick_order_type(t: u32) -> bool {
    t == 300192 || t == 300592 || t == 300792 || t == 300292
}

/// Message types whose body is a snapshot.
pub open spec fn is_snapshot_type(t: u32) -> bool {
    t == 300111 || t == 300611 || t == 303711 || t == 309011 || t == 309111
}

impl Message {
    /// `self` is the message of type `msg_type` whose body is `body`.
    pub open spec fn decoded_from(self, body: Seq<u8>, msg_type: u32) -> bool {
        match self {
            Message::Logon(m) => msg_type == 1 && m.decoded_from(body),
            Message::Logout(m) => msg_type == 2 && m.decoded_from(body),
            Message::Heartbeat => msg_type == 3,
            Message::ChannelHeartbeat(m) => msg_type == 390095 && m.decoded_from(body),
            Message::Resend(m) => msg_type == 390094 && m.decoded_from(body),
            Message::BusinessReject(m) => msg_type == 8 && m.decoded_from(body),
            Message::TickTrade(m) => is_tick_trade_type(msg_type) && m.decoded_from(body),
            Message::TickOrder { order, extension } => {
                &&& is_tick_order_type(msg_type)
                &&& order.decoded_from(body)
                &&& extension matches Some(x) && x.decoded_from(
                    body.subrange(TICK_ORDER_BODY_LEN as int, body.len() as int),
                    msg_type,
                )
            },
            Message::Snapshot(m) => is_snapshot_type(msg_type) && m.decoded_from(body, msg_type),
        }
    }

    /// `self` is the message that the frame `frame` carries.
    pub open spec fn decoded_from_frame(self, frame: Seq<u8>) -> bool {
        self.decoded_from(frame_body(frame), frame_msg_type(frame))
    }
}

/// How decoding the body `body` of a `msg_type` message fails, if it does.
pub open spec fn body_error(body: Seq<u8>, msg_type: u32) -> Option<ParseError> {
    if msg_type == 1 {
        Logon::parse_error(body)
    } else if msg_type == 2 {
        Logout::parse_error(body)
    } else if msg_type == 3 {
        None
    } else if msg_type == 390095 {
        ChannelHeartbeat::parse_error(body)
    } else if msg_type == 390094 {
        Resend::parse_error(body)
    } else if msg_type == 8 {
        BusinessReject::parse_error(body)
    } else if is_tick_trade_type(msg_type) {
        TickTrade::parse_error(body)
    } else if is_tick_order_type(msg_type) {
        TickOrder::parse_with_ext_error(body, msg_type)
    } else if is_snapshot_type(msg_type) {
        Snapshot::parse_error(body, msg_type)
    } else {
        Some(ParseError::UnknownMsgType(msg_type))
    }
}

/// The `MsgType` that the header of `frame` declares.
pub open spec fn frame_msg_type(frame: Seq<u8>) -> u32 {
    be32(frame, 0) as u32
}

/// The body of `frame`: the `BodyLength` bytes after the header when that
/// many are present, otherwise everything after the header.
pub open spec fn frame_body(frame: Seq<u8>) -> Seq<u8> {
    let declared = be32(frame, 4);
    let avail = frame.len() - MSG_HEADER_LEN;
    let len = if declared <= avail {
        declared
    } else {
        avail
    };
    frame.subrange(MSG_HEADER_LEN as int, MSG_HEADER_LEN + len)
}

/// How decoding `frame` fails, if it does: a frame too short for the
/// header, else the failure of its body.
pub open spec fn frame_error(frame: Seq<u8>) -> Option<ParseError> {
    if frame.len() < MSG_HEADER_LEN {
        MsgHeader::parse_error(frame)
    } else {
        body_error(frame_body(frame), frame_msg_type(frame))
    }
}

/// Parse one complete frame: read the 8-byte header, then decode the body
/// according to its `MsgType`.
///
/// `frame` must start at the message header. A trailing 4-byte checksum is
/// tolerated but not required: the body is sliced using `BodyLength` when
/// present, otherwise it extends to the end of `frame`. Unknown message
/// types yield [`ParseError::UnknownMsgType`].
///
/// This does **not** verify the checksum; call [`verify_checksum`] separately
/// if your transport does not already guarantee integrity.
pub fn parse_frame(frame: &[u8]) -> (res: Result<Message, ParseError>)
    ensures
        match res {
            Ok(m) => frame_error(frame@) is None && m.decoded_from_frame(frame@),
            Err(e) => frame_error(frame@) == Some(e),
        },
{
    let header = MsgHeader::parse(frame)?;
    let body_len = header.body_length as usize;
    let avail = frame.len() - MSG_HEADER_LEN;
    // Trust BodyLength when it fits; otherwise fall back to whatever remains.
    let end = MSG_HEADER_LEN + if body_len <= avail {
        body_len
    } else {
        avail
    };
    let body = &frame[MSG_HEADER_LEN..end];
    assert(body@ == frame_body(frame@));

    let msg = match header.msg_type {
        1 => Message::Logon(Logon::parse(body)?),
        2 => Message::Logout(Logout::parse(body)?),
        3 => Message::Heartbeat,
        390095 => Message::ChannelHeartbeat(ChannelHeartbeat::parse(body)?),
        390094 => Message::Resend(Resend::parse(body)?),
        8 => Message::BusinessReject(BusinessReject::parse(body)?),
        300191 | 300591 | 300791 | 300291 | 300391 | 300491 => {
            Message::TickTrade(TickTrade::parse(body)?)
        },
        300192 | 300592 | 300792 | 300292 => {
            let (order, extension) = TickOrder::parse_with_ext(body, header.msg_type)?;
            Message::TickOrder { order, extension }
        },
        300111 | 300611 | 303711 | 309011 | 309111 => {
            Message::Snapshot(Snapshot::parse(body, header.msg_type)?)
        },
        other => return Err(ParseError::UnknownMsgType(other)),
    };
    Ok(msg)
}

/// How checking the checksum tail of `frame` fails, if it does: a frame
/// shorter than a header plus the tail, or a tail that disagrees with the
/// checksum of everything before it.
pub open spec fn checksum_error(frame: Seq<u8>) -> Option<ParseError> {
    if frame.len() < MSG_HEADER_LEN + 4 {
        len_error(frame.len() as int, MSG_HEADER_LEN + 4)
    } else {
        let split = frame.len() - 4;
        let declared = be32(frame, split);
        let computed = checksum_of(frame.subrange(0, split));
        if declared == computed {
            None
        } else {
            Some(ParseError::ChecksumMismatch { declared: declared as u32, computed: computed as u32 })
        }
    }
}

/// Verify the 4-byte checksum tail of a full frame.
///
/// `frame` must include the trailing checksum: `header + body + checksum(4)`.
/// The checksum covers `header + body` (everything but the last 4 bytes).
pub fn verify_checksum(frame: &[u8]) -> (res: Result<(), ParseError>)
    ensures
        match res {
            Ok(_) => checksum_error(frame@) is None,
            Err(e) => checksum_error(frame@) == Some(e),
        },
{
    require_len(frame, MSG_HEADER_LEN + 4)?;
    let split = frame.len() - 4;
    let declared = be_u32(frame, split);
    let computed = checksum(&frame[0..split]);
    if declared == computed {
        Ok(())
    } else {
        Err(ParseError::ChecksumMismatch { declared, computed })
    }
}


/// `v` as four big-endian bytes, the form of the checksum tail.
pub open spec fn be32_bytes(v: int) -> Seq<u8> {
    seq![
        (v / 0x100_0000 % 256) as u8,
        (v / 0x1_0000 % 256) as u8,
        (v / 0x100 % 256) as u8,
        (v % 256) as u8,
    ]
}

/// Reading back four big-endian bytes gives the value they were written
/// from.
pub proof fn lemma_be32_bytes(v: int)
    requires
        0 <= v < 0x1_0000_0000,
    ensures
        be32(be32_bytes(v), 0) == v,
{
    let b = be32_bytes(v);
    assert(b[0] * 0x100_0000 + b[1] * 0x1_0000 + b[2] * 0x100 + b[3] == v) by (nonlinear_arith)
        requires
            0 <= v < 0x1_0000_0000,
            b[0] == v / 0x100_0000 % 256,
            b[1] == v / 0x1_0000 % 256,
            b[2] == v / 0x100 % 256,
            b[3] == v % 256,
    ;
}

/// A frame followed by its own checksum, written as four big-endian
/// bytes, passes `verify_checksum`.
pub proof fn lemma_checksum_tail_verifies(frame: Seq<u8>)
    requires
        frame.len() >= MSG_HEADER_LEN,
    ensures
        checksum_error(frame + be32_bytes(checksum_of(frame))) is None,
{
    let c = checksum_of(frame);
    let full = frame + be32_bytes(c);
    lemma_be32_bytes(c);
    assert(full.subrange(0, full.len() - 4) =~= frame);
    assert(be32(full, full.len() - 4) == be32(be32_bytes(c), 0));
}

/// Changing any one byte of the header or body of a frame that passes
/// `verify_checksum` makes it fail with `ChecksumMismatch`.
pub proof fn lemma_single_byte_change_detected(frame: Seq<u8>, i: int, b: u8)
    requires
        checksum_error(frame) is None,
        0 <= i < frame.len() - 4,
        b != frame[i],
    ensures
        checksum_error(frame.update(i, b)) matches Some(ParseError::ChecksumMismatch { .. }),
{
    let split = frame.len() - 4;
    let changed = frame.update(i, b);
    let before = frame.subrange(0, split);
    let after = changed.subrange(0, split);
    assert(after =~= before.update(i, b));
    lemma_byte_sum_update(before, i, b);
    assert(be32(changed, split) == be32(frame, split));
    let s = byte_sum(before) as int;
    let d = b as int - frame[i] as int;
    assert(byte_sum(after) == s + d);
    assert((s + d) % 256 != s % 256) by (nonlinear_arith)
        requires
            s >= 0,
            s + d >= 0,
            d != 0,
            -256 < d < 256,
    ;
}

/// Bytes after the declared body, such as the checksum tail, change
/// neither whether `parse_frame` succeeds nor what it decodes.
pub proof fn lemma_trailing_bytes_ignored(frame: Seq<u8>, extra: Seq<u8>)
    requires
        frame.len() >= MSG_HEADER_LEN,
        be32(frame, 4) <= frame.len() - MSG_HEADER_LEN,
    ensures
        frame_error(frame + extra) == frame_error(frame),
        forall|m: Message| #[trigger]
            m.decoded_from_frame(frame + extra) == m.decoded_from_frame(frame),
{
    let full = frame + extra;
    assert(be32(full, 4) == be32(frame, 4));
    assert(frame_msg_type(full) == frame_msg_type(frame));
    assert(frame_body(full) =~= frame_body(frame));
}


/// Where `parse_frame` finds the message type and the body: the type is
/// the big-endian number in bytes `0..4`, and the body is the
/// `BodyLength` (bytes `4..8`) bytes after the header when that many are
/// present, else everything after the header.
pub proof fn lemma_frame_layout(frame: Seq<u8>)
    requires
        frame.len() >= MSG_HEADER_LEN,
    ensures
        frame_msg_type(frame) == uint_at(frame, 0, 4),
        uint_at(frame, 4, 4) <= frame.len() - 8 ==> frame_body(frame) == frame.subrange(
            8,
            8 + uint_at(frame, 4, 4),
        ),
        uint_at(frame, 4, 4) > frame.len() - 8 ==> frame_body(frame) == frame.subrange(
            8,
            frame.len() as int,
        ),
{
    lemma_uint32(frame, 0);
    lemma_uint32(frame, 4);
}

/// Which decoder each message type goes to. The known types are 1, 2, 3,
/// 8, 390094, 390095, the tick trades 300191, 300291, 300391, 300491,
/// 300591, 300791, the tick orders 300192, 300292, 300592, 300792, and
/// the snapshots 300111, 300611, 303711, 309011, 309111. A known type
/// fails exactly as its decoder fails on the body (the heartbeat never
/// fails), and whatever is decoded is that type's message; every other
/// type is refused as unknown.
pub proof fn lemma_dispatch(frame: Seq<u8>, m: Message)
    requires
        frame.len() >= MSG_HEADER_LEN,
    ensures
        ({
            let t = uint_at(frame, 0, 4);
            let body = frame_body(frame);
            &&& t == 1 ==> frame_error(frame) == Logon::parse_error(body) && (
            m.decoded_from_frame(frame) ==> (m matches Message::Logon(x) && x.decoded_from(body)))
            &&& t == 2 ==> frame_error(frame) == Logout::parse_error(body) && (
            m.decoded_from_frame(frame) ==> (m matches Message::Logout(x) && x.decoded_from(body)))
            &&& t == 3 ==> frame_error(frame) is None && (m.decoded_from_frame(frame)
                <==> m is Heartbeat)
            &&& t == 8 ==> frame_error(frame) == BusinessReject::parse_error(body) && (
            m.decoded_from_frame(frame) ==> (m matches Message::BusinessReject(x)
                && x.decoded_from(body)))
            &&& t == 390094 ==> frame_error(frame) == Resend::parse_error(body) && (
            m.decoded_from_frame(frame) ==> (m matches Message::Resend(x) && x.decoded_from(body)))
            &&& t == 390095 ==> frame_error(frame) == ChannelHeartbeat::parse_error(body) && (
            m.decoded_from_frame(frame) ==> (m matches Message::ChannelHeartbeat(x)
                && x.decoded_from(body)))
            &&& (t == 300191 || t == 300291 || t == 300391 || t == 300491 || t == 300591 || t
                == 300791) ==> frame_error(frame) == TickTrade::parse_error(body) && (
            m.decoded_from_frame(frame) ==> (m matches Message::TickTrade(x) && x.decoded_from(
                body,
            )))
            &&& (t == 300192 || t == 300292 || t == 300592 || t == 300792) ==> frame_error(frame)
                == TickOrder::parse_with_ext_error(body, t as u32) && (m.decoded_from_frame(frame)
                ==> (m matches Message::TickOrder { order, extension } && order.decoded_from(body)
                && (extension matches Some(x) && x.decoded_from(
                body.subrange(TICK_ORDER_BODY_LEN as int, body.len() as int),
                t as u32,
            ))))
            &&& (t == 300111 || t == 300611 || t == 303711 || t == 309011 || t == 309111)
                ==> frame_error(frame) == Snapshot::parse_error(body, t as u32) && (
            m.decoded_from_frame(frame) ==> (m matches Message::Snapshot(x) && x.decoded_from(
                body,
                t as u32,
            )))
            &&& !(t == 1 || t == 2 || t == 3 || t == 8 || t == 390094 || t == 390095 || t
                == 300191 || t == 300291 || t == 300391 || t == 300491 || t == 300591 || t
                == 300791 || t == 300192 || t == 300292 || t == 300592 || t == 300792 || t
                == 300111 || t == 300611 || t == 303711 || t == 309011 || t == 309111)
                ==> frame_error(frame) == Some(ParseError::UnknownMsgType(t as u32))
                && !m.decoded_from_frame(frame)
        }),
{
    lemma_uint32(frame, 0);
}

/// A frame passes `verify_checksum` only when its whole 4-byte tail,
/// read as a big-endian number, equals the checksum of what precedes it:
/// any other tail value `v` is refused, reporting `v` and the checksum.
pub proof fn lemma_wrong_tail_refused(frame: Seq<u8>, v: int)
    requires
        frame.len() >= MSG_HEADER_LEN,
        0 <= v < 0x1_0000_0000,
        v != checksum_of(frame),
    ensures
        checksum_error(frame + be32_bytes(v)) == Some(
            ParseError::ChecksumMismatch { declared: v as u32, computed: checksum_of(frame) as u32 },
        ),
{
    let full = frame + be32_bytes(v);
    lemma_be32_bytes(v);
    assert(full.subrange(0, full.len() - 4) =~= frame);
    assert(be32(full, full.len() - 4) == be32(be32_bytes(v), 0));
}

} // verus!
