use vstd::prelude::*;

use crate::error::ParseError;
use crate::types::{ExecType, exec_type_code, exec_type_of, lemma_exec_type_codes};
use crate::utils::{
    be16, be64, be_i64, be_u16, field_text, fixed, int_at, lemma_int64, lemma_uint16, len_error,
    require_len, signed64, trimmed_str, uint_at,
};

verus! {

/// Tick-by-tick trade message body.
///
/// Shared layout for MsgType 300191 / 300591 / 300791 / 300291 / 300391 /
/// 300491; only the (optional) trailing extension fields differ. This
/// struct covers the fixed 66-byte body; the header (8 bytes) is parsed
/// separately via [`crate::MsgHeader`].
///
/// Within one channel, `appl_seq_num` is shared with tick orders and
/// increments from 1, which lets a consumer rebuild the exact order/trade
/// interleaving.
#[derive(Debug, Clone, PartialEq, Eq)]
pub struct TickTrade {
    /// Channel code.
    pub channel_no: u16,
    /// Sequential record number within the channel, from 1.
    pub appl_seq_num: i64,
    /// Market-data stream id, e.g. `"011"` equity auction.
    pub md_stream_id: [u8; 3],
    /// Bid-side order index; `0` = no matching order.
    pub bid_appl_seq_num: i64,
    /// Offer-side order index; `0` = no matching order.
    pub offer_appl_seq_num: i64,
    /// Security code, ASCII, space-padded.
    pub security_id: [u8; 8],
    /// Security code source, `"102 "` = SZSE.
    pub security_id_source: [u8; 4],
    /// Trade price, `N13(4)`.
    pub last_px: i64,
    /// Trade quantity, `N15(2)`.
    pub last_qty: i64,
    /// `'4'` cancel / `'F'` trade.
    pub exec_type: ExecType,
    /// Timestamp `YYYYMMDDHHMMSSsss`.
    pub transact_time: i64,
}

/// Wire size of the fixed `TickTrade` body, excluding header and checksum.
///
/// `2 + 8 + 3 + 8 + 8 + 8 + 4 + 8 + 8 + 1 + 8 = 66`
pub const TICK_TRADE_BODY_LEN: usize = 66;

impl TickTrade {
    /// `self` is the tick trade written at the start of `s`.
    pub open spec fn decoded_from(self, s: Seq<u8>) -> bool {
        &&& self.channel_no == be16(s, 0)
        &&& self.appl_seq_num == signed64(be64(s, 2))
        &&& self.md_stream_id@ == s.subrange(10, 13)
        &&& self.bid_appl_seq_num == signed64(be64(s, 13))
        &&& self.offer_appl_seq_num == signed64(be64(s, 21))
        &&& self.security_id@ == s.subrange(29, 37)
        &&& self.security_id_source@ == s.subrange(37, 41)
        &&& self.last_px == signed64(be64(s, 41))
        &&& self.last_qty == signed64(be64(s, 49))
        &&& exec_type_of(s[57]) == Some(self.exec_type)
        &&& self.transact_time == signed64(be64(s, 58))
    }

    /// How parsing `s` fails, if it does: a body shorter than 66 bytes, or
    /// an `ExecType` byte that names no execution type.
    pub open spec fn parse_error(s: Seq<u8>) -> Option<ParseError> {
        if s.len() < TICK_TRADE_BODY_LEN {
            len_error(s.len() as int, TICK_TRADE_BODY_LEN as int)
        } else if exec_type_of(s[57]) is None {
            Some(ParseError::InvalidEnum { field: "ExecType", value: s[57] })
        } else {
            None
        }
    }

    /// Bytes after the fixed 66-byte body (a stream's extension fields)
    /// change neither whether parsing succeeds nor what it decodes.
    pub proof fn lemma_trailing_bytes_ignored(s: Seq<u8>, extra: Seq<u8>)
        requires
            s.len() >= TICK_TRADE_BODY_LEN,
        ensures
            Self::parse_error(s + extra) == Self::parse_error(s),
            forall|t: TickTrade| #[trigger] t.decoded_from(s + extra) == t.decoded_from(s),
    {
        let full = s + extra;
        assert(full.subrange(0, TICK_TRADE_BODY_LEN as int) =~= s.subrange(0, TICK_TRADE_BODY_LEN as int));
        assert(full.subrange(10, 13) =~= s.subrange(10, 13));
        assert(full.subrange(29, 37) =~= s.subrange(29, 37));
        assert(full.subrange(37, 41) =~= s.subrange(37, 41));
    }

    /// Where each field of a tick trade sits in its 66-byte body, read as
    /// big-endian numbers: channel `0..2`, record number `2..10`, stream
    /// id `10..13`, bid index `13..21`, offer index `21..29`, security
    /// `29..37`, source `37..41`, price `41..49`, quantity `49..57`,
    /// execution type byte `57`, time `58..66`.
    pub proof fn lemma_layout(s: Seq<u8>, t: TickTrade)
        requires
            s.len() >= TICK_TRADE_BODY_LEN,
            t.decoded_from(s),
        ensures
            t.channel_no == uint_at(s, 0, 2),
            t.appl_seq_num == int_at(s, 2, 8),
            t.md_stream_id@ == s.subrange(10, 13),
            t.bid_appl_seq_num == int_at(s, 13, 8),
            t.offer_appl_seq_num == int_at(s, 21, 8),
            t.security_id@ == s.subrange(29, 37),
            t.security_id_source@ == s.subrange(37, 41),
            t.last_px == int_at(s, 41, 8),
            t.last_qty == int_at(s, 49, 8),
            s[57] == exec_type_code(t.exec_type),
            t.transact_time == int_at(s, 58, 8),
    {
        lemma_uint16(s, 0);
        lemma_int64(s, 2);
        lemma_int64(s, 13);
        lemma_int64(s, 21);
        lemma_int64(s, 41);
        lemma_int64(s, 49);
        lemma_int64(s, 58);
        lemma_exec_type_codes(s[57], t.exec_type);
    }

    /// The execution-type byte selects nothing else: two bodies that differ
    /// only in byte 57 decode to trades that agree on every other field.
    pub proof fn lemma_exec_type_byte_only_sets_exec_type(
        s1: Seq<u8>,
        s2: Seq<u8>,
        t1: TickTrade,
        t2: TickTrade,
    )
        requires
            s1.len() >= TICK_TRADE_BODY_LEN,
            s2.len() == s1.len(),
            forall|i: int| 0 <= i < s1.len() && i != 57 ==> s1[i] == s2[i],
            t1.decoded_from(s1),
            t2.decoded_from(s2),
        ensures
            t1.channel_no == t2.channel_no,
            t1.appl_seq_num == t2.appl_seq_num,
            t1.md_stream_id == t2.md_stream_id,
            t1.bid_appl_seq_num == t2.bid_appl_seq_num,
            t1.offer_appl_seq_num == t2.offer_appl_seq_num,
            t1.security_id == t2.security_id,
            t1.security_id_source == t2.security_id_source,
            t1.last_px == t2.last_px,
            t1.last_qty == t2.last_qty,
            t1.transact_time == t2.transact_time,
            (s1[57] == s2[57]) == (t1.exec_type == t2.exec_type),
    {
        Self::lemma_layout(s1, t1);
        Self::lemma_layout(s2, t2);
        assert(s1.subrange(2, 10) =~= s2.subrange(2, 10));
        assert(s1.subrange(10, 13) =~= s2.subrange(10, 13));
        assert(s1.subrange(13, 21) =~= s2.subrange(13, 21));
        assert(s1.subrange(21, 29) =~= s2.subrange(21, 29));
        assert(s1.subrange(29, 37) =~= s2.subrange(29, 37));
        assert(s1.subrange(37, 41) =~= s2.subrange(37, 41));
        assert(s1.subrange(41, 49) =~= s2.subrange(41, 49));
        assert(s1.subrange(49, 57) =~= s2.subrange(49, 57));
        assert(s1.subrange(58, 66) =~= s2.subrange(58, 66));
        assert(t1.md_stream_id =~= t2.md_stream_id);
        assert(t1.security_id =~= t2.security_id);
        assert(t1.security_id_source =~= t2.security_id_source);
    }

    /// Parse a `TickTrade` from the **body** bytes (after the 8-byte header).
    pub fn parse(buf: &[u8]) -> (res: Result<Self, ParseError>)
        ensures
            match res {
                Ok(m) => Self::parse_error(buf@) is None && m.decoded_from(buf@),
                Err(e) => Self::parse_error(buf@) == Some(e),
            },
    {
        require_len(buf, TICK_TRADE_BODY_LEN)?;
        Ok(TickTrade {
            channel_no: be_u16(buf, 0),
            appl_seq_num: be_i64(buf, 2),
            md_stream_id: fixed(buf, 10),
            bid_appl_seq_num: be_i64(buf, 13),
            offer_appl_seq_num: be_i64(buf, 21),
            security_id: fixed(buf, 29),
            security_id_source: fixed(buf, 37),
            last_px: be_i64(buf, 41),
            last_qty: be_i64(buf, 49),
            exec_type: ExecType::from_byte(buf[57])?,
            transact_time: be_i64(buf, 58),
        })
    }

    /// Security code as a trimmed string.
    pub fn security_id_str(&self) -> (res: &str)
        ensures
            res@ == field_text(self.security_id@),
    {
        trimmed_str(self.security_id.as_slice())
    }

    /// Market-data stream id as a trimmed string.
    pub fn md_stream_id_str(&self) -> (res: &str)
        ensures
            res@ == field_text(self.md_stream_id@),
    {
        trimmed_str(self.md_stream_id.as_slice())
    }
}

} // verus!
