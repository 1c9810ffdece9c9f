//! Common application-layer messages: channel heartbeat, resend
//! request/response, and business reject.

use vstd::prelude::*;

use crate::error::ParseError;
use crate::utils::{
    be16, be32, be64, be_i64, be_u16, be_u32, field_text, fixed, int_at, len_error, lemma_int64,
    lemma_uint16, lemma_uint32, require_len, signed64, trimmed_str, uint_at,
};

verus! {

/// Channel heartbeat (MsgType=390095).
///
/// Emitted every ~3 s per idle channel so consumers can detect a stalled
/// feed and track the last sequence number seen on that channel.
#[derive(Debug, Clone, PartialEq, Eq)]
pub struct ChannelHeartbeat {
    /// Channel code.
    pub channel_no: u16,
    /// Last market-data record number on this channel.
    pub appl_last_seq_num: i64,
    /// End-of-channel flag: `0` = open, `1` = ended.
    pub end_of_channel: u16,
}

/// Wire size of [`ChannelHeartbeat`]: `2 + 8 + 2 = 12`.
pub const CHANNEL_HEARTBEAT_BODY_LEN: usize = 12;

impl ChannelHeartbeat {
    /// `self` is the channel heartbeat written at the start of `s`.
    pub open spec fn decoded_from(self, s: Seq<u8>) -> bool {
        &&& self.channel_no == be16(s, 0)
        &&& self.appl_last_seq_num == signed64(be64(s, 2))
        &&& self.end_of_channel == be16(s, 10)
    }

    /// How parsing `s` fails, if it does: only a body shorter than
    /// `CHANNEL_HEARTBEAT_BODY_LEN` is refused.
    pub open spec fn parse_error(s: Seq<u8>) -> Option<ParseError> {
        len_error(s.len() as int, CHANNEL_HEARTBEAT_BODY_LEN as int)
    }

    pub fn parse(buf: &[u8]) -> (res: Result<Self, ParseError>)
        ensures
            match res {
                Ok(m) => Self::parse_error(buf@) is None && m.decoded_from(buf@),
                Err(e) => Self::parse_error(buf@) == Some(e),
            },
    {
        require_len(buf, CHANNEL_HEARTBEAT_BODY_LEN)?;
        Ok(ChannelHeartbeat {
            channel_no: be_u16(buf, 0),
            appl_last_seq_num: be_i64(buf, 2),
            end_of_channel: be_u16(buf, 10),
        })
    }

    /// Whether this heartbeat marks the end of the channel for the day.
    pub fn is_end_of_channel(&self) -> (res: bool)
        ensures
            res == (self.end_of_channel == 1),
    {
        self.end_of_channel == 1
    }
}

/// Resend request / response (MsgType=390094).
///
/// The client requests retransmission of tick data or announcements; the
/// gateway replies with the same message, filling `resend_status` /
/// `reject_text`.
#[derive(Debug, Clone, PartialEq, Eq)]
pub struct Resend {
    /// `1` = tick market data, `2` = announcement.
    pub resend_type: u8,
    /// Channel code.
    pub channel_no: u16,
    /// Begin sequence (inclusive); valid when `resend_type == 1`.
    pub appl_beg_seq_num: i64,
    /// End sequence (inclusive); `0` = up to the gateway's max.
    pub appl_end_seq_num: i64,
    /// Announcement id; valid when `resend_type == 2`.
    pub news_id: [u8; 8],
    /// Reply only: `1` done, `2` partial, `3` no permission, `4` unavailable.
    pub resend_status: u8,
    /// Reply only: error text if rejected.
    pub reject_text: [u8; 16],
}

/// Wire size of [`Resend`]: `1 + 2 + 8 + 8 + 8 + 1 + 16 = 44`.
pub const RESEND_BODY_LEN: usize = 44;

impl ChannelHeartbeat {
    /// Where each field sits, big-endian: channel `0..2`, last record
    /// number (signed) `2..10`, end-of-channel flag `10..12`.
    pub proof fn lemma_layout(s: Seq<u8>, m: ChannelHeartbeat)
        requires
            s.len() >= CHANNEL_HEARTBEAT_BODY_LEN,
            m.decoded_from(s),
        ensures
            m.channel_no == uint_at(s, 0, 2),
            m.appl_last_seq_num == int_at(s, 2, 8),
            m.end_of_channel == uint_at(s, 10, 2),
    {
        lemma_uint16(s, 0);
        lemma_int64(s, 2);
        lemma_uint16(s, 10);
    }
}

impl Resend {
    /// `self` is the resend message written at the start of `s`.
    pub open spec fn decoded_from(self, s: Seq<u8>) -> bool {
        &&& self.resend_type == s[0]
        &&& self.channel_no == be16(s, 1)
        &&& self.appl_beg_seq_num == signed64(be64(s, 3))
        &&& self.appl_end_seq_num == signed64(be64(s, 11))
        &&& self.news_id@ == s.subrange(19, 27)
        &&& self.resend_status == s[27]
        &&& self.reject_text@ == s.subrange(28, 44)
    }

    /// How parsing `s` fails, if it does: only a body shorter than
    /// `RESEND_BODY_LEN` is refused.
    pub open spec fn parse_error(s: Seq<u8>) -> Option<ParseError> {
        len_error(s.len() as int, RESEND_BODY_LEN as int)
    }

    pub fn parse(buf: &[u8]) -> (res: Result<Self, ParseError>)
        ensures
            match res {
                Ok(m) => Self::parse_error(buf@) is None && m.decoded_from(buf@),
                Err(e) => Self::parse_error(buf@) == Some(e),
            },
    {
        require_len(buf, RESEND_BODY_LEN)?;
        Ok(Resend {
            resend_type: buf[0],
            channel_no: be_u16(buf, 1),
            appl_beg_seq_num: be_i64(buf, 3),
            appl_end_seq_num: be_i64(buf, 11),
            news_id: fixed(buf, 19),
            resend_status: buf[27],
            reject_text: fixed(buf, 28),
        })
    }

    pub fn news_id_str(&self) -> (res: &str)
        ensures
            res@ == field_text(self.news_id@),
    {
        trimmed_str(self.news_id.as_slice())
    }

    pub fn reject_text_str(&self) -> (res: &str)
        ensures
            res@ == field_text(self.reject_text@),
    {
        trimmed_str(self.reject_text.as_slice())
    }
}

/// Business reject (MsgType=8).
///
/// Sent when a message is session-layer valid but breaks a business rule
/// (e.g. a malformed resend or user-info report).
#[derive(Debug, Clone, PartialEq, Eq)]
pub struct BusinessReject {
    /// Sequence number of the rejected message.
    pub ref_seq_num: i64,
    /// Type of the rejected message.
    pub ref_msg_type: u32,
    /// Business-layer id of the rejected message.
    pub business_reject_ref_id: [u8; 10],
    /// Reject reason code.
    pub business_reject_reason: u16,
    /// Reject reason text.
    pub business_reject_text: [u8; 50],
}

/// Wire size of [`BusinessReject`]: `8 + 4 + 10 + 2 + 50 = 74`.
pub const BUSINESS_REJECT_BODY_LEN: usize = 74;

impl Resend {
    /// Where each field sits, big-endian: resend type byte `0`, channel
    /// `1..3`, begin sequence `3..11`, end sequence `11..19`, news id
    /// `19..27`, status byte `27`, reject text `28..44`.
    pub proof fn lemma_layout(s: Seq<u8>, m: Resend)
        requires
            s.len() >= RESEND_BODY_LEN,
            m.decoded_from(s),
        ensures
            m.resend_type == s[0],
            m.channel_no == uint_at(s, 1, 2),
            m.appl_beg_seq_num == int_at(s, 3, 8),
            m.appl_end_seq_num == int_at(s, 11, 8),
            m.news_id@ == s.subrange(19, 27),
            m.resend_status == s[27],
            m.reject_text@ == s.subrange(28, 44),
    {
        lemma_uint16(s, 1);
        lemma_int64(s, 3);
        lemma_int64(s, 11);
    }
}

impl BusinessReject {
    /// `self` is the business reject written at the start of `s`.
    pub open spec fn decoded_from(self, s: Seq<u8>) -> bool {
        &&& self.ref_seq_num == signed64(be64(s, 0))
        &&& self.ref_msg_type == be32(s, 8)
        &&& self.business_reject_ref_id@ == s.subrange(12, 22)
        &&& self.business_reject_reason == be16(s, 22)
        &&& self.business_reject_text@ == s.subrange(24, 74)
    }

    /// How parsing `s` fails, if it does: only a body shorter than
    /// `BUSINESS_REJECT_BODY_LEN` is refused.
    pub open spec fn parse_error(s: Seq<u8>) -> Option<ParseError> {
        len_error(s.len() as int, BUSINESS_REJECT_BODY_LEN as int)
    }

    pub fn parse(buf: &[u8]) -> (res: Result<Self, ParseError>)
        ensures
            match res {
                Ok(m) => Self::parse_error(buf@) is None && m.decoded_from(buf@),
                Err(e) => Self::parse_error(buf@) == Some(e),
            },
    {
        require_len(buf, BUSINESS_REJECT_BODY_LEN)?;
        Ok(BusinessReject {
            ref_seq_num: be_i64(buf, 0),
            ref_msg_type: be_u32(buf, 8),
            business_reject_ref_id: fixed(buf, 12),
            business_reject_reason: be_u16(buf, 22),
            business_reject_text: fixed(buf, 24),
        })
    }

    pub fn business_reject_ref_id_str(&self) -> (res: &str)
        ensures
            res@ == field_text(self.business_reject_ref_id@),
    {
        trimmed_str(self.business_reject_ref_id.as_slice())
    }

    pub fn business_reject_text_str(&self) -> (res: &str)
        ensures
            res@ == field_text(self.business_reject_text@),
    {
        trimmed_str(self.business_reject_text.as_slice())
    }
}

impl BusinessReject {
    /// Where each field sits, big-endian: referenced sequence number
    /// (signed) `0..8`, referenced message type `8..12`, business id
    /// `12..22`, reason code `22..24`, reason text `24..74`.
    pub proof fn lemma_layout(s: Seq<u8>, m: BusinessReject)
        requires
            s.len() >= BUSINESS_REJECT_BODY_LEN,
            m.decoded_from(s),
        ensures
            m.ref_seq_num == int_at(s, 0, 8),
            m.ref_msg_type == uint_at(s, 8, 4),
            m.business_reject_ref_id@ == s.subrange(12, 22),
            m.business_reject_reason == uint_at(s, 22, 2),
            m.business_reject_text@ == s.subrange(24, 74),
    {
        lemma_int64(s, 0);
        lemma_uint32(s, 8);
        lemma_uint16(s, 22);
    }
}

} // verus!
