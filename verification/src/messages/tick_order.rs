use vstd::prelude::*;

use crate::error::ParseError;
use crate::types::{
    OrdType, Side, lemma_ord_type_codes, lemma_side_codes, ord_type_code, ord_type_of, side_code,
    side_of,
};
use crate::utils::{
    be16, be64, be_i64, be_u16, be_u8, field_text, fixed, int_at, lemma_int64, lemma_uint16,
    len_error, require_len, signed64, trimmed_str, uint_at,
};

verus! {

/// Tick-by-tick order message.
///
/// Covers the fixed 50-byte body shared by MsgType 300192 / 300592 /
/// 300792 / 300292 / 300392 / 300492. Stream-specific trailing fields are
/// decoded into [`OrderExtension`] via [`TickOrder::parse_with_ext`].
#[derive(Debug, Clone, PartialEq, Eq)]
pub struct TickOrder {
    /// Channel code.
    pub channel_no: u16,
    /// Sequential record number within the channel, from 1.
    pub appl_seq_num: i64,
    /// Market-data stream id.
    pub md_stream_id: [u8; 3],
    /// Security code, ASCII, space-padded.
    pub security_id: [u8; 8],
    /// Security code source, `"102 "` = SZSE.
    pub security_id_source: [u8; 4],
    /// Order price, `N13(4)`.
    pub price: i64,
    /// Order quantity, `N15(2)`.
    pub order_qty: i64,
    /// Buy/sell direction.
    pub side: Side,
    /// Timestamp `YYYYMMDDHHMMSSsss`.
    pub transact_time: i64,
}

/// Wire size of the fixed `TickOrder` body, before any extension fields.
///
/// `2 + 8 + 3 + 8 + 4 + 8 + 8 + 1 + 8 = 50`
pub const TICK_ORDER_BODY_LEN: usize = 50;

/// Stream-specific trailing fields appended after the 50-byte base body.
///
/// Which variant applies is determined by the message type, not the body
/// itself.
#[derive(Debug, Clone, PartialEq, Eq)]
pub enum OrderExtension {
    /// 300192: auction order type.
    Auction { ord_type: OrdType },
    /// 300592: negotiated trade.
    Negotiated {
        /// Pricing-quote id; empty = an intention quote.
        confirm_id: [u8; 8],
        /// Contact person.
        contactor: [u8; 12],
        /// Contact info.
        contact_info: [u8; 30],
    },
    /// 300792: securities lending.
    SecurityLending {
        /// Term in days.
        expiration_days: u16,
        /// Term type; `1` = fixed term.
        expiration_type: u8,
    },
}

impl OrderExtension {
    /// `self` is the extension of a `msg_type` order, written at the start
    /// of `ext`.
    pub open spec fn decoded_from(self, ext: Seq<u8>, msg_type: u32) -> bool {
        match self {
            OrderExtension::Auction { ord_type } => {
                &&& (msg_type == 300192 || msg_type == 300292)
                &&& ord_type_of(ext[0]) == Some(ord_type)
            },
            OrderExtension::Negotiated { confirm_id, contactor, contact_info } => {
                &&& msg_type == 300592
                &&& confirm_id@ == ext.subrange(0, 8)
                &&& contactor@ == ext.subrange(8, 20)
                &&& contact_info@ == ext.subrange(20, 50)
            },
            OrderExtension::SecurityLending { expiration_days, expiration_type } => {
                &&& msg_type == 300792
                &&& expiration_days == be16(ext, 0)
                &&& expiration_type == ext[2]
            },
        }
    }

    /// How decoding the extension of a `msg_type` order from `ext` fails,
    /// if it does: a message type that carries no known extension, too few
    /// bytes for it, or an `OrdType` byte that names no order type.
    pub open spec fn parse_error(ext: Seq<u8>, msg_type: u32) -> Option<ParseError> {
        if msg_type == 300192 || msg_type == 300292 {
            if ext.len() < 1 {
                len_error(ext.len() as int, 1)
            } else if ord_type_of(ext[0]) is None {
                Some(ParseError::InvalidEnum { field: "OrdType", value: ext[0] })
            } else {
                None
            }
        } else if msg_type == 300592 {
            len_error(ext.len() as int, 50)
        } else if msg_type == 300792 {
            len_error(ext.len() as int, 3)
        } else {
            Some(ParseError::UnknownMsgType(msg_type))
        }
    }
}

impl OrderExtension {
    /// Where each extension field sits after the 50-byte base body: the
    /// auction order-type byte at `0`; the negotiated quote id `0..8`,
    /// contact `8..20`, contact info `20..50`; the lending term `0..2` and
    /// term type at `2`. Each message type carries its own variant.
    pub proof fn lemma_layout(ext: Seq<u8>, msg_type: u32, x: OrderExtension)
        requires
            x.decoded_from(ext, msg_type),
            OrderExtension::parse_error(ext, msg_type) is None,
        ensures
            (msg_type == 300192 || msg_type == 300292) ==> (x matches OrderExtension::Auction {
                ord_type,
            } && ext[0] == ord_type_code(ord_type)),
            msg_type == 300592 ==> (x matches OrderExtension::Negotiated {
                confirm_id,
                contactor,
                contact_info,
            } && confirm_id@ == ext.subrange(0, 8) && contactor@ == ext.subrange(8, 20)
                && contact_info@ == ext.subrange(20, 50)),
            msg_type == 300792 ==> (x matches OrderExtension::SecurityLending {
                expiration_days,
                expiration_type,
            } && expiration_days == uint_at(ext, 0, 2) && expiration_type == ext[2]),
    {
        if ext.len() >= 2 {
            lemma_uint16(ext, 0);
        }
        if let OrderExtension::Auction { ord_type } = x {
            lemma_ord_type_codes(ext[0], ord_type);
        }
    }
}

impl TickOrder {
    /// `self` is the base tick-order body written at the start of `s`.
    pub open spec fn decoded_from(self, s: Seq<u8>) -> bool {
        &&& self.channel_no == be16(s, 0)
        &&& self.appl_seq_num == signed64(be64(s, 2))
        &&& self.md_stream_id@ == s.subrange(10, 13)
        &&& self.security_id@ == s.subrange(13, 21)
        &&& self.security_id_source@ == s.subrange(21, 25)
        &&& self.price == signed64(be64(s, 25))
        &&& self.order_qty == signed64(be64(s, 33))
        &&& side_of(s[41]) == Some(self.side)
        &&& self.transact_time == signed64(be64(s, 42))
    }

    /// How parsing the base body `s` fails, if it does: fewer than 50
    /// bytes, or a `Side` byte that names no direction.
    pub open spec fn parse_error(s: Seq<u8>) -> Option<ParseError> {
        if s.len() < TICK_ORDER_BODY_LEN {
            len_error(s.len() as int, TICK_ORDER_BODY_LEN as int)
        } else if side_of(s[41]) is None {
            Some(ParseError::InvalidEnum { field: "Side", value: s[41] })
        } else {
            None
        }
    }

    /// How parsing `s` with the extension of `msg_type` fails, if it does:
    /// the base body is checked first, then the extension after byte 50.
    pub open spec fn parse_with_ext_error(s: Seq<u8>, msg_type: u32) -> Option<ParseError> {
        if Self::parse_error(s) is Some {
            Self::parse_error(s)
        } else {
            OrderExtension::parse_error(s.subrange(TICK_ORDER_BODY_LEN as int, s.len() as int), msg_type)
        }
    }

    /// Bytes after the fixed 50-byte base body change neither whether
    /// `parse` succeeds nor the base order it decodes.
    pub proof fn lemma_trailing_bytes_ignored(s: Seq<u8>, extra: Seq<u8>)
        requires
            s.len() >= TICK_ORDER_BODY_LEN,
        ensures
            Self::parse_error(s + extra) == Self::parse_error(s),
            forall|o: TickOrder| #[trigger] o.decoded_from(s + extra) == o.decoded_from(s),
    {
        let full = s + extra;
        assert(full.subrange(10, 13) =~= s.subrange(10, 13));
        assert(full.subrange(13, 21) =~= s.subrange(13, 21));
        assert(full.subrange(21, 25) =~= s.subrange(21, 25));
    }

    /// Parsing with an extension refuses every body that `parse` refuses,
    /// with the same error, and accepts only bodies that `parse` accepts.
    pub proof fn lemma_with_ext_agrees_with_base(s: Seq<u8>, msg_type: u32)
        ensures
            Self::parse_error(s) is Some ==> Self::parse_with_ext_error(s, msg_type)
                == Self::parse_error(s),
            Self::parse_with_ext_error(s, msg_type) is None ==> Self::parse_error(s) is None,
    {
    }

    /// Where each field of the base tick order sits in its 50-byte body,
    /// read as big-endian numbers: channel `0..2`, record number `2..10`,
    /// stream id `10..13`, security `13..21`, source `21..25`, price
    /// `25..33`, quantity `33..41`, side byte `41`, time `42..50`.
    pub proof fn lemma_layout(s: Seq<u8>, o: TickOrder)
        requires
            s.len() >= TICK_ORDER_BODY_LEN,
            o.decoded_from(s),
        ensures
            o.channel_no == uint_at(s, 0, 2),
            o.appl_seq_num == int_at(s, 2, 8),
            o.md_stream_id@ == s.subrange(10, 13),
            o.security_id@ == s.subrange(13, 21),
            o.security_id_source@ == s.subrange(21, 25),
            o.price == int_at(s, 25, 8),
            o.order_qty == int_at(s, 33, 8),
            s[41] == side_code(o.side),
            o.transact_time == int_at(s, 42, 8),
    {
        lemma_uint16(s, 0);
        lemma_int64(s, 2);
        lemma_int64(s, 25);
        lemma_int64(s, 33);
        lemma_int64(s, 42);
        lemma_side_codes(s[41], o.side);
    }

    /// Price and quantity are separate fields: two bodies that differ only
    /// in the quantity bytes `33..41` decode to orders with the same price
    /// and every other field equal, and with quantities that are the two
    /// bodies' own readings of those bytes.
    pub proof fn lemma_quantity_bytes_only_set_quantity(
        s1: Seq<u8>,
        s2: Seq<u8>,
        o1: TickOrder,
        o2: TickOrder,
    )
        requires
            s1.len() >= TICK_ORDER_BODY_LEN,
            s2.len() == s1.len(),
            forall|i: int| 0 <= i < s1.len() && !(33 <= i < 41) ==> s1[i] == s2[i],
            o1.decoded_from(s1),
            o2.decoded_from(s2),
        ensures
            o1.channel_no == o2.channel_no,
            o1.appl_seq_num == o2.appl_seq_num,
            o1.md_stream_id == o2.md_stream_id,
            o1.security_id == o2.security_id,
            o1.security_id_source == o2.security_id_source,
            o1.price == o2.price,
            o1.side == o2.side,
            o1.transact_time == o2.transact_time,
            o1.order_qty == int_at(s1, 33, 8),
            o2.order_qty == int_at(s2, 33, 8),
    {
        Self::lemma_layout(s1, o1);
        Self::lemma_layout(s2, o2);
        assert(s1.subrange(2, 10) =~= s2.subrange(2, 10));
        assert(s1.subrange(10, 13) =~= s2.subrange(10, 13));
        assert(s1.subrange(13, 21) =~= s2.subrange(13, 21));
        assert(s1.subrange(21, 25) =~= s2.subrange(21, 25));
        assert(s1.subrange(25, 33) =~= s2.subrange(25, 33));
        assert(s1.subrange(42, 50) =~= s2.subrange(42, 50));
        assert(o1.md_stream_id =~= o2.md_stream_id);
        assert(o1.security_id =~= o2.security_id);
        assert(o1.security_id_source =~= o2.security_id_source);
        lemma_side_codes(s1[41], o2.side);
    }

    /// Where the extension fields sit in the whole body: right after the
    /// 50-byte base. The auction order-type byte is byte 50; the
    /// negotiated quote id `50..58`, contact `58..70`, contact info
    /// `70..100`; the lending term `50..52` and term type byte 52. Each
    /// type succeeds exactly when the base decodes and those bytes are
    /// present (and, for auctions, byte 50 is an order-type code); other
    /// message types carry no extension and are refused as unknown.
    pub proof fn lemma_with_ext_layout(
        s: Seq<u8>,
        msg_type: u32,
        o: TickOrder,
        x: OrderExtension,
    )
        requires
            o.decoded_from(s),
            x.decoded_from(s.subrange(TICK_ORDER_BODY_LEN as int, s.len() as int), msg_type),
            Self::parse_with_ext_error(s, msg_type) is None,
        ensures
            (msg_type == 300192 || msg_type == 300292) ==> (x matches OrderExtension::Auction {
                ord_type,
            } && s[50] == ord_type_code(ord_type)),
            msg_type == 300592 ==> (x matches OrderExtension::Negotiated {
                confirm_id,
                contactor,
                contact_info,
            } && confirm_id@ == s.subrange(50, 58) && contactor@ == s.subrange(58, 70)
                && contact_info@ == s.subrange(70, 100)),
            msg_type == 300792 ==> (x matches OrderExtension::SecurityLending {
                expiration_days,
                expiration_type,
            } && expiration_days == uint_at(s, 50, 2) && expiration_type == s[52]),
    {
        let ext = s.subrange(TICK_ORDER_BODY_LEN as int, s.len() as int);
        OrderExtension::lemma_layout(ext, msg_type, x);
        if msg_type == 300592 {
            assert(ext.subrange(0, 8) =~= s.subrange(50, 58));
            assert(ext.subrange(8, 20) =~= s.subrange(58, 70));
            assert(ext.subrange(20, 50) =~= s.subrange(70, 100));
        }
        if msg_type == 300792 {
            assert(ext.subrange(0, 2) =~= s.subrange(50, 52));
        }
    }

    /// Which bodies parsing with an extension accepts: the base must decode
    /// and the extension bytes its message type needs must follow it.
    pub proof fn lemma_with_ext_accepted(s: Seq<u8>, msg_type: u32)
        ensures
            (msg_type == 300192 || msg_type == 300292) ==> (Self::parse_with_ext_error(s, msg_type)
                is None <==> (Self::parse_error(s) is None && s.len() >= 51 && ord_type_of(s[50])
                is Some)),
            msg_type == 300592 ==> (Self::parse_with_ext_error(s, msg_type) is None <==> (
            Self::parse_error(s) is None && s.len() >= 100)),
            msg_type == 300792 ==> (Self::parse_with_ext_error(s, msg_type) is None <==> (
            Self::parse_error(s) is None && s.len() >= 53)),
            !(msg_type == 300192 || msg_type == 300292 || msg_type == 300592 || msg_type == 300792)
                ==> (Self::parse_error(s) is None ==> Self::parse_with_ext_error(s, msg_type)
                == Some(ParseError::UnknownMsgType(msg_type))),
    {
        if s.len() >= 51 {
            assert(s.subrange(TICK_ORDER_BODY_LEN as int, s.len() as int)[0] == s[50]);
        }
    }

    /// Parse only the fixed 50-byte base body (ignores extension fields).
    pub fn parse(buf: &[u8]) -> (res: Result<Self, ParseError>)
        ensures
            match res {
                Ok(m) => Self::parse_error(buf@) is None && m.decoded_from(buf@),
                Err(e) => Self::parse_error(buf@) == Some(e),
            },
    {
        require_len(buf, TICK_ORDER_BODY_LEN)?;
        Ok(TickOrder {
            channel_no: be_u16(buf, 0),
            appl_seq_num: be_i64(buf, 2),
            md_stream_id: fixed(buf, 10),
            security_id: fixed(buf, 13),
            security_id_source: fixed(buf, 21),
            price: be_i64(buf, 25),
            order_qty: be_i64(buf, 33),
            side: Side::from_byte(buf[41])?,
            transact_time: be_i64(buf, 42),
        })
    }

    /// Parse the base body plus the extension selected by `msg_type`.
    ///
    /// Returns the [`TickOrder`] and, when the message type carries one, an
    /// [`OrderExtension`]. Unknown message types yield `UnknownMsgType`.
    pub fn parse_with_ext(buf: &[u8], msg_type: u32) -> (res: Result<
        (Self, Option<OrderExtension>),
        ParseError,
    >)
        ensures
            match res {
                Ok((m, ext)) => {
                    &&& Self::parse_with_ext_error(buf@, msg_type) is None
                    &&& m.decoded_from(buf@)
                    &&& ext matches Some(x) && x.decoded_from(
                        buf@.subrange(TICK_ORDER_BODY_LEN as int, buf@.len() as int),
                        msg_type,
                    )
                },
                Err(e) => Self::parse_with_ext_error(buf@, msg_type) == Some(e),
            },
    {
        let base = Self::parse(buf)?;
        let ext = &buf[TICK_ORDER_BODY_LEN..buf.len()];
        let extension = match msg_type {
            300192 | 300292 => {
                require_len(ext, 1)?;
                Some(OrderExtension::Auction { ord_type: OrdType::from_byte(ext[0])? })
            },
            300592 => {
                require_len(ext, 50)?;  // 8 + 12 + 30
                Some(
                    OrderExtension::Negotiated {
                        confirm_id: fixed(ext, 0),
                        contactor: fixed(ext, 8),
                        contact_info: fixed(ext, 20),
                    },
                )
            },
            300792 => {
                require_len(ext, 3)?;  // u16 + u8
                Some(
                    OrderExtension::SecurityLending {
                        expiration_days: be_u16(ext, 0),
                        expiration_type: be_u8(ext, 2),
                    },
                )
            },
            other => return Err(ParseError::UnknownMsgType(other)),
        };
        Ok((base, extension))
    }

    /// Security code as a trimmed string.
    pub fn security_id_str(&self) -> (res: &str)
        ensures
            res@ == field_text(self.security_id@),
    {
        trimmed_str(self.security_id.as_slice())
    }

    /// Market-data stream id as a trimmed string.
    pub fn md_stream_id_str(&self) -> (res: &str)
        ensures
            res@ == field_text(self.md_stream_id@),
    {
        trimmed_str(self.md_stream_id.as_slice())
    }
}

} // verus!
