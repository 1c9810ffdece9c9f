use vstd::prelude::*;

use crate::error::ParseError;
use crate::utils::{
    be16, be32, be64, be_i64, be_u16, be_u32, field_text, fixed, int_at, lemma_int64,
    lemma_field_shift, lemma_uint16, lemma_uint32, len_error, require_len, signed64, trimmed_str, uint_at,
};

verus! {

/// Fixed 65-byte snapshot header shared by all snapshot types.
/// Stream-specific entries follow.
#[derive(Debug, Clone, PartialEq, Eq)]
pub struct SnapshotHeader {
    /// Data generation time `YYYYMMDDHHMMSSsss`.
    pub orig_time: i64,
    /// Channel code.
    pub channel_no: u16,
    /// Market-data stream id, e.g. `"010"` equity auction.
    pub md_stream_id: [u8; 3],
    /// Security code.
    pub security_id: [u8; 8],
    /// Security code source, `"102 "` = SZSE.
    pub security_id_source: [u8; 4],
    /// Trading-phase code; byte 0 = phase, byte 1 = halt flag.
    pub trading_phase_code: [u8; 8],
    /// Previous close, `N13(4)`.
    pub prev_close_px: i64,
    /// Number of trades.
    pub num_trades: i64,
    /// Total traded volume, `N15(2)`.
    pub total_volume_trade: i64,
    /// Total traded value, `N18(4)`.
    pub total_value_trade: i64,
}

/// Wire size of the fixed snapshot header.
///
/// `8 + 2 + 3 + 8 + 4 + 8 + 8 + 8 + 8 + 8 = 65`
pub const SNAPSHOT_FIXED_HEADER_LEN: usize = 65;

impl SnapshotHeader {
    /// `self` is the snapshot header written at the start of `s`.
    pub open spec fn decoded_from(self, s: Seq<u8>) -> bool {
        &&& self.orig_time == signed64(be64(s, 0))
        &&& self.channel_no == be16(s, 8)
        &&& self.md_stream_id@ == s.subrange(10, 13)
        &&& self.security_id@ == s.subrange(13, 21)
        &&& self.security_id_source@ == s.subrange(21, 25)
        &&& self.trading_phase_code@ == s.subrange(25, 33)
        &&& self.prev_close_px == signed64(be64(s, 33))
        &&& self.num_trades == signed64(be64(s, 41))
        &&& self.total_volume_trade == signed64(be64(s, 49))
        &&& self.total_value_trade == signed64(be64(s, 57))
    }

    /// How parsing `s` fails, if it does: only fewer than 65 bytes are
    /// refused.
    pub open spec fn parse_error(s: Seq<u8>) -> Option<ParseError> {
        len_error(s.len() as int, SNAPSHOT_FIXED_HEADER_LEN as int)
    }

    /// Where each header field sits, big-endian: time `0..8`, channel
    /// `8..10`, stream id `10..13`, security `13..21`, source `21..25`,
    /// trading phase `25..33`, previous close `33..41`, trade count
    /// `41..49`, volume `49..57`, value `57..65`.
    pub proof fn lemma_layout(s: Seq<u8>, h: SnapshotHeader)
        requires
            s.len() >= SNAPSHOT_FIXED_HEADER_LEN,
            h.decoded_from(s),
        ensures
            h.orig_time == int_at(s, 0, 8),
            h.channel_no == uint_at(s, 8, 2),
            h.md_stream_id@ == s.subrange(10, 13),
            h.security_id@ == s.subrange(13, 21),
            h.security_id_source@ == s.subrange(21, 25),
            h.trading_phase_code@ == s.subrange(25, 33),
            h.prev_close_px == int_at(s, 33, 8),
            h.num_trades == int_at(s, 41, 8),
            h.total_volume_trade == int_at(s, 49, 8),
            h.total_value_trade == int_at(s, 57, 8),
    {
        lemma_int64(s, 0);
        lemma_uint16(s, 8);
        lemma_int64(s, 33);
        lemma_int64(s, 41);
        lemma_int64(s, 49);
        lemma_int64(s, 57);
    }

    /// Parse the fixed 65-byte header from the body bytes.
    pub fn parse(buf: &[u8]) -> (res: Result<Self, ParseError>)
        ensures
            match res {
                Ok(m) => Self::parse_error(buf@) is None && m.decoded_from(buf@),
                Err(e) => Self::parse_error(buf@) == Some(e),
            },
    {
        require_len(buf, SNAPSHOT_FIXED_HEADER_LEN)?;
        Ok(SnapshotHeader {
            orig_time: be_i64(buf, 0),
            channel_no: be_u16(buf, 8),
            md_stream_id: fixed(buf, 10),
            security_id: fixed(buf, 13),
            security_id_source: fixed(buf, 21),
            trading_phase_code: fixed(buf, 25),
            prev_close_px: be_i64(buf, 33),
            num_trades: be_i64(buf, 41),
            total_volume_trade: be_i64(buf, 49),
            total_value_trade: be_i64(buf, 57),
        })
    }

    pub fn security_id_str(&self) -> (res: &str)
        ensures
            res@ == field_text(self.security_id@),
    {
        trimmed_str(self.security_id.as_slice())
    }

    pub fn md_stream_id_str(&self) -> (res: &str)
        ensures
            res@ == field_text(self.md_stream_id@),
    {
        trimmed_str(self.md_stream_id.as_slice())
    }

    pub fn trading_phase_code_str(&self) -> (res: &str)
        ensures
            res@ == field_text(self.trading_phase_code@),
    {
        trimmed_str(self.trading_phase_code.as_slice())
    }
}

/// One market-data entry.
///
/// Not every field is meaningful for every entry type: depth levels
/// (`0`/`1`) use all of them, while trade/statistic entries (`2`, `4`, `7`,
/// `8`, ...) carry only `price`. `price_level`, `number_of_orders` and
/// `orders` are absent (left zero/empty) for the simpler snapshot variants.
#[derive(Debug, Clone, PartialEq, Eq)]
pub struct MDEntry {
    /// Entry type code, e.g. `"0"` bid, `"1"` ask, `"2"` last.
    pub entry_type: [u8; 2],
    /// Price; scale depends on type: `N18(6)` for `MDEntryPx`.
    pub price: i64,
    /// Quantity, `N15(2)`.
    pub size: i64,
    /// Depth level, 1-based.
    pub price_level: u16,
    /// Total orders at this level; `0` = not disclosed.
    pub number_of_orders: i64,
    /// Per-order quantities for L2 depth.
    pub orders: Vec<i64>,
}

/// Byte size of the fixed part of a depth entry:
/// type(2)+px(8)+size(8)+level(2)+numOrders(8)+noOrders(4) = 32.
pub open spec fn depth_fixed_len() -> int {
    32
}

/// Where the depth entry that starts at `off` of `ext` ends: after its
/// fixed part and its `NoOrders` order quantities of 8 bytes each.
pub open spec fn depth_entry_end(ext: Seq<u8>, off: int) -> int {
    off + depth_fixed_len() + be32(ext, off + 28) * 8
}

/// Where the `i`-th depth entry of `ext` starts: right after the 4-byte
/// `NoMDEntries` count for the first, right after its predecessor for the
/// others.
pub open spec fn depth_entry_start(ext: Seq<u8>, i: nat) -> int
    decreases i,
{
    if i == 0 {
        4
    } else {
        depth_entry_end(ext, depth_entry_start(ext, (i - 1) as nat))
    }
}

/// The first failure met while walking the depth entries `i..count` of
/// `ext`, if any: an entry whose fixed part, or whose order list, runs
/// past the end of `ext`.
pub open spec fn depth_error_from(ext: Seq<u8>, i: nat, count: nat) -> Option<ParseError>
    decreases count - i,
{
    if i >= count {
        None
    } else {
        let off = depth_entry_start(ext, i);
        if ext.len() < off + depth_fixed_len() {
            len_error(ext.len() as int, off + depth_fixed_len())
        } else if ext.len() < depth_entry_end(ext, off) {
            len_error(ext.len() as int, depth_entry_end(ext, off))
        } else {
            depth_error_from(ext, i + 1, count)
        }
    }
}

/// How decoding the auction depth entries `ext` fails, if it does.
pub open spec fn depth_entries_error(ext: Seq<u8>) -> Option<ParseError> {
    if ext.len() < 4 {
        len_error(ext.len() as int, 4)
    } else {
        depth_error_from(ext, 0, be32(ext, 0) as nat)
    }
}

/// The size of one after-hours (`with_size`) or index entry.
pub open spec fn simple_item_len(with_size: bool) -> int {
    if with_size {
        18
    } else {
        10
    }
}

/// Where the first `n` simple entries of `ext` end.
pub open spec fn simple_entries_end(n: int, with_size: bool) -> int {
    if with_size {
        4 + 18 * n
    } else {
        4 + 10 * n
    }
}

/// How decoding the simple entries `ext` fails, if it does: the count is
/// missing, or the entries run past the end, in which case the error names
/// the end of the first entry that does not fit.
pub open spec fn simple_entries_error(ext: Seq<u8>, with_size: bool) -> Option<ParseError> {
    if ext.len() < 4 {
        len_error(ext.len() as int, 4)
    } else if simple_entries_end(be32(ext, 0), with_size) <= ext.len() {
        None
    } else {
        len_error(
            ext.len() as int,
            simple_entries_end((ext.len() - 4) / simple_item_len(with_size) + 1, with_size),
        )
    }
}

impl MDEntry {
    /// `self` is the depth entry (with its order list) written at `off`
    /// of `ext`.
    pub open spec fn depth_decoded_from(self, ext: Seq<u8>, off: int) -> bool {
        &&& self.entry_type@ == ext.subrange(off, off + 2)
        &&& self.price == signed64(be64(ext, off + 2))
        &&& self.size == signed64(be64(ext, off + 10))
        &&& self.price_level == be16(ext, off + 18)
        &&& self.number_of_orders == signed64(be64(ext, off + 20))
        &&& self.orders@.len() == be32(ext, off + 28)
        &&& forall|k: int|
            0 <= k < self.orders@.len() ==> #[trigger] self.orders@[k] == signed64(
                be64(ext, off + 32 + 8 * k),
            )
    }

    /// `self` is the after-hours (`with_size`) or index entry written at
    /// `off` of `ext`; the fields such an entry lacks are zero or empty.
    pub open spec fn simple_decoded_from(self, ext: Seq<u8>, off: int, with_size: bool) -> bool {
        &&& self.entry_type@ == ext.subrange(off, off + 2)
        &&& self.price == signed64(be64(ext, off + 2))
        &&& self.size == (if with_size {
            signed64(be64(ext, off + 10))
        } else {
            0
        })
        &&& self.price_level == 0
        &&& self.number_of_orders == 0
        &&& self.orders@.len() == 0
    }

    /// Where each field of a depth entry at `off` sits, big-endian: type
    /// `+0..2`, price `+2..10`, size `+10..18`, level `+18..20`, order
    /// count `+20..28`, number of listed orders `+28..32`, then the `k`-th
    /// order quantity at `+32 + 8k`.
    pub proof fn lemma_depth_layout(self, ext: Seq<u8>, off: int, k: int)
        requires
            self.depth_decoded_from(ext, off),
            0 <= off,
            off + 32 + 8 * self.orders@.len() <= ext.len(),
        ensures
            self.entry_type@ == ext.subrange(off, off + 2),
            self.price == int_at(ext, off + 2, 8),
            self.size == int_at(ext, off + 10, 8),
            self.price_level == uint_at(ext, off + 18, 2),
            self.number_of_orders == int_at(ext, off + 20, 8),
            self.orders@.len() == uint_at(ext, off + 28, 4),
            0 <= k < self.orders@.len() ==> self.orders@[k] == int_at(ext, off + 32 + 8 * k, 8),
    {
        lemma_int64(ext, off + 2);
        lemma_int64(ext, off + 10);
        lemma_uint16(ext, off + 18);
        lemma_int64(ext, off + 20);
        lemma_uint32(ext, off + 28);
        if 0 <= k < self.orders@.len() {
            lemma_int64(ext, off + 32 + 8 * k);
        }
    }

    /// Where each field of an after-hours (`with_size`) or index entry at
    /// `off` sits, big-endian: type `+0..2`, price `+2..10`, and for
    /// after-hours entries the size `+10..18`; the rest is zero or empty.
    pub proof fn lemma_simple_layout(self, ext: Seq<u8>, off: int, with_size: bool)
        requires
            self.simple_decoded_from(ext, off, with_size),
            0 <= off,
            off + (if with_size {
                18int
            } else {
                10int
            }) <= ext.len(),
        ensures
            self.entry_type@ == ext.subrange(off, off + 2),
            self.price == int_at(ext, off + 2, 8),
            self.size == (if with_size {
                int_at(ext, off + 10, 8)
            } else {
                0
            }),
            self.price_level == 0,
            self.number_of_orders == 0,
            self.orders@.len() == 0,
    {
        lemma_int64(ext, off + 2);
        if with_size {
            lemma_int64(ext, off + 10);
        }
    }

    /// A depth entry and an after-hours entry written at the same place
    /// read their type, price and size from the same bytes.
    pub proof fn lemma_depth_and_after_hours_agree(a: MDEntry, b: MDEntry, ext: Seq<u8>, off: int)
        requires
            a.depth_decoded_from(ext, off),
            b.simple_decoded_from(ext, off, true),
            0 <= off,
            off + 32 + 8 * a.orders@.len() <= ext.len(),
        ensures
            a.entry_type == b.entry_type,
            a.price == b.price,
            a.size == b.size,
    {
        a.lemma_depth_layout(ext, off, 0);
        b.lemma_simple_layout(ext, off, true);
        assert(a.entry_type =~= b.entry_type);
    }

    /// Entry type as a trimmed string (e.g. `"0"`, `"x1"`).
    pub fn entry_type_str(&self) -> (res: &str)
        ensures
            res@ == field_text(self.entry_type@),
    {
        trimmed_str(self.entry_type.as_slice())
    }
}

/// `entries` are the auction depth entries that `ext` holds, in order.
pub open spec fn depth_entries_decoded(entries: Seq<MDEntry>, ext: Seq<u8>) -> bool {
    &&& entries.len() == be32(ext, 0)
    &&& forall|i: int|
        0 <= i < entries.len() ==> #[trigger] entries[i].depth_decoded_from(
            ext,
            depth_entry_start(ext, i as nat),
        )
}

/// `entries` are the simple entries that `ext` holds, in order.
pub open spec fn simple_entries_decoded(
    entries: Seq<MDEntry>,
    ext: Seq<u8>,
    with_size: bool,
) -> bool {
    &&& entries.len() == be32(ext, 0)
    &&& forall|i: int|
        0 <= i < entries.len() ==> #[trigger] entries[i].simple_decoded_from(
            ext,
            simple_entries_end(i, with_size),
            with_size,
        )
}

/// A fully decoded snapshot: the fixed header plus its typed payload.
#[derive(Debug, Clone, PartialEq, Eq)]
pub struct Snapshot {
    pub header: SnapshotHeader,
    pub body: SnapshotBody,
}

/// Stream-specific snapshot payload, selected by `MsgType`.
#[derive(Debug, Clone, PartialEq, Eq)]
pub enum SnapshotBody {
    /// 300111: auction depth book.
    Auction(Vec<MDEntry>),
    /// 300611 / 303711: after-hours fixed-price: type+px+size.
    AfterHours(Vec<MDEntry>),
    /// 309011: index snapshot: type+px only.
    Index(Vec<MDEntry>),
    /// 309111: volume-statistic indicator: sample count.
    VolumeStat { stock_num: u32 },
}

impl SnapshotBody {
    /// `self` is the payload of a `msg_type` snapshot whose bytes after
    /// the fixed header are `ext`.
    pub open spec fn decoded_from(self, ext: Seq<u8>, msg_type: u32) -> bool {
        match self {
            SnapshotBody::Auction(v) => msg_type == 300111 && depth_entries_decoded(v@, ext),
            SnapshotBody::AfterHours(v) => (msg_type == 300611 || msg_type == 303711)
                && simple_entries_decoded(v@, ext, true),
            SnapshotBody::Index(v) => msg_type == 309011 && simple_entries_decoded(
                v@,
                ext,
                false,
            ),
            SnapshotBody::VolumeStat { stock_num } => msg_type == 309111 && stock_num == be32(
                ext,
                0,
            ),
        }
    }

    /// How decoding the payload `ext` of a `msg_type` snapshot fails, if it
    /// does.
    pub open spec fn parse_error(ext: Seq<u8>, msg_type: u32) -> Option<ParseError> {
        if msg_type == 300111 {
            depth_entries_error(ext)
        } else if msg_type == 300611 || msg_type == 303711 {
            simple_entries_error(ext, true)
        } else if msg_type == 309011 {
            simple_entries_error(ext, false)
        } else if msg_type == 309111 {
            len_error(ext.len() as int, 4)
        } else {
            Some(ParseError::UnknownMsgType(msg_type))
        }
    }
}

/// Depth entries start at byte 4 or later.
proof fn lemma_depth_start_nonneg(ext: Seq<u8>, i: nat)
    ensures
        depth_entry_start(ext, i) >= 4,
    decreases i,
{
    if i > 0 {
        lemma_depth_start_nonneg(ext, (i - 1) as nat);
        let prev = depth_entry_start(ext, (i - 1) as nat);
        assert(be32(ext, prev + 28) >= 0);
    }
}

/// Every depth entry that a successful walk from entry `i` meets fits in
/// `ext`.
proof fn lemma_depth_entries_fit(ext: Seq<u8>, i: nat, count: nat, j: nat)
    requires
        depth_error_from(ext, i, count) is None,
        i <= j < count,
    ensures
        depth_entry_start(ext, j) + depth_fixed_len() <= ext.len(),
        depth_entry_end(ext, depth_entry_start(ext, j)) <= ext.len(),
    decreases count - i,
{
    if i < j {
        lemma_depth_entries_fit(ext, i + 1, count, j);
    }
}

impl SnapshotBody {
    /// What each snapshot type's payload holds, read positionally from the
    /// bytes `ext` after the fixed header, for its `i`-th entry:
    /// - 309011 (index): `NoMDEntries` entries of 10 bytes from byte 4,
    ///   type and price only;
    /// - 300611 / 303711 (after hours): entries of 18 bytes from byte 4,
    ///   type, price and size;
    /// - 300111 (auction): entries from byte 4, each followed directly by
    ///   the next one after its 32 fixed bytes and 8 bytes per listed order;
    /// - 309111 (volume statistic): the count in bytes `0..4`.
    pub proof fn lemma_entry_layout(ext: Seq<u8>, msg_type: u32, b: SnapshotBody, i: int)
        requires
            b.decoded_from(ext, msg_type),
            SnapshotBody::parse_error(ext, msg_type) is None,
        ensures
            msg_type == 309011 ==> (b matches SnapshotBody::Index(v) && v@.len() == uint_at(
                ext,
                0,
                4,
            ) && 4 + 10 * v@.len() <= ext.len() && (0 <= i < v@.len() ==> {
                &&& v@[i].entry_type@ == ext.subrange(4 + 10 * i, 6 + 10 * i)
                &&& v@[i].price == int_at(ext, 6 + 10 * i, 8)
                &&& v@[i].size == 0
                &&& v@[i].price_level == 0
                &&& v@[i].number_of_orders == 0
                &&& v@[i].orders@.len() == 0
            })),
            (msg_type == 300611 || msg_type == 303711) ==> (b matches SnapshotBody::AfterHours(v)
                && v@.len() == uint_at(ext, 0, 4) && 4 + 18 * v@.len() <= ext.len() && (0 <= i
                < v@.len() ==> {
                &&& v@[i].entry_type@ == ext.subrange(4 + 18 * i, 6 + 18 * i)
                &&& v@[i].price == int_at(ext, 6 + 18 * i, 8)
                &&& v@[i].size == int_at(ext, 14 + 18 * i, 8)
                &&& v@[i].price_level == 0
                &&& v@[i].number_of_orders == 0
                &&& v@[i].orders@.len() == 0
            })),
            msg_type == 300111 ==> (b matches SnapshotBody::Auction(v) && v@.len() == uint_at(
                ext,
                0,
                4,
            ) && depth_entry_start(ext, 0) == 4 && (0 <= i < v@.len() ==> {
                let off = depth_entry_start(ext, i as nat);
                &&& off + 32 + 8 * v@[i].orders@.len() <= ext.len()
                &&& v@[i].entry_type@ == ext.subrange(off, off + 2)
                &&& v@[i].price == int_at(ext, off + 2, 8)
                &&& v@[i].size == int_at(ext, off + 10, 8)
                &&& v@[i].price_level == uint_at(ext, off + 18, 2)
                &&& v@[i].number_of_orders == int_at(ext, off + 20, 8)
                &&& v@[i].orders@.len() == uint_at(ext, off + 28, 4)
                &&& depth_entry_start(ext, (i + 1) as nat) == off + 32 + 8 * v@[i].orders@.len()
            })),
            msg_type == 309111 ==> (b matches SnapshotBody::VolumeStat { stock_num }
                && stock_num == uint_at(ext, 0, 4)),
    {
        if ext.len() >= 4 {
            lemma_uint32(ext, 0);
        }
        match b {
            SnapshotBody::Index(v) => {
                if 0 <= i < v@.len() {
                    v@[i].lemma_simple_layout(ext, simple_entries_end(i, false), false);
                }
            },
            SnapshotBody::AfterHours(v) => {
                if 0 <= i < v@.len() {
                    v@[i].lemma_simple_layout(ext, simple_entries_end(i, true), true);
                }
            },
            SnapshotBody::Auction(v) => {
                if 0 <= i < v@.len() {
                    let off = depth_entry_start(ext, i as nat);
                    assert(v@[i].depth_decoded_from(ext, off));
                    lemma_depth_entries_fit(ext, 0, be32(ext, 0) as nat, i as nat);
                    lemma_depth_start_nonneg(ext, i as nat);
                    v@[i].lemma_depth_layout(ext, off, 0);
                    assert(depth_entry_start(ext, (i + 1) as nat) == depth_entry_end(ext, off));
                }
            },
            SnapshotBody::VolumeStat { .. } => {},
        }
    }

    /// Each snapshot type succeeds on exactly the payloads that hold all of
    /// its entries: a 4-byte count, then that many 10-byte (index) or
    /// 18-byte (after hours) entries; a volume statistic needs its 4-byte
    /// count. No snapshot type is ever reported as unknown.
    pub proof fn lemma_accepted_payloads(ext: Seq<u8>, msg_type: u32)
        ensures
            msg_type == 309011 ==> (SnapshotBody::parse_error(ext, msg_type) is None <==> (
            ext.len() >= 4 && 4 + 10 * uint_at(ext, 0, 4) <= ext.len())),
            (msg_type == 300611 || msg_type == 303711) ==> (SnapshotBody::parse_error(
                ext,
                msg_type,
            ) is None <==> (ext.len() >= 4 && 4 + 18 * uint_at(ext, 0, 4) <= ext.len())),
            msg_type == 309111 ==> (SnapshotBody::parse_error(ext, msg_type) is None <==> ext.len()
                >= 4),
            (msg_type == 300111 || msg_type == 300611 || msg_type == 303711 || msg_type == 309011
                || msg_type == 309111) ==> !(SnapshotBody::parse_error(ext, msg_type) matches Some(
                ParseError::UnknownMsgType(_),
            )),
    {
        if ext.len() >= 4 {
            lemma_uint32(ext, 0);
        }
        if msg_type == 300111 && ext.len() >= 4 {
            lemma_depth_error_kind(ext, 0, be32(ext, 0) as nat);
        }
    }

    /// An auction payload is refused only as too short: the error names
    /// the payload's length and a larger length that the entries need.
    pub proof fn lemma_auction_error(ext: Seq<u8>)
        requires
            ext.len() < usize::MAX,
        ensures
            SnapshotBody::parse_error(ext, 300111) matches Some(e) ==> (e matches ParseError::BufferTooShort {
                needed,
                got,
            } && got == ext.len() && needed > got),
    {
        if ext.len() >= 4 {
            lemma_depth_error_kind(ext, 0, be32(ext, 0) as nat);
        }
    }

    /// When entries run past the end of an index or after-hours payload,
    /// the error names the end of the first entry that does not fit: a
    /// place past the payload's end, on an entry boundary, less than one
    /// entry beyond it.
    pub proof fn lemma_short_payload_error(ext: Seq<u8>, msg_type: u32)
        requires
            ext.len() >= 4,
            ext.len() + 18 <= usize::MAX,
            msg_type == 309011 || msg_type == 300611 || msg_type == 303711,
            SnapshotBody::parse_error(ext, msg_type) is Some,
        ensures
            ({
                let size: int = if msg_type == 309011 {
                    10
                } else {
                    18
                };
                SnapshotBody::parse_error(ext, msg_type) matches Some(
                    ParseError::BufferTooShort { needed, got },
                ) && got == ext.len() && got < needed <= got + size && (needed - 4) % size == 0
            }),
    {
        let len = ext.len() as int;
        if msg_type == 309011 {
            let k = (len - 4) / 10 + 1;
            assert(4 + 10 * k > len && 4 + 10 * k <= len + 10) by (nonlinear_arith)
                requires
                    k == (len - 4) / 10 + 1,
                    len >= 4,
            ;
            assert((4 + 10 * k - 4) % 10 == 0) by (nonlinear_arith);
            assert(4 + 10 * k <= usize::MAX);
        } else {
            let k = (len - 4) / 18 + 1;
            assert(4 + 18 * k > len && 4 + 18 * k <= len + 18) by (nonlinear_arith)
                requires
                    k == (len - 4) / 18 + 1,
                    len >= 4,
            ;
            assert((4 + 18 * k - 4) % 18 == 0) by (nonlinear_arith);
            assert(4 + 18 * k <= usize::MAX);
        }
    }
}

/// A failing walk over depth entries only ever reports a short buffer,
/// naming the bytes it has and a larger number it needed.
proof fn lemma_depth_error_kind(ext: Seq<u8>, i: nat, count: nat)
    ensures
        depth_error_from(ext, i, count) is None || depth_error_from(ext, i, count) matches Some(
            ParseError::BufferTooShort { .. },
        ),
        ext.len() < usize::MAX ==> (depth_error_from(ext, i, count) matches Some(
            ParseError::BufferTooShort { needed, got },
        ) ==> got == ext.len() && needed > got),
    decreases count - i,
{
    if i < count {
        lemma_depth_error_kind(ext, i + 1, count);
    }
}

impl Snapshot {
    /// `self` is the `msg_type` snapshot whose body is `s`.
    pub open spec fn decoded_from(self, s: Seq<u8>, msg_type: u32) -> bool {
        &&& self.header.decoded_from(s)
        &&& self.body.decoded_from(
            s.subrange(SNAPSHOT_FIXED_HEADER_LEN as int, s.len() as int),
            msg_type,
        )
    }

    /// How parsing the body `s` of a `msg_type` snapshot fails, if it does:
    /// the fixed header is checked first, then the payload after it.
    pub open spec fn parse_error(s: Seq<u8>, msg_type: u32) -> Option<ParseError> {
        if SnapshotHeader::parse_error(s) is Some {
            SnapshotHeader::parse_error(s)
        } else {
            SnapshotBody::parse_error(
                s.subrange(SNAPSHOT_FIXED_HEADER_LEN as int, s.len() as int),
                msg_type,
            )
        }
    }

    /// Where a snapshot's payload sits in the whole body: right after the
    /// 65-byte header. The entry count (or, for 309111, the stock count)
    /// is bytes `65..69`; index entries are 10 bytes each from byte 69
    /// (price at `71 + 10i`), after-hours entries 18 bytes each from byte
    /// 69 (price at `71 + 18i`, size at `79 + 18i`), and auction entry
    /// `i` starts at `65 + depth_entry_start(payload, i)` with its price
    /// 2 bytes and its size 10 bytes further.
    pub proof fn lemma_layout(s: Seq<u8>, msg_type: u32, m: Snapshot, i: int)
        requires
            m.decoded_from(s, msg_type),
            Self::parse_error(s, msg_type) is None,
        ensures
            m.header.orig_time == int_at(s, 0, 8),
            m.header.channel_no == uint_at(s, 8, 2),
            m.header.security_id@ == s.subrange(13, 21),
            msg_type == 309111 ==> (m.body matches SnapshotBody::VolumeStat { stock_num }
                && stock_num == uint_at(s, 65, 4)),
            msg_type == 309011 ==> (m.body matches SnapshotBody::Index(v) && v@.len() == uint_at(
                s,
                65,
                4,
            ) && (0 <= i < v@.len() ==> v@[i].price == int_at(s, 71 + 10 * i, 8))),
            (msg_type == 300611 || msg_type == 303711) ==> (m.body matches SnapshotBody::AfterHours(
                v,
            ) && v@.len() == uint_at(s, 65, 4) && (0 <= i < v@.len() ==> v@[i].price == int_at(
                s,
                71 + 18 * i,
                8,
            ) && v@[i].size == int_at(s, 79 + 18 * i, 8))),
            msg_type == 300111 ==> (m.body matches SnapshotBody::Auction(v) && v@.len() == uint_at(
                s,
                65,
                4,
            ) && (0 <= i < v@.len() ==> ({
                let off = 65 + depth_entry_start(
                    s.subrange(SNAPSHOT_FIXED_HEADER_LEN as int, s.len() as int),
                    i as nat,
                );
                v@[i].price == int_at(s, off + 2, 8) && v@[i].size == int_at(s, off + 10, 8)
            }))),
    {
        let ext = s.subrange(SNAPSHOT_FIXED_HEADER_LEN as int, s.len() as int);
        SnapshotHeader::lemma_layout(s, m.header);
        SnapshotBody::lemma_entry_layout(ext, msg_type, m.body, i);
        if ext.len() >= 4 {
            lemma_field_shift(s, 65, 0, 4);
        }
        match m.body {
            SnapshotBody::Index(v) => {
                if 0 <= i < v@.len() {
                    lemma_field_shift(s, 65, 6 + 10 * i, 8);
                }
            },
            SnapshotBody::AfterHours(v) => {
                if 0 <= i < v@.len() {
                    lemma_field_shift(s, 65, 6 + 18 * i, 8);
                    lemma_field_shift(s, 65, 14 + 18 * i, 8);
                }
            },
            SnapshotBody::Auction(v) => {
                if 0 <= i < v@.len() {
                    let off = depth_entry_start(ext, i as nat);
                    lemma_depth_start_nonneg(ext, i as nat);
                    lemma_field_shift(s, 65, off + 2, 8);
                    lemma_field_shift(s, 65, off + 10, 8);
                }
            },
            _ => {},
        }
    }

    /// Parse a complete snapshot body for the given `msg_type`.
    pub fn parse(buf: &[u8], msg_type: u32) -> (res: Result<Self, ParseError>)
        ensures
            match res {
                Ok(m) => Self::parse_error(buf@, msg_type) is None && m.decoded_from(
                    buf@,
                    msg_type,
                ),
                Err(e) => Self::parse_error(buf@, msg_type) == Some(e),
            },
    {
        let header = SnapshotHeader::parse(buf)?;
        let ext = &buf[SNAPSHOT_FIXED_HEADER_LEN..buf.len()];
        let body = match msg_type {
            300111 => SnapshotBody::Auction(parse_depth_entries(ext)?),
            300611 | 303711 => SnapshotBody::AfterHours(parse_simple_entries(ext, true)?),
            309011 => SnapshotBody::Index(parse_simple_entries(ext, false)?),
            309111 => {
                require_len(ext, 4)?;
                SnapshotBody::VolumeStat { stock_num: be_u32(ext, 0) }
            },
            other => return Err(ParseError::UnknownMsgType(other)),
        };
        Ok(Snapshot { header, body })
    }
}

/// `a + b`, or `usize::MAX` when the sum does not fit.
fn add_or_max(a: usize, b: usize) -> (r: usize)
    ensures
        r == (if a + b <= usize::MAX {
            a + b
        } else {
            usize::MAX as int
        }),
{
    match a.checked_add(b) {
        Some(s) => s,
        None => usize::MAX,
    }
}

/// Parse the 300111 extension: `NoMDEntries` then variable-width entries
/// each carrying an `OrderQty[NoOrders]` tail.
fn parse_depth_entries(ext: &[u8]) -> (res: Result<Vec<MDEntry>, ParseError>)
    ensures
        match res {
            Ok(v) => depth_entries_error(ext@) is None && depth_entries_decoded(v@, ext@),
            Err(e) => depth_entries_error(ext@) == Some(e),
        },
{
    require_len(ext, 4)?;
    let count = be_u32(ext, 0);
    let ghost n = count as nat;
    let mut entries: Vec<MDEntry> = Vec::new();
    let mut off: usize = 4;
    let mut i: u32 = 0;
    while i < count
        invariant
            ext@.len() >= 4,
            count == be32(ext@, 0),
            n == count,
            i <= count,
            off == depth_entry_start(ext@, i as nat),
            off <= ext@.len(),
            depth_error_from(ext@, i as nat, n) == depth_error_from(ext@, 0, n),
            entries@.len() == i,
            forall|j: int|
                0 <= j < i ==> #[trigger] entries@[j].depth_decoded_from(
                    ext@,
                    depth_entry_start(ext@, j as nat),
                ),
        decreases count - i,
    {
        let start = off;
        // fixed part: type(2)+px(8)+size(8)+level(2)+numOrders(8)+noOrders(4) = 32
        if ext.len() - off < 32 {
            return Err(ParseError::BufferTooShort { needed: add_or_max(off, 32), got: ext.len() });
        }
        let entry_type: [u8; 2] = fixed(ext, off);
        let price = be_i64(ext, off + 2);
        let size = be_i64(ext, off + 10);
        let price_level = be_u16(ext, off + 18);
        let number_of_orders = be_i64(ext, off + 20);
        let no_orders = be_u32(ext, off + 28);
        off = off + 32;

        let room = ext.len() - off;
        proof {
            assert((no_orders > room / 8) == (no_orders * 8 > room)) by (nonlinear_arith)
                requires
                    room >= 0,
            ;
        }
        if (no_orders as usize) > room / 8 {
            let needed = match (no_orders as usize).checked_mul(8) {
                Some(bytes) => add_or_max(off, bytes),
                None => usize::MAX,
            };
            return Err(ParseError::BufferTooShort { needed, got: ext.len() });
        }
        let mut orders: Vec<i64> = Vec::new();
        let mut k: u32 = 0;
        while k < no_orders
            invariant
                start + 32 + no_orders * 8 <= ext.len(),
                k <= no_orders,
                off == start + 32 + 8 * k,
                orders@.len() == k,
                forall|q: int|
                    0 <= q < k ==> #[trigger] orders@[q] == signed64(
                        be64(ext@, start + 32 + 8 * q),
                    ),
            decreases no_orders - k,
        {
            orders.push(be_i64(ext, off));
            off = off + 8;
            k = k + 1;
        }
        let entry = MDEntry { entry_type, price, size, price_level, number_of_orders, orders };
        proof {
            assert(entry.depth_decoded_from(ext@, start as int));
        }
        entries.push(entry);
        i = i + 1;
    }
    Ok(entries)
}

/// Parse 300611/303711 (`with_size = true`, 18B each) or 309011
/// (`with_size = false`, 10B each) entries.
fn parse_simple_entries(ext: &[u8], with_size: bool) -> (res: Result<Vec<MDEntry>, ParseError>)
    ensures
        match res {
            Ok(v) => simple_entries_error(ext@, with_size) is None && simple_entries_decoded(
                v@,
                ext@,
                with_size,
            ),
            Err(e) => simple_entries_error(ext@, with_size) == Some(e),
        },
{
    require_len(ext, 4)?;
    let count = be_u32(ext, 0);
    let item_len: usize = if with_size {
        18
    } else {
        10
    };
    let mut entries: Vec<MDEntry> = Vec::new();
    let mut off: usize = 4;
    let mut i: u32 = 0;
    while i < count
        invariant
            ext@.len() >= 4,
            count == be32(ext@, 0),
            item_len == simple_item_len(with_size),
            i <= count,
            off == simple_entries_end(i as int, with_size),
            off <= ext@.len(),
            entries@.len() == i,
            forall|j: int|
                0 <= j < i ==> #[trigger] entries@[j].simple_decoded_from(
                    ext@,
                    simple_entries_end(j, with_size),
                    with_size,
                ),
        decreases count - i,
    {
        if ext.len() - off < item_len {
            proof {
                let len = ext@.len() as int;
                if with_size {
                    assert((len - 4) / 18 == i) by (nonlinear_arith)
                        requires
                            4 + 18 * i <= len < 4 + 18 * (i + 1),
                    ;
                } else {
                    assert((len - 4) / 10 == i) by (nonlinear_arith)
                        requires
                            4 + 10 * i <= len < 4 + 10 * (i + 1),
                    ;
                }
            }
            return Err(ParseError::BufferTooShort { needed: add_or_max(off, item_len), got: ext.len() });
        }
        let entry_type: [u8; 2] = fixed(ext, off);
        let price = be_i64(ext, off + 2);
        let size = if with_size {
            be_i64(ext, off + 10)
        } else {
            0
        };
        let entry = MDEntry {
            entry_type,
            price,
            size,
            price_level: 0,
            number_of_orders: 0,
            orders: Vec::new(),
        };
        entries.push(entry);
        off = off + item_len;
        i = i + 1;
    }
    Ok(entries)
}

} // verus!
