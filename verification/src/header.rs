use vstd::prelude::*;

use crate::error::ParseError;
use crate::utils::{be32, be_u32, lemma_uint32, len_error, require_len, uint_at};

verus! {

/// Message header (8 bytes): `MsgType` then `BodyLength`, both big-endian.
#[derive(Debug, Clone, PartialEq)]
pub struct MsgHeader {
    pub msg_type: u32,
    pub body_length: u32,
}

pub const MSG_HEADER_LEN: usize = 8;

impl MsgHeader {
    /// `self` is the header written in the first 8 bytes of `s`.
    pub open spec fn decoded_from(self, s: Seq<u8>) -> bool {
        &&& self.msg_type == be32(s, 0)
        &&& self.body_length == be32(s, 4)
    }

    /// How parsing `s` fails, if it does: only a body shorter than
    /// `MSG_HEADER_LEN` is refused.
    pub open spec fn parse_error(s: Seq<u8>) -> Option<ParseError> {
        len_error(s.len() as int, MSG_HEADER_LEN as int)
    }

    /// The header is two big-endian 4-byte numbers: `MsgType` in bytes
    /// `0..4`, `BodyLength` in bytes `4..8`.
    pub proof fn lemma_layout(s: Seq<u8>, h: MsgHeader)
        requires
            s.len() >= MSG_HEADER_LEN,
            h.decoded_from(s),
        ensures
            h.msg_type == uint_at(s, 0, 4),
            h.body_length == uint_at(s, 4, 4),
    {
        lemma_uint32(s, 0);
        lemma_uint32(s, 4);
    }

    pub fn parse(buf: &[u8]) -> (res: Result<Self, ParseError>)
        ensures
            match res {
                Ok(m) => Self::parse_error(buf@) is None && m.decoded_from(buf@),
                Err(e) => Self::parse_error(buf@) == Some(e),
            },
    {
        require_len(buf, MSG_HEADER_LEN)?;
        Ok(MsgHeader { msg_type: be_u32(buf, 0), body_length: be_u32(buf, 4) })
    }
}

} // verus!
