use vstd::prelude::*;

use crate::error::ParseError;
use crate::utils::{
    be32, be_i32, field_text, fixed, int_at, lemma_int32, len_error, require_len, signed32,
    trimmed_str,
};

verus! {

/// Logon message (MsgType=1).
///
/// Sent by the client as the first message after the TCP connect; the
/// gateway echoes a Logon to confirm, or replies with a [`crate::Logout`]
/// to reject.
#[derive(Debug, Clone, PartialEq, Eq)]
pub struct Logon {
    /// Sender code, client-chosen.
    pub sender_comp_id: [u8; 20],
    /// Target code = gateway id.
    pub target_comp_id: [u8; 20],
    /// Heartbeat interval in seconds.
    pub heart_bt_int: i32,
    /// Password.
    pub password: [u8; 16],
    /// Binary protocol version, e.g. `"1.00"`.
    pub default_appl_ver_id: [u8; 32],
}

/// Wire size of the Logon body: `20 + 20 + 4 + 16 + 32 = 92`.
pub const LOGON_BODY_LEN: usize = 92;

impl Logon {
    /// `self` is the Logon body written at the start of `s`.
    pub open spec fn decoded_from(self, s: Seq<u8>) -> bool {
        &&& self.sender_comp_id@ == s.subrange(0, 20)
        &&& self.target_comp_id@ == s.subrange(20, 40)
        &&& self.heart_bt_int == signed32(be32(s, 40))
        &&& self.password@ == s.subrange(44, 60)
        &&& self.default_appl_ver_id@ == s.subrange(60, 92)
    }

    /// How parsing `s` fails, if it does: only a body shorter than
    /// `LOGON_BODY_LEN` is refused.
    pub open spec fn parse_error(s: Seq<u8>) -> Option<ParseError> {
        len_error(s.len() as int, LOGON_BODY_LEN as int)
    }

    /// Where each Logon field sits: sender `0..20`, target `20..40`, the
    /// big-endian signed heartbeat interval `40..44`, password `44..60`,
    /// protocol version `60..92`.
    pub proof fn lemma_layout(s: Seq<u8>, m: Logon)
        requires
            s.len() >= LOGON_BODY_LEN,
            m.decoded_from(s),
        ensures
            m.sender_comp_id@ == s.subrange(0, 20),
            m.target_comp_id@ == s.subrange(20, 40),
            m.heart_bt_int == int_at(s, 40, 4),
            m.password@ == s.subrange(44, 60),
            m.default_appl_ver_id@ == s.subrange(60, 92),
    {
        lemma_int32(s, 40);
    }

    /// Parse a `Logon` from the body bytes (after the 8-byte header).
    pub fn parse(buf: &[u8]) -> (res: Result<Self, ParseError>)
        ensures
            match res {
                Ok(m) => Self::parse_error(buf@) is None && m.decoded_from(buf@),
                Err(e) => Self::parse_error(buf@) == Some(e),
            },
    {
        require_len(buf, LOGON_BODY_LEN)?;
        Ok(Logon {
            sender_comp_id: fixed(buf, 0),
            target_comp_id: fixed(buf, 20),
            heart_bt_int: be_i32(buf, 40),
            password: fixed(buf, 44),
            default_appl_ver_id: fixed(buf, 60),
        })
    }

    pub fn sender_comp_id_str(&self) -> (res: &str)
        ensures
            res@ == field_text(self.sender_comp_id@),
    {
        trimmed_str(self.sender_comp_id.as_slice())
    }

    pub fn target_comp_id_str(&self) -> (res: &str)
        ensures
            res@ == field_text(self.target_comp_id@),
    {
        trimmed_str(self.target_comp_id.as_slice())
    }

    pub fn password_str(&self) -> (res: &str)
        ensures
            res@ == field_text(self.password@),
    {
        trimmed_str(self.password.as_slice())
    }

    pub fn default_appl_ver_id_str(&self) -> (res: &str)
        ensures
            res@ == field_text(self.default_appl_ver_id@),
    {
        trimmed_str(self.default_appl_ver_id.as_slice())
    }
}

} // verus!
