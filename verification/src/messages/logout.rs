use vstd::prelude::*;

use crate::error::ParseError;
use crate::utils::{
    be32, be_i32, field_text, fixed, int_at, lemma_int32, len_error, require_len, signed32,
    trimmed_str,
};

verus! {

/// Logout message (MsgType=2).
///
/// Sent by either side to end the session, or by the gateway to reject a
/// Logon. `session_status` carries the reason.
#[derive(Debug, Clone, PartialEq, Eq)]
pub struct Logout {
    /// Session status / logout reason.
    pub session_status: i32,
    /// Free-text detail.
    pub text: [u8; 200],
}

/// Wire size of the Logout body: `4 + 200 = 204`.
pub const LOGOUT_BODY_LEN: usize = 204;

/// Decoded meaning of [`Logout::session_status`].
#[derive(Debug, Clone, Copy, PartialEq, Eq)]
pub enum SessionStatus {
    Active,  // 0 session active
    PasswordChanged,  // 1 session password changed
    PasswordExpiring,  // 2 session password about to expire
    NewPasswordNonCompliant,  // 3 new password does not meet the rules
    LogoutComplete,  // 4 logout complete
    InvalidUserOrPassword,  // 5 invalid user name or password
    AccountLocked,  // 6 account locked
    LoginNotAllowedNow,  // 7 logon not allowed at this time
    PasswordExpired,  // 8 password expired
    MsgSeqNumTooLow,  // 9 received MsgSeqNum too low
    NextExpectedTooHigh,  // 10 received NextExpectedMsgSeqNum too high
    Other,  // 101 other
    InvalidMessage,  // 102 invalid message
    Unknown(i32),
}

/// The named reason that a session-status code stands for.
pub open spec fn session_status_of(code: i32) -> SessionStatus {
    if code == 0 {
        SessionStatus::Active
    } else if code == 1 {
        SessionStatus::PasswordChanged
    } else if code == 2 {
        SessionStatus::PasswordExpiring
    } else if code == 3 {
        SessionStatus::NewPasswordNonCompliant
    } else if code == 4 {
        SessionStatus::LogoutComplete
    } else if code == 5 {
        SessionStatus::InvalidUserOrPassword
    } else if code == 6 {
        SessionStatus::AccountLocked
    } else if code == 7 {
        SessionStatus::LoginNotAllowedNow
    } else if code == 8 {
        SessionStatus::PasswordExpired
    } else if code == 9 {
        SessionStatus::MsgSeqNumTooLow
    } else if code == 10 {
        SessionStatus::NextExpectedTooHigh
    } else if code == 101 {
        SessionStatus::Other
    } else if code == 102 {
        SessionStatus::InvalidMessage
    } else {
        SessionStatus::Unknown(code)
    }
}

/// The code that each named session status stands for.
pub open spec fn session_status_code(st: SessionStatus) -> i32 {
    match st {
        SessionStatus::Active => 0,
        SessionStatus::PasswordChanged => 1,
        SessionStatus::PasswordExpiring => 2,
        SessionStatus::NewPasswordNonCompliant => 3,
        SessionStatus::LogoutComplete => 4,
        SessionStatus::InvalidUserOrPassword => 5,
        SessionStatus::AccountLocked => 6,
        SessionStatus::LoginNotAllowedNow => 7,
        SessionStatus::PasswordExpired => 8,
        SessionStatus::MsgSeqNumTooLow => 9,
        SessionStatus::NextExpectedTooHigh => 10,
        SessionStatus::Other => 101,
        SessionStatus::InvalidMessage => 102,
        SessionStatus::Unknown(c) => c,
    }
}

/// Naming a status loses nothing: the named status stands for the very
/// code it was decoded from, and only codes outside the known list are
/// `Unknown`.
pub proof fn lemma_session_status_round_trip(code: i32)
    ensures
        session_status_code(session_status_of(code)) == code,
        session_status_of(code) is Unknown <==> !(0 <= code <= 10 || code == 101 || code == 102),
{
}

impl Logout {
    /// `self` is the Logout body written at the start of `s`.
    pub open spec fn decoded_from(self, s: Seq<u8>) -> bool {
        &&& self.session_status == signed32(be32(s, 0))
        &&& self.text@ == s.subrange(4, 204)
    }

    /// How parsing `s` fails, if it does: only a body shorter than
    /// `LOGOUT_BODY_LEN` is refused.
    pub open spec fn parse_error(s: Seq<u8>) -> Option<ParseError> {
        len_error(s.len() as int, LOGOUT_BODY_LEN as int)
    }

    /// Where each Logout field sits: the big-endian signed status `0..4`,
    /// the text `4..204`.
    pub proof fn lemma_layout(s: Seq<u8>, m: Logout)
        requires
            s.len() >= LOGOUT_BODY_LEN,
            m.decoded_from(s),
        ensures
            m.session_status == int_at(s, 0, 4),
            m.text@ == s.subrange(4, 204),
    {
        lemma_int32(s, 0);
    }

    /// Parse a `Logout` from the body bytes (after the 8-byte header).
    pub fn parse(buf: &[u8]) -> (res: Result<Self, ParseError>)
        ensures
            match res {
                Ok(m) => Self::parse_error(buf@) is None && m.decoded_from(buf@),
                Err(e) => Self::parse_error(buf@) == Some(e),
            },
    {
        require_len(buf, LOGOUT_BODY_LEN)?;
        Ok(Logout { session_status: be_i32(buf, 0), text: fixed(buf, 4) })
    }

    /// Free-text detail as a trimmed string.
    pub fn text_str(&self) -> (res: &str)
        ensures
            res@ == field_text(self.text@),
    {
        trimmed_str(self.text.as_slice())
    }

    /// Decode `session_status` into a named reason.
    pub fn status(&self) -> (res: SessionStatus)
        ensures
            res == session_status_of(self.session_status),
    {
        match self.session_status {
            0 => SessionStatus::Active,
            1 => SessionStatus::PasswordChanged,
            2 => SessionStatus::PasswordExpiring,
            3 => SessionStatus::NewPasswordNonCompliant,
            4 => SessionStatus::LogoutComplete,
            5 => SessionStatus::InvalidUserOrPassword,
            6 => SessionStatus::AccountLocked,
            7 => SessionStatus::LoginNotAllowedNow,
            8 => SessionStatus::PasswordExpired,
            9 => SessionStatus::MsgSeqNumTooLow,
            10 => SessionStatus::NextExpectedTooHigh,
            101 => SessionStatus::Other,
            102 => SessionStatus::InvalidMessage,
            other => SessionStatus::Unknown(other),
        }
    }
}

} // verus!
