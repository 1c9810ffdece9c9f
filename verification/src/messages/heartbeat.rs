use vstd::prelude::*;

verus! {

/// Heartbeat message (MsgType=3). It has no body; the type only names it.
#[derive(Debug, Clone, Copy)]
pub struct Heartbeat;

} // verus!
