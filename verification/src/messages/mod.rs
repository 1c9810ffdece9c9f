pub mod common;
pub mod heartbeat;
pub mod logon;
pub mod logout;
pub mod snapshot;
pub mod tick_order;
pub mod tick_trade;

pub use common::{
    BUSINESS_REJECT_BODY_LEN, BusinessReject, CHANNEL_HEARTBEAT_BODY_LEN, ChannelHeartbeat,
    RESEND_BODY_LEN, Resend,
};
pub use heartbeat::Heartbeat;
pub use logon::{LOGON_BODY_LEN, Logon};
pub use logout::{LOGOUT_BODY_LEN, Logout, SessionStatus};
pub use tick_order::{OrderExtension, TICK_ORDER_BODY_LEN, TickOrder};
pub use tick_trade::{TICK_TRADE_BODY_LEN, TickTrade};
pub use snapshot::{MDEntry, SNAPSHOT_FIXED_HEADER_LEN, Snapshot, SnapshotBody, SnapshotHeader};
