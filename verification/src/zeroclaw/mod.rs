//! ZeroClaw gateway client: chat turns and approvals.

pub mod client;
pub mod client_laws;
pub mod protocol;

pub use client::AgentError;
pub use client::AgentEvent;
pub use client::ApprovalInfo;
pub use client::Decision;
pub use client::GatewayConfig;
pub use client::TurnOutcome;
pub use client::ZeroClaw;
pub use protocol::InFrame;
