//! A message broker core: agents exchange addressed messages through a router
//! that keeps one mailbox per destination identity.

pub mod agent;
pub mod agent_id;
pub mod error;
pub mod message;
pub mod message_header;
pub mod message_queues;
pub mod request_id;
pub mod router;
pub mod session;
pub mod wire;

pub use agent::{Agent, AgentAction, AgentEvent};
pub use agent_id::AgentId;
pub use error::DecodeError;
pub use message::{Message, MessageView};
pub use message_header::MessageHeader;
pub use message_queues::{Mailboxes, MessageQueues};
pub use request_id::RequestId;
pub use router::{ListenerAction, ListenerEvent, Router};
pub use session::{Session, SessionAction, SessionEvent, SessionState};
