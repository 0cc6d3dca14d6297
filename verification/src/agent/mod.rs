//! The processes of an agent.

pub mod association;
pub mod bulletin;
pub mod channel;
pub mod channel_context;
pub mod channel_dispatch;
pub mod channel_events;
pub mod channel_history;
pub mod channel_state;
pub mod channel_turn;
pub mod cortex;
pub mod cortex_chat;
pub mod cortex_log;
pub mod message;
pub mod process_control;
pub mod profile;
pub mod status;
pub mod task_pickup;
pub mod tasks;
pub mod warmup;
