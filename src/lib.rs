//! A one-shot reminder engine: parse "in N units", store the reminder with its
//! due instant, and hand due reminders out exactly once for delivery.

pub mod instant;
pub mod interval;
pub mod store;
pub mod notify;
pub mod scheduler;
