//! What goes to a broker, and what comes from one.

pub mod discovery;
pub mod publisher;
pub mod subscriber;
