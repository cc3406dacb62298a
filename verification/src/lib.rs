//! A client-side connection manager: it owns the lifecycle of a single
//! socket connection, stages the latest composed outbound text, and
//! decides, for each external event, which transmissions and log entries
//! must occur.  The surrounding runtime (socket, UI, console) performs
//! the decided actions; the decisions themselves are verified here.

pub mod endpoint;
pub mod client;
