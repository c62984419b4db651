//! State model of a desktop MQTT client: broker profiles, the per-broker side tables
//! of each open tab (connection flags, message log, form buffers, live subscriptions
//! and subscription history), the id-addressed accessors into them, and the intents
//! that the interface hands to the session worker.

use vstd::prelude::*;

pub mod common;
pub mod formatter;
pub mod hierarchy;
pub mod intents;
pub mod lens;
pub mod session;

verus! {

} // verus!
