//! A peer-discovery bootstrap node: identity handling, the rule that admits
//! peers into the DHT routing table, and the decisions of its event loop;
//! beside them, the decisions of the node's local database setup.
pub mod codec;
pub mod discovery;
pub mod identity;
pub mod storage;
