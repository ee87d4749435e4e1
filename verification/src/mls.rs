//! MLS group bookkeeping: group identifiers, the transport envelopes that
//! carry MLS messages between members and the delivery server, and the
//! rules that decide who may join, change and write to which group.

pub mod group_id;
pub mod rules;
pub mod transport_types;
