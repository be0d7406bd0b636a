//! The differential harness: the same input put to a node and to the reference
//! stack, and the rules by which the two must agree.
//!
//! Every comparator restricts its inputs to a domain on which the reference is
//! defined, models what the reference remembers, and says exactly when what
//! the two sides did counts as a divergence. Driving the two sides is left to
//! the caller, who hands back what each of them did.
pub mod cbor;
pub mod checksum;
pub mod compare;
pub mod configuration;
pub mod crc;
pub mod domain;
pub mod forward;
pub mod frames;
pub mod info;
pub mod l2_egress;
pub mod l2_policy;
pub mod ll;
pub mod messages;
pub mod neighbor;
pub mod neighbor_table;
pub mod packet;
pub mod ping;
pub mod registry;
pub mod replay;
pub mod resource;
pub mod stack;
pub mod time;
pub mod util;
