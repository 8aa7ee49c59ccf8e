//! A content-addressed archive (CAR) storage engine.
//!
//! The crate turns a byte image of a CARv1 or CARv2 file into a random-access
//! blockstore: it indexes the block frames, serves reads by CID, and absorbs
//! new writes in a memory cache. Around that core stand a multi-archive
//! store, the decision logic of the snapshot importer and of the directory
//! loader, and a few small companions of the wider node.

pub mod error;
pub mod varint;
pub mod cids;
pub mod cid_map;
pub mod header;
pub mod plain;
pub mod forest;
pub mod many;
pub mod importer;
pub mod loader;
pub mod f3;
pub mod backfill;
pub mod lotus_json;
