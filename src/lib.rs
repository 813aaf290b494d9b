//! A Bloom filter: a packed bit array probed by several seeded hashes,
//! answering "possibly present" or "definitely absent".
pub mod bloom_filter;
pub mod hash_functions;
pub mod logging;
