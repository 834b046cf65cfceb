//! Bucketing of peer identifiers into 24 hourly slots, an exact Pearson
//! chi-square statistic over the resulting frequency table, and the check of
//! which hourly submission slot is active at a given time.

pub mod bucket;
pub mod chi_square;
pub mod peer;
pub mod slot;

pub use bucket::{bucket_of, bucketize, BUCKETS};
pub use chi_square::{chi_square, ChiSquare, ChiSquareError};
pub use peer::{get_peer_slot_distro, peer_id_suffix, InvalidInputError, PEER_ID_LEN, SUFFIX_START};
pub use slot::{check_slot_eligibility, count_eligible_slots, SECS_DAY, SECS_HOUR, SLOTS_PER_DAY};
