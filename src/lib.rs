//! A single-owner balance record handler.
//!
//! An account holds a 4-byte little-endian `u32` balance. The handler checks
//! that the account belongs to the calling program, decodes the record, adds
//! one to it (wrapping at `u32::MAX`) and writes it back in place.

mod error;
mod handler;
mod record;

pub use error::BalanceError;
pub use handler::{
    accepts, increase_balance, incremented, incremented_times, lemma_repeated_calls,
    lemma_single_call, next_balance, same_id, AccountRef, ID_LEN,
};
pub use record::{
    le_bytes, le_u32, lemma_bytes_round_trip, lemma_value_round_trip, BankAccount, RECORD_LEN,
};
