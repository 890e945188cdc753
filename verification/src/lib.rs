//! Random passwords and passphrases, and their rendering as text, JSON and CSV.
//!
//! Every draw comes from a random source that the caller hands in, so that a
//! run is a function of that source alone. The contracts say which secrets a
//! request can produce and which bytes a batch of secrets is rendered to.

pub mod alphabet;
pub mod batch;
pub mod csv_reader;
pub mod error;
pub mod json_reader;
pub mod output;
pub mod passphrase;
pub mod password;
pub mod random;
pub mod words;
