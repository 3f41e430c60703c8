//! Error taxonomy of the encoder.
//!
//! Every error is fatal at the encoder boundary except the ambiguous-base
//! rejection, which drops one logical record and lets the pipeline continue.

use vstd::prelude::*;

verus! {

/// The input cannot yield a valid file schema.
#[derive(Clone, Copy, Debug, PartialEq, Eq, Structural)]
pub enum ConfigError {
    /// The input stream held no records, so no schema can be derived.
    NoRecords,
    /// The barcode of the first record has a length outside 1..=32.
    BarcodeLength(u16),
    /// The UMI of the first record has a length outside 1..=32.
    UmiLength(u16),
}

/// A nucleotide string cannot be packed.
#[derive(Clone, Copy, Debug, PartialEq, Eq, Structural)]
pub enum DecodeError {
    /// A symbol outside {A, C, G, T, N}; carries the offending byte.
    UnknownNucleotide(u8),
    /// More than one ambiguous base remains after the single substitution.
    AmbiguousBases,
}

/// Any failure of the whole encoding run.
#[derive(Clone, Copy, Debug, PartialEq, Eq, Structural)]
pub enum RadError {
    /// Schema could not be derived from the input.
    Config(ConfigError),
    /// A nucleotide string was malformed.
    Decode(DecodeError),
    /// The backing store failed to create, write, or seek.
    Io,
}

impl ConfigError {
    /// A short description for reporting at the program boundary.
    pub fn describe(&self) -> (s: &'static str) {
        match self {
            ConfigError::NoRecords => "input had no records",
            ConfigError::BarcodeLength(_) => "cannot encode a barcode of that length",
            ConfigError::UmiLength(_) => "cannot encode a umi of that length",
        }
    }
}

impl DecodeError {
    /// A short description for reporting at the program boundary.
    pub fn describe(&self) -> (s: &'static str) {
        match self {
            DecodeError::UnknownNucleotide(_) => "unknown nucleotide",
            DecodeError::AmbiguousBases => "more than one ambiguous base",
        }
    }
}

} // verus!
