//! Encoder for a chunked binary stream of aligned single-cell reads.
//!
//! The library turns already-decoded alignment records (read identifier,
//! mapped target id, strand, cell barcode, UMI) into a compact binary file:
//! a header with three typed-tag catalogs, then self-describing chunks of
//! logical read records, and finally a patch that writes the true chunk
//! count back into the header. Nucleotide strings are packed two bits per
//! base into fixed-width integers under a deterministic ambiguous-base rule.

use vstd::prelude::*;

pub mod aggregate;
pub mod chunk;
pub mod decode;
pub mod encoder;
pub mod error;
pub mod pack;
pub mod record;
pub mod schema;
