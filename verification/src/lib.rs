//! Identification of binary file types by magic-number signatures.
//!
//! A catalog of signature records describes known file formats by the
//! bytes expected at the start of a file (a whitespace-delimited list of
//! two-digit hexadecimal tokens). Given a file's byte buffer and such a
//! catalog, the library decides which records match the buffer's prefix
//! and picks the single most specific match under a deterministic
//! tie-break rule (trailer presence first, then header length).

pub mod format;
pub mod hex;
pub mod matcher;
pub mod selector;
pub mod sig;

pub use format::split_extensions;
pub use format::vec_to_human_readable_string;
pub use hex::bytes_to_hex;
pub use hex::decode_header;
pub use hex::opt_bytes_to_hex;
pub use matcher::find_matches;
pub use matcher::signature_matches;
pub use selector::classify;
pub use selector::select_best;
pub use sig::FileSignature;
pub use sig::SigError;
pub use sig::SigView;
