//! Reading primitives for record-oriented binary streams: exact reads that
//! tell a clean end of stream from a truncated record, big-endian decoding,
//! and a reader that keeps count of its offset so that records can be
//! aligned.

mod align;
mod decode;
mod eof;
mod error;
mod open;
mod source;

pub use align::{AligningReader, law_padding_aligns, padding};
pub use decode::{be_i64_of, be_u32_of, be_value};
pub use eof::{
    EofReadExactExt, exact_outcome, is_suffix, law_clean_stop_after_last_record,
    law_truncation_is_fatal, lemma_skip_is_suffix,
};
pub use error::{Error, IoError, IoErrorKind};
pub use open::OpenResultExt;
pub use source::{ByteSource, SliceSource};
