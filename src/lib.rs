//! Detect, insert and remove license or attribution headers in source files.
//!
//! A [`Header`] pairs plain header text with a [`HeaderChecker`] that decides whether a file
//! already has it. The header is framed in each file's comment syntax ([`delimiters`]), placed
//! below a first line that has to stay first, and removed again only where the exact block
//! that adding writes is found ([`header`]). Every operation works on a file's contents and
//! says what the file should become; reading and writing the files is the caller's part.
//!
//! Scans classify each file and gather the reports ([`results`]); batches apply an add or a
//! delete to one path after another and stop at the first error ([`batch`]). The properties
//! that hold across calls, such as deleting undoing adding, are proved in [`guarantees`].
//! Headers for SPDX licenses are built in [`license::spdx`].

pub mod batch;
pub mod checker;
pub mod delimiters;
pub mod errors;
pub mod guarantees;
pub mod header;
pub mod license;
pub mod results;
pub mod text;

pub use batch::{BatchApplier, BatchStep};
pub use checker::{BinaryDetected, HeaderChecker, SingleLineChecker};
pub use delimiters::{FilePath, HeaderDelimiters, header_delimiters, wrap_header};
pub use errors::{
    AddHeaderError, AddHeadersRecursivelyError, CheckHeadersRecursivelyError, DeleteHeaderError,
    DeleteHeadersRecursivelyError,
};
pub use header::Header;
pub use results::{CheckStatus, FileResult, FileResults, classify, collect_scan};
