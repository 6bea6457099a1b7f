//! A uniform interface for opening, inspecting and extracting archive
//! files of various formats: `zip`, `tar`, and `tar` wrapped in a
//! compression codec (`gzip`, `bzip2`, `xz`, `zstd`), with an optional
//! download-then-open path.

pub mod archive;
pub mod download;
pub mod entry;
pub mod format;
mod fsio;
pub mod result;
pub mod tar;
pub mod zip;

pub use archive::Archive;
pub use download::Downloader;
pub use entry::{Entries, Entry, FindEntries};
pub use format::Format;
pub use result::Error;
