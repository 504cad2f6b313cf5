//! A verified reader for ZIP archives held in memory: locating the
//! end-of-central-directory records in possibly-prefixed bytes, parsing
//! ZIP32 and ZIP64 metadata, decoding entry names, and reading entries
//! through decompression and CRC checking.

pub mod blocks;
pub mod bytes;
pub mod central;
pub mod cp437;
pub mod errors;
pub mod extra;
pub mod paths;
pub mod pipeline;
pub mod read;
pub mod stream;
pub mod trusted;
pub mod types;
pub mod zipcrypto;

pub use errors::ZipError;
pub use errors::ZipResult;
pub use read::ZipArchive;
pub use read::ZipFile;
pub use stream::read_zipfile_from_stream;
pub use types::CompressionMethod;
pub use types::DateTime;
pub use types::ZipFileData;
