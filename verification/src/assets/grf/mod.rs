pub mod reader;

pub use self::reader::{map_archive_result, reader_error, AssetReader, AssetReaderError, GrfError};
