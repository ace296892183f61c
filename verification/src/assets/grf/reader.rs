use vstd::prelude::*;

use crate::assets::paths::join_path3;

verus! {

/// Serves assets out of an opened archive.
#[derive(Debug)]
pub struct AssetReader<G> {
    grf: G,
}

impl<G> AssetReader<G> {
    /// The archive the reader serves from.
    pub closed spec fn archive(self) -> G {
        self.grf
    }

    /// A reader over the archive that opening gave, or the error that
    /// opening it gave.
    pub fn new<E>(opened: Result<G, E>) -> (reader: Result<Self, E>)
        ensures
            opened matches Ok(grf) ==> (reader matches Ok(r) && r.archive() == grf),
            opened matches Err(e) ==> reader == Err::<Self, E>(e),
    {
        Ok(AssetReader { grf: opened? })
    }

    /// The archive the reader serves from.
    pub fn grf(&self) -> (grf: &G)
        ensures
            *grf == self.archive(),
    {
        &self.grf
    }
}

/// An archive lookup failure: a missing entry, or another failure with its
/// message.
#[derive(Debug, Clone, PartialEq, Eq)]
pub enum GrfError {
    FileNotFound,
    Other(String),
}

/// What the asset system hears of a failed lookup.
#[derive(Debug, Clone, PartialEq, Eq)]
pub enum AssetReaderError {
    /// Nothing lies at this path.
    NotFound(String),
    /// Reading failed with this message.
    Io(String),
}

/// The reader error for a failed lookup of `path`: a missing entry is not
/// found at that path, any other failure is an I/O error that quotes its
/// message.
pub fn reader_error(path: &str, err: GrfError) -> (r: AssetReaderError)
    ensures
        err == GrfError::FileNotFound ==> (r matches AssetReaderError::NotFound(p) && p@ == path@),
        err matches GrfError::Other(message) ==> (r matches AssetReaderError::Io(m) && m@
            == "An error occurred while checking if path is directory. '"@ + message@ + "'"@),
{
    match err {
        GrfError::FileNotFound => AssetReaderError::NotFound(String::from_str(path)),
        GrfError::Other(message) => AssetReaderError::Io(
            join_path3(
                "An error occurred while checking if path is directory. '",
                message.as_str(),
                "'",
            ),
        ),
    }
}

/// The outcome of a lookup of `path` as the asset system sees it: found
/// values pass through, failures become reader errors.
pub fn map_archive_result<T>(path: &str, found: Result<T, GrfError>) -> (r: Result<T, AssetReaderError>)
    ensures
        found matches Ok(v) ==> r == Ok::<T, AssetReaderError>(v),
        found == Err::<T, GrfError>(GrfError::FileNotFound) ==> (r matches Err(
            AssetReaderError::NotFound(p),
        ) && p@ == path@),
        found matches Err(GrfError::Other(message)) ==> (r matches Err(AssetReaderError::Io(m))
            && m@ == "An error occurred while checking if path is directory. '"@ + message@
            + "'"@),
{
    match found {
        Ok(v) => Ok(v),
        Err(err) => Err(reader_error(path, err)),
    }
}

/// Archives hold no metadata files: every metadata lookup of `path` is not
/// found.
pub fn read_meta_error(path: &str) -> (r: AssetReaderError)
    ensures
        r matches AssetReaderError::NotFound(p) && p@ == path@,
{
    AssetReaderError::NotFound(String::from_str(path))
}

} // verus!
