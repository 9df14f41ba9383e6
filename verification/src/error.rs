use crate::version::InnoVersion;
use vstd::prelude::*;

verus! {

/// One of the two streams that follow the version of an installer.
#[derive(Clone, Copy, PartialEq, Eq, Structural, Debug)]
pub enum HeaderStream {
    Primary,
    Secondary,
}

/// Why an installer could not be read. `E` is the error of the reader underneath.
#[derive(Debug)]
pub enum InnoError<E> {
    /// The file is no Inno Setup installer.
    NotInnoFile,
    /// The installer was made by a release that is too new.
    UnsupportedVersion(InnoVersion),
    /// A header stream goes on after its last entry.
    UnexpectedExtraData(HeaderStream),
    /// Reading from the installer failed.
    Read(E),
}

} // verus!
