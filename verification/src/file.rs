//! The checks made on a file before it is read whole into a `String`.

use vstd::prelude::*;

verus! {

/// The largest file, in bytes, that is read whole into a `String`.
pub const FILE_SIZE_LIMIT: u64 = 100_000;

/// Why a file is not read.
#[derive(Debug, Clone, Copy, PartialEq, Eq, Structural)]
pub enum FileError {
    /// There is no file at the path.
    Missing,
    /// The file is larger than the limit.
    TooBig { size: u64, limit: u64 },
}

/// Decides whether a file may be read whole: `file_size` is the size of the
/// file in bytes, or `None` where there is no file at the path.
pub fn check_file_exists(file_size: Option<u64>) -> (r: Result<(), FileError>)
    ensures
        file_size is None ==> r == Err::<(), FileError>(FileError::Missing),
        file_size is Some && file_size.unwrap() > FILE_SIZE_LIMIT ==> r == Err::<(), FileError>(
            (FileError::TooBig { size: file_size.unwrap(), limit: FILE_SIZE_LIMIT }),
        ),
        file_size is Some && file_size.unwrap() <= FILE_SIZE_LIMIT ==> r == Ok::<(), FileError>(()),
{
    match file_size {
        Some(size) => {
            if size > FILE_SIZE_LIMIT {
                return Err(FileError::TooBig { size, limit: FILE_SIZE_LIMIT });
            }
            Ok(())
        },
        None => Err(FileError::Missing),
    }
}

} // verus!
