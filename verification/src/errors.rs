use vstd::prelude::*;

use crate::path_utls::PathError;

verus! {

/// The closed set of failures an upload batch or a remote operation can
/// produce. Every variant carries the diagnostic values the caller needs
/// to report the failure; nothing here aborts sibling uploads.
#[derive(Debug, Clone, PartialEq)]
pub enum MusicUploaderError {
    /// The directory scan itself failed, so the whole batch was abandoned.
    FailedToFindSongs(PathError),
    /// A discovered path no longer named a readable file when its display
    /// name was derived (a race against the filesystem); only this item fails.
    FailedToParseSongFileName(String, PathError),
    /// Reading a discovered file's bytes failed; carries the path and the
    /// I/O cause. Only this item fails.
    FailedToReadFile(String, String),
    /// The upload request never yielded a response; carries the transport
    /// cause.
    FailedToUpload(String),
    /// A pre-flight probe never yielded a response; carries the transport
    /// cause.
    TransportFailure(String),
    /// The server answered outside the 2xx range; carries the status code
    /// and the response body text (or a placeholder when none was readable).
    UnhappyResponse(u16, String),
    /// A 2xx album-search response whose body was not the expected JSON
    /// envelope.
    ResponseDecodeFailure(String),
    /// A transport-level failure during an album search. Deliberately
    /// narrow: it stands apart from `FailedToUpload` so that callers can
    /// tell search failures from upload failures.
    Failed(String),
}

} // verus!
