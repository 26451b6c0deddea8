//! Core of a client that uploads a directory of audio files to a remote
//! music library server: directory scanning with extension filtering,
//! per-file content hashing, request construction for the four remote
//! operations, response interpretation, and fail-independent aggregation
//! of per-file outcomes.
//!
//! All filesystem and network traffic is performed by the surrounding
//! binary; this library receives the observed facts (directory entries,
//! file bytes, HTTP responses) as plain values and is verified to turn
//! them into the right requests and outcomes.

pub mod albums;
pub mod api;
pub mod config;
pub mod errors;
pub mod orchestration;
pub mod path_utls;

pub use albums::parse_album_search_response;
pub use api::{
    album_search_outcome, build_album_search_url, build_upload_request, build_url, probe_outcome,
    upload_outcome, TransportEvent, UploadRequest,
};
pub use config::{build_lib_config, MusicUploaderClientConfig, TomlConfig};
pub use errors::MusicUploaderError;
pub use orchestration::{batch_scan_result, song_outcome, upload_album_outcomes, SongUploadEvent};
pub use path_utls::{
    get_song_file_paths_in_dir, has_valid_extension, strip_directory_from_file, DirEntry,
    PathError,
};
