use vstd::prelude::*;

use crate::api::{body_text_view, is_success_status, upload_outcome, TransportEvent};
use crate::errors::MusicUploaderError;
use crate::path_utls::PathError;

verus! {

/// What the batch runner observed for one discovered file, following the
/// per-file state machine: the display name could not be derived (the
/// path no longer named a file); the bytes could not be read; or an
/// upload was attempted and the transport reported a result. Events are
/// handed over in discovery order, one per file.
pub enum SongUploadEvent {
    /// The path, which no longer denoted a readable regular file.
    NameUnavailable(String),
    /// The path and the I/O cause of the failed read.
    ReadFailed(String, String),
    /// The display name that was uploaded and what the exchange yielded.
    Sent(String, TransportEvent),
}

/// The outcome owed for one file's event: exactly one tagged value, fixed
/// by the event alone — no sibling file plays any part.
pub open spec fn outcome_matches(ev: SongUploadEvent, r: Result<String, MusicUploaderError>) -> bool {
    match ev {
        SongUploadEvent::NameUnavailable(path) => r == Err::<String, MusicUploaderError>(
            MusicUploaderError::FailedToParseSongFileName(path, PathError::PathIsNotFile),
        ),
        SongUploadEvent::ReadFailed(path, cause) => r == Err::<String, MusicUploaderError>(
            MusicUploaderError::FailedToReadFile(path, cause),
        ),
        SongUploadEvent::Sent(name, tev) => match tev {
            TransportEvent::Response(status, body) => if is_success_status(status) {
                r matches Ok(n) && n@ == name@
            } else {
                r matches Err(e) && e matches MusicUploaderError::UnhappyResponse(s, b) && s
                    == status && b@ == body_text_view(body, "<no body text>"@)
            },
            TransportEvent::Failure(cause) => r == Err::<String, MusicUploaderError>(
                MusicUploaderError::FailedToUpload(cause),
            ),
        },
    }
}

/// The batch's abort-on-failure step: a scan failure becomes the single
/// top-level error of the whole batch — nothing is partially acted on —
/// while a successful scan hands the discovered paths on unchanged.
pub fn batch_scan_result(scan: Result<Vec<String>, PathError>) -> (r: Result<
    Vec<String>,
    MusicUploaderError,
>)
    ensures
        scan matches Ok(paths) ==> r == Ok::<Vec<String>, MusicUploaderError>(paths),
        scan matches Err(e) ==> r == Err::<Vec<String>, MusicUploaderError>(
            MusicUploaderError::FailedToFindSongs(e),
        ),
{
    match scan {
        Ok(paths) => Ok(paths),
        Err(e) => Err(MusicUploaderError::FailedToFindSongs(e)),
    }
}

/// The outcome recorded for one file.
pub fn song_outcome(ev: SongUploadEvent) -> (r: Result<String, MusicUploaderError>)
    ensures
        outcome_matches(ev, r),
{
    match ev {
        SongUploadEvent::NameUnavailable(path) => Err(
            MusicUploaderError::FailedToParseSongFileName(path, PathError::PathIsNotFile),
        ),
        SongUploadEvent::ReadFailed(path, cause) => Err(
            MusicUploaderError::FailedToReadFile(path, cause),
        ),
        SongUploadEvent::Sent(name, tev) => upload_outcome(&name, tev),
    }
}

/// The batch fold: one outcome per event, in the order the files were
/// discovered. Each outcome is fixed by its own event, so no file's
/// failure can abort or distort a sibling's record.
pub fn upload_album_outcomes(events: Vec<SongUploadEvent>) -> (r: Vec<
    Result<String, MusicUploaderError>,
>)
    ensures
        r@.len() == events@.len(),
        forall|i: int| 0 <= i < events@.len() ==> outcome_matches(events@[i], #[trigger] r@[i]),
{
    let ghost orig = events@;
    let mut rem = events;
    let mut out: Vec<Result<String, MusicUploaderError>> = Vec::new();
    while rem.len() > 0
        invariant
            out@.len() + rem@.len() == orig.len(),
            rem@ == orig.subrange(out@.len() as int, orig.len() as int),
            forall|i: int| 0 <= i < out@.len() ==> outcome_matches(orig[i], #[trigger] out@[i]),
        decreases rem@.len(),
    {
        let ghost k = out@.len() as int;
        let ev = rem.remove(0);
        proof {
            assert(ev == orig[k]);
            assert(rem@ =~= orig.subrange(k + 1, orig.len() as int));
        }
        let oc = song_outcome(ev);
        out.push(oc);
    }
    out
}

/// Law: fail-independence. When every file's upload came back 2xx except
/// one, whose exchange failed at the transport, the batch records a
/// success for every other file and a transport failure for that one, in
/// the original order.
pub proof fn lemma_fail_independence(
    events: Seq<SongUploadEvent>,
    outcomes: Seq<Result<String, MusicUploaderError>>,
    f: int,
)
    requires
        outcomes.len() == events.len(),
        forall|i: int| 0 <= i < events.len() ==> outcome_matches(events[i], #[trigger] outcomes[i]),
        0 <= f < events.len(),
        events[f] matches SongUploadEvent::Sent(_, TransportEvent::Failure(_)),
        forall|i: int|
            0 <= i < events.len() && i != f ==> (#[trigger] events[i] matches SongUploadEvent::Sent(
                _,
                TransportEvent::Response(s, _),
            ) && is_success_status(s)),
    ensures
        forall|i: int| 0 <= i < outcomes.len() && i != f ==> (#[trigger] outcomes[i]) is Ok,
        outcomes[f] matches Err(MusicUploaderError::FailedToUpload(_)),
{
    assert forall|i: int| 0 <= i < outcomes.len() && i != f implies (#[trigger] outcomes[i]) is Ok by {
        assert(outcome_matches(events[i], outcomes[i]));
    }
    assert(outcome_matches(events[f], outcomes[f]));
}

} // verus!
