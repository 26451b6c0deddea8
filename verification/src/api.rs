use vstd::prelude::*;

use crate::albums::{parse_album_search_response, spec_parse_albums};
use crate::config::MusicUploaderClientConfig;
use crate::errors::MusicUploaderError;

verus! {

use vstd::string::StringExecFns;

/// What one HTTP exchange yielded, as the transport reported it: a
/// response with its status code and its body text (when a body could be
/// read), or no response at all, with the transport-level cause.
pub enum TransportEvent {
    Response(u16, Option<String>),
    Failure(String),
}

/// Whether a status code counts as success: the 2xx range.
pub open spec fn is_success_status(status: u16) -> bool {
    200 <= status < 300
}

/// The body text a failure report carries: the text itself when one was
/// read, else the given placeholder.
pub open spec fn body_text_view(body: Option<String>, placeholder: Seq<char>) -> Seq<char> {
    match body {
        Some(t) => t@,
        None => placeholder,
    }
}

/// The URL of a route on the configured server: base URL, `/`, route.
pub fn build_url(config: &MusicUploaderClientConfig, route: &str) -> (r: String)
    ensures
        r@ == config.server_url@ + seq!['/'] + route@,
{
    let mut url = config.server_url.clone();
    url.append("/");
    url.append(route);
    proof {
        reveal_strlit("/");
        assert(url@ =~= config.server_url@ + seq!['/'] + route@);
    }
    url
}

/// The uppercase hex digit for a value below sixteen.
pub open spec fn hex_upper(n: int) -> char {
    if n == 0 {
        '0'
    } else if n == 1 {
        '1'
    } else if n == 2 {
        '2'
    } else if n == 3 {
        '3'
    } else if n == 4 {
        '4'
    } else if n == 5 {
        '5'
    } else if n == 6 {
        '6'
    } else if n == 7 {
        '7'
    } else if n == 8 {
        '8'
    } else if n == 9 {
        '9'
    } else if n == 10 {
        'A'
    } else if n == 11 {
        'B'
    } else if n == 12 {
        'C'
    } else if n == 13 {
        'D'
    } else if n == 14 {
        'E'
    } else {
        'F'
    }
}

/// The bytes a path segment may carry verbatim: ASCII letters, digits,
/// `-`, `.`, `_` and `~`; every other byte is percent-escaped.
pub open spec fn is_unreserved_byte(b: u8) -> bool {
    (0x41 <= b && b <= 0x5A) || (0x61 <= b && b <= 0x7A) || (0x30 <= b && b <= 0x39) || b == 0x2D
        || b == 0x2E || b == 0x5F || b == 0x7E
}

/// One byte of a path segment: itself when unreserved, else `%` and two
/// uppercase hex digits.
pub open spec fn percent_encode_byte(b: u8) -> Seq<char> {
    if is_unreserved_byte(b) {
        seq![(b as u32) as char]
    } else {
        seq!['%', hex_upper(b as int / 16), hex_upper(b as int % 16)]
    }
}

pub open spec fn percent_encode_bytes(bs: Seq<u8>) -> Seq<char>
    decreases bs.len(),
{
    if bs.len() == 0 {
        Seq::empty()
    } else {
        percent_encode_bytes(bs.drop_last()) + percent_encode_byte(bs.last())
    }
}

/// A text percent-encoded for safe embedding as one path segment: its
/// UTF-8 bytes, each kept verbatim when unreserved and `%HH`-escaped
/// otherwise.
pub open spec fn percent_encode(text: Seq<char>) -> Seq<char> {
    percent_encode_bytes(vstd::utf8::encode_utf8(text))
}

fn hex_upper_char(n: u32) -> (c: char)
    requires
        n < 16,
    ensures
        c == hex_upper(n as int),
{
    if n == 0 {
        '0'
    } else if n == 1 {
        '1'
    } else if n == 2 {
        '2'
    } else if n == 3 {
        '3'
    } else if n == 4 {
        '4'
    } else if n == 5 {
        '5'
    } else if n == 6 {
        '6'
    } else if n == 7 {
        '7'
    } else if n == 8 {
        '8'
    } else if n == 9 {
        '9'
    } else if n == 10 {
        'A'
    } else if n == 11 {
        'B'
    } else if n == 12 {
        'C'
    } else if n == 13 {
        'D'
    } else if n == 14 {
        'E'
    } else {
        'F'
    }
}

/// Percent-encodes a text for use as one path segment.
fn percent_encode_str(s: &str) -> (r: String)
    ensures
        r@ == percent_encode(s@),
{
    let bytes = s.as_bytes();
    let m: usize = bytes.len();
    let mut out = String::new();
    let mut i: usize = 0;
    while i < m
        invariant
            i <= m,
            m == bytes@.len(),
            bytes@ == vstd::utf8::encode_utf8(s@),
            out@ == percent_encode_bytes(bytes@.subrange(0, i as int)),
        decreases m - i,
    {
        let ghost prev = out@;
        let b = bytes[i];
        if (0x41 <= b && b <= 0x5A) || (0x61 <= b && b <= 0x7A) || (0x30 <= b && b <= 0x39) || b
            == 0x2D || b == 0x2E || b == 0x5F || b == 0x7E {
            let ch = char::from_u32(b as u32).unwrap();
            proof {
                vstd::utf8::char_u32_cast(ch, b as u32);
            }
            out.push(ch);
        } else {
            out.push('%');
            out.push(hex_upper_char((b as u32) / 16));
            out.push(hex_upper_char((b as u32) % 16));
        }
        proof {
            assert(out@ =~= prev + percent_encode_byte(bytes@[i as int]));
            assert(bytes@.subrange(0, i + 1).drop_last() =~= bytes@.subrange(0, i as int));
            assert(bytes@.subrange(0, i + 1).last() == bytes@[i as int]);
        }
        i = i + 1;
    }
    proof {
        assert(bytes@.subrange(0, m as int) =~= bytes@);
    }
    out
}

/// The URL of the album search route: the album name is percent-encoded
/// and embedded as the final path segment, so that no character of the
/// name can change the route.
pub fn build_album_search_url(config: &MusicUploaderClientConfig, album: &String) -> (r: String)
    ensures
        r@ == config.server_url@ + seq!['/'] + "albumsearch"@ + seq!['/'] + percent_encode(album@),
{
    let mut url = build_url(config, "albumsearch");
    url.append("/");
    let encoded = percent_encode_str(album.as_str());
    url.append(encoded.as_str());
    proof {
        reveal_strlit("/");
        assert(url@ =~= config.server_url@ + seq!['/'] + "albumsearch"@ + seq!['/']
            + percent_encode(album@));
    }
    url
}

/// The result of a pre-flight probe (connectivity or auth), decided from
/// the transport's report: success exactly on a 2xx response; a non-2xx
/// status comes back with whatever body text was read; no response at all
/// comes back as the transport cause.
pub fn probe_outcome(ev: TransportEvent) -> (r: Result<(), MusicUploaderError>)
    ensures
        r is Ok <==> (ev is Response && is_success_status(ev->Response_0)),
        ev is Response && !is_success_status(ev->Response_0) ==> (r matches Err(e)
            && e matches MusicUploaderError::UnhappyResponse(s, b) && s == ev->Response_0 && b@
            == body_text_view(ev->Response_1, Seq::empty())),
        ev is Failure ==> r == Err::<(), MusicUploaderError>(
            MusicUploaderError::TransportFailure(ev->Failure_0),
        ),
{
    match ev {
        TransportEvent::Response(status, body) => {
            if 200 <= status && status < 300 {
                Ok(())
            } else {
                let text = match body {
                    Some(t) => t,
                    None => String::new(),
                };
                Err(MusicUploaderError::UnhappyResponse(status, text))
            }
        },
        TransportEvent::Failure(cause) => Err(MusicUploaderError::TransportFailure(cause)),
    }
}

/// Everything one upload request carries: the route URL, the metadata
/// headers (display name, album, artist, content hash), the raw bytes as
/// the body, and the basic-auth credentials.
pub struct UploadRequest {
    pub url: String,
    pub file_name: String,
    pub album: String,
    pub artist: String,
    pub hash: String,
    pub body: Vec<u8>,
    pub user: String,
    pub password: String,
}

/// The hex SHA-256 digest of a byte sequence, as the digest routine
/// computes it: a function of the bytes alone.
pub uninterp spec fn sha256_hex_of(bytes: Seq<u8>) -> Seq<char>;

/// Relies on sha256::digest: the hex-encoded SHA-256 digest of the bytes,
/// depending on the bytes alone.
#[verifier::external_body]
fn sha256_hex(bytes: &Vec<u8>) -> (r: String)
    ensures
        r@ == sha256_hex_of(bytes@),
{
    sha256::digest(bytes)
}

/// Builds the upload request for one song: the upload route on the
/// configured server, the metadata headers, the credentials, and the raw
/// bytes, with the hash header holding the hex SHA-256 digest of exactly
/// the bytes in the body.
pub fn build_upload_request(
    config: &MusicUploaderClientConfig,
    file: Vec<u8>,
    artist: &String,
    album: &String,
    song_file_name: &String,
) -> (r: UploadRequest)
    ensures
        r.url@ == config.server_url@ + seq!['/'] + "upload"@,
        r.file_name@ == song_file_name@,
        r.album@ == album@,
        r.artist@ == artist@,
        r.body == file,
        r.hash@ == sha256_hex_of(r.body@),
        r.user@ == config.user@,
        r.password@ == config.password@,
{
    let url = build_url(config, "upload");
    let hash = sha256_hex(&file);
    UploadRequest {
        url,
        file_name: song_file_name.clone(),
        album: album.clone(),
        artist: artist.clone(),
        hash,
        body: file,
        user: config.user.clone(),
        password: config.password.clone(),
    }
}

/// The per-file outcome of one upload exchange: the display name on a 2xx
/// response; on a non-2xx response the status with the body text (or a
/// placeholder when none was readable); on a transport failure its cause.
pub fn upload_outcome(song_name: &String, ev: TransportEvent) -> (r: Result<
    String,
    MusicUploaderError,
>)
    ensures
        r is Ok <==> (ev is Response && is_success_status(ev->Response_0)),
        r is Ok ==> r->Ok_0@ == song_name@,
        ev is Response && !is_success_status(ev->Response_0) ==> (r matches Err(e)
            && e matches MusicUploaderError::UnhappyResponse(s, b) && s == ev->Response_0 && b@
            == body_text_view(ev->Response_1, "<no body text>"@)),
        ev is Failure ==> r == Err::<String, MusicUploaderError>(
            MusicUploaderError::FailedToUpload(ev->Failure_0),
        ),
{
    match ev {
        TransportEvent::Response(status, body) => {
            if 200 <= status && status < 300 {
                Ok(song_name.clone())
            } else {
                let text = match body {
                    Some(t) => t,
                    None => "<no body text>".to_owned(),
                };
                Err(MusicUploaderError::UnhappyResponse(status, text))
            }
        },
        TransportEvent::Failure(cause) => Err(MusicUploaderError::FailedToUpload(cause)),
    }
}

/// The result of an album search, decided from the transport's report: on
/// a 2xx response the body is decoded as the album-name envelope and the
/// names come back in order; a body that is missing or not a well-formed
/// envelope is a decode failure, never acted on in part; a non-2xx status
/// comes back with the body text (or a placeholder); no response at all
/// comes back as the transport cause.
pub fn album_search_outcome(ev: TransportEvent) -> (r: Result<Vec<String>, MusicUploaderError>)
    ensures
        ev is Failure ==> r == Err::<Vec<String>, MusicUploaderError>(
            MusicUploaderError::Failed(ev->Failure_0),
        ),
        ev is Response && !is_success_status(ev->Response_0) ==> (r matches Err(e)
            && e matches MusicUploaderError::UnhappyResponse(s, b) && s == ev->Response_0 && b@
            == body_text_view(ev->Response_1, "<no body>"@)),
        ev is Response && is_success_status(ev->Response_0) ==> {
            let body = ev->Response_1;
            &&& r is Ok <==> (body is Some && spec_parse_albums(body->0@) is Some)
            &&& (r matches Ok(v) ==> v.deep_view() == spec_parse_albums(body->0@)->0)
            &&& (body is None ==> (r matches Err(e)
                && e matches MusicUploaderError::ResponseDecodeFailure(c) && c@
                == "album search response had no readable body"@))
            &&& (body is Some && spec_parse_albums(body->0@) is None ==> (r matches Err(e)
                && e matches MusicUploaderError::ResponseDecodeFailure(c) && c@
                == "malformed album search response"@))
        },
{
    match ev {
        TransportEvent::Response(status, body) => {
            if 200 <= status && status < 300 {
                match body {
                    None => Err(
                        MusicUploaderError::ResponseDecodeFailure(
                            "album search response had no readable body".to_owned(),
                        ),
                    ),
                    Some(text) => match parse_album_search_response(text.as_str()) {
                        Some(albums) => Ok(albums),
                        None => Err(
                            MusicUploaderError::ResponseDecodeFailure(
                                "malformed album search response".to_owned(),
                            ),
                        ),
                    },
                }
            } else {
                let text = match body {
                    Some(t) => t,
                    None => "<no body>".to_owned(),
                };
                Err(MusicUploaderError::UnhappyResponse(status, text))
            }
        },
        TransportEvent::Failure(cause) => Err(MusicUploaderError::Failed(cause)),
    }
}

} // verus!
