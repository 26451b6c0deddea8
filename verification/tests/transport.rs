use music_uploader_client::{
    album_search_outcome, batch_scan_result, build_album_search_url, build_lib_config,
    build_upload_request, build_url, parse_album_search_response, probe_outcome, song_outcome,
    upload_album_outcomes, upload_outcome, MusicUploaderClientConfig, MusicUploaderError,
    PathError, SongUploadEvent, TomlConfig, TransportEvent,
};

fn config() -> MusicUploaderClientConfig {
    MusicUploaderClientConfig {
        user: "alice".to_string(),
        password: "pw".to_string(),
        valid_extension: vec!["mp3".to_string(), "flac".to_string()],
        server_url: "http://server.example".to_string(),
    }
}

#[test]
fn build_lib_config_moves_every_field() {
    let c = build_lib_config(TomlConfig {
        user: "alice".to_string(),
        password: "pw".to_string(),
        valid_extensions: vec!["mp3".to_string()],
        server_url: "http://server.example".to_string(),
    });
    assert_eq!(c.user, "alice");
    assert_eq!(c.password, "pw");
    assert_eq!(c.valid_extension, vec!["mp3".to_string()]);
    assert_eq!(c.server_url, "http://server.example");
}

#[test]
fn build_url_joins_base_and_route() {
    assert_eq!(build_url(&config(), "conn"), "http://server.example/conn");
    assert_eq!(build_url(&config(), "auth"), "http://server.example/auth");
}

#[test]
fn album_search_url_embeds_the_album_name() {
    let url = build_album_search_url(&config(), &"night".to_string());
    assert_eq!(url, "http://server.example/albumsearch/night");
}

#[test]
fn album_search_url_percent_encodes_spaces() {
    let url = build_album_search_url(&config(), &"two words".to_string());
    assert_eq!(url, "http://server.example/albumsearch/two%20words");
}

#[test]
fn album_search_url_percent_encodes_route_changers() {
    let url = build_album_search_url(&config(), &"a/b?c#d".to_string());
    assert_eq!(url, "http://server.example/albumsearch/a%2Fb%3Fc%23d");
}

#[test]
fn album_search_url_percent_encodes_non_ascii() {
    let url = build_album_search_url(&config(), &"caf\u{e9}".to_string());
    assert_eq!(url, "http://server.example/albumsearch/caf%C3%A9");
}

#[test]
fn probe_succeeds_on_2xx() {
    assert!(probe_outcome(TransportEvent::Response(200, None)).is_ok());
    assert!(probe_outcome(TransportEvent::Response(204, None)).is_ok());
}

#[test]
fn probe_carries_the_status_on_401() {
    let r = probe_outcome(TransportEvent::Response(401, None));
    match r.unwrap_err() {
        MusicUploaderError::UnhappyResponse(status, _) => assert_eq!(status, 401),
        other => panic!("unexpected error: {:?}", other),
    }
}

#[test]
fn probe_carries_the_transport_cause() {
    let r = probe_outcome(TransportEvent::Failure("connection refused".to_string()));
    assert_eq!(
        r.unwrap_err(),
        MusicUploaderError::TransportFailure("connection refused".to_string())
    );
}

#[test]
fn upload_request_hash_is_the_digest_of_the_body() {
    let bytes = b"hello".to_vec();
    let r = build_upload_request(
        &config(),
        bytes.clone(),
        &"artist".to_string(),
        &"album".to_string(),
        &"song.mp3".to_string(),
    );
    assert_eq!(r.body, bytes);
    // recomputed independently, and against the published digest of "hello"
    assert_eq!(r.hash, sha256::digest(&r.body));
    assert_eq!(r.hash, "2cf24dba5fb0a30e26e83b2ac5b9e29e1b161e5c1fa7425e73043362938b9824");
}

#[test]
fn upload_request_carries_metadata_and_credentials() {
    let r = build_upload_request(
        &config(),
        vec![1u8, 2, 3],
        &"artist".to_string(),
        &"album".to_string(),
        &"song.mp3".to_string(),
    );
    assert_eq!(r.url, "http://server.example/upload");
    assert_eq!(r.file_name, "song.mp3");
    assert_eq!(r.album, "album");
    assert_eq!(r.artist, "artist");
    assert_eq!(r.user, "alice");
    assert_eq!(r.password, "pw");
}

#[test]
fn upload_outcome_returns_the_name_on_success() {
    let r = upload_outcome(
        &"song.mp3".to_string(),
        TransportEvent::Response(201, Some("created".to_string())),
    );
    assert_eq!(r.unwrap(), "song.mp3");
}

#[test]
fn upload_outcome_carries_status_and_body() {
    let r = upload_outcome(
        &"song.mp3".to_string(),
        TransportEvent::Response(500, Some("boom".to_string())),
    );
    assert_eq!(
        r.unwrap_err(),
        MusicUploaderError::UnhappyResponse(500, "boom".to_string())
    );
}

#[test]
fn upload_outcome_uses_a_placeholder_without_body_text() {
    let r = upload_outcome(&"song.mp3".to_string(), TransportEvent::Response(500, None));
    assert_eq!(
        r.unwrap_err(),
        MusicUploaderError::UnhappyResponse(500, "<no body text>".to_string())
    );
}

#[test]
fn upload_outcome_carries_the_transport_cause() {
    let r = upload_outcome(
        &"song.mp3".to_string(),
        TransportEvent::Failure("broken pipe".to_string()),
    );
    assert_eq!(
        r.unwrap_err(),
        MusicUploaderError::FailedToUpload("broken pipe".to_string())
    );
}

#[test]
fn album_search_decodes_the_envelope_in_order() {
    let r = parse_album_search_response("{\"albums\":[\"A\",\"B\"]}");
    assert_eq!(r.unwrap(), vec!["A".to_string(), "B".to_string()]);
}

#[test]
fn album_search_decodes_the_empty_envelope() {
    let r = parse_album_search_response("{\"albums\":[]}");
    assert_eq!(r.unwrap(), Vec::<String>::new());
}

#[test]
fn album_search_decodes_a_single_name() {
    let r = parse_album_search_response("{\"albums\":[\"folklore\"]}");
    assert_eq!(r.unwrap(), vec!["folklore".to_string()]);
}

#[test]
fn album_search_allows_insignificant_whitespace() {
    let r = parse_album_search_response(" { \"albums\" : [ \"A\" ,\n\t\"B\" ] } ");
    assert_eq!(r.unwrap(), vec!["A".to_string(), "B".to_string()]);
    let r = parse_album_search_response("{\"albums\":[\"A\"]} ");
    assert_eq!(r.unwrap(), vec!["A".to_string()]);
}

#[test]
fn album_search_decodes_string_escapes() {
    let r = parse_album_search_response("{\"albums\":[\"A\\\"B\"]}");
    assert_eq!(r.unwrap(), vec!["A\"B".to_string()]);
    let r = parse_album_search_response("{\"albums\":[\"A\\\\B\"]}");
    assert_eq!(r.unwrap(), vec!["A\\B".to_string()]);
    let r = parse_album_search_response("{\"albums\":[\"A\\tB\\n\\/\\b\\f\\r\"]}");
    assert_eq!(r.unwrap(), vec!["A\tB\n/\u{8}\u{c}\r".to_string()]);
}

#[test]
fn album_search_decodes_unicode_escapes() {
    let r = parse_album_search_response("{\"albums\":[\"\\u0041\\u00e9\"]}");
    assert_eq!(r.unwrap(), vec!["A\u{e9}".to_string()]);
    let r = parse_album_search_response("{\"albums\":[\"\\uD83D\\uDE00\"]}");
    assert_eq!(r.unwrap(), vec!["\u{1F600}".to_string()]);
}

#[test]
fn album_search_refuses_malformed_bodies() {
    assert!(parse_album_search_response("").is_none());
    assert!(parse_album_search_response("not json").is_none());
    assert!(parse_album_search_response("{\"albums\":").is_none());
    assert!(parse_album_search_response("{\"albums\":[\"A\",]}").is_none());
    assert!(parse_album_search_response("{\"album\":[\"A\"]}").is_none());
    assert!(parse_album_search_response("{\"albums\":[\"A\"]").is_none());
    assert!(parse_album_search_response("{\"albums\":[\"A\"]} x").is_none());
}

#[test]
fn album_search_refuses_invalid_escapes_and_raw_controls() {
    // a raw backslash makes an invalid escape
    assert!(parse_album_search_response("{\"albums\":[\"A\\B\"]}").is_none());
    assert!(parse_album_search_response("{\"albums\":[\"A\\x41\"]}").is_none());
    // a lone or unpaired surrogate is not a scalar value
    assert!(parse_album_search_response("{\"albums\":[\"\\uDC00\"]}").is_none());
    assert!(parse_album_search_response("{\"albums\":[\"\\uD83Dxx\"]}").is_none());
    assert!(parse_album_search_response("{\"albums\":[\"\\uD83D\\u0041\"]}").is_none());
    // raw control characters must be escaped inside a string
    assert!(parse_album_search_response("{\"albums\":[\"A\tB\"]}").is_none());
    assert!(parse_album_search_response("{\"albums\":[\"A\nB\"]}").is_none());
}

#[test]
fn album_search_outcome_returns_the_names_on_2xx() {
    let ev = TransportEvent::Response(200, Some("{\"albums\":[\"A\",\"B\"]}".to_string()));
    let r = album_search_outcome(ev);
    assert_eq!(r.unwrap(), vec!["A".to_string(), "B".to_string()]);
}

#[test]
fn album_search_outcome_reports_a_decode_failure() {
    let ev = TransportEvent::Response(200, Some("{oops".to_string()));
    match album_search_outcome(ev).unwrap_err() {
        MusicUploaderError::ResponseDecodeFailure(_) => {},
        other => panic!("unexpected error: {:?}", other),
    }
}

#[test]
fn album_search_outcome_carries_status_and_body() {
    let ev = TransportEvent::Response(404, Some("missing".to_string()));
    assert_eq!(
        album_search_outcome(ev).unwrap_err(),
        MusicUploaderError::UnhappyResponse(404, "missing".to_string())
    );
}

#[test]
fn album_search_outcome_wraps_the_transport_cause() {
    let ev = TransportEvent::Failure("timed out".to_string());
    assert_eq!(
        album_search_outcome(ev).unwrap_err(),
        MusicUploaderError::Failed("timed out".to_string())
    );
}

#[test]
fn batch_scan_failure_aborts_with_a_single_error() {
    let r = batch_scan_result(Err(PathError::PathDoesNotExist));
    assert_eq!(
        r.unwrap_err(),
        MusicUploaderError::FailedToFindSongs(PathError::PathDoesNotExist)
    );
}

#[test]
fn batch_scan_success_hands_the_paths_on_unchanged() {
    let paths = vec!["/m/a.mp3".to_string(), "/m/b.mp3".to_string()];
    let r = batch_scan_result(Ok(paths.clone()));
    assert_eq!(r.unwrap(), paths);
}

#[test]
fn batch_isolates_a_single_transport_failure() {
    let events = vec![
        SongUploadEvent::Sent(
            "a.mp3".to_string(),
            TransportEvent::Response(200, Some("ok".to_string())),
        ),
        SongUploadEvent::Sent(
            "b.mp3".to_string(),
            TransportEvent::Failure("connection reset".to_string()),
        ),
        SongUploadEvent::Sent(
            "c.mp3".to_string(),
            TransportEvent::Response(200, Some("ok".to_string())),
        ),
    ];
    let outcomes = upload_album_outcomes(events);
    assert_eq!(outcomes.len(), 3);
    assert_eq!(outcomes[0], Ok("a.mp3".to_string()));
    assert_eq!(
        outcomes[1],
        Err(MusicUploaderError::FailedToUpload("connection reset".to_string()))
    );
    assert_eq!(outcomes[2], Ok("c.mp3".to_string()));
}

#[test]
fn batch_records_read_and_name_failures_per_item() {
    let events = vec![
        SongUploadEvent::NameUnavailable("/m/gone.mp3".to_string()),
        SongUploadEvent::ReadFailed("/m/locked.mp3".to_string(), "permission denied".to_string()),
        SongUploadEvent::Sent(
            "ok.mp3".to_string(),
            TransportEvent::Response(200, None),
        ),
    ];
    let outcomes = upload_album_outcomes(events);
    assert_eq!(outcomes.len(), 3);
    assert!(matches!(
        outcomes[0],
        Err(MusicUploaderError::FailedToParseSongFileName(_, _))
    ));
    assert!(matches!(outcomes[1], Err(MusicUploaderError::FailedToReadFile(_, _))));
    assert_eq!(outcomes[2], Ok("ok.mp3".to_string()));
}

#[test]
fn song_outcome_matches_the_single_event() {
    let r = song_outcome(SongUploadEvent::Sent(
        "x.mp3".to_string(),
        TransportEvent::Response(200, None),
    ));
    assert_eq!(r, Ok("x.mp3".to_string()));
}
