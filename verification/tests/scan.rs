use music_uploader_client::{
    get_song_file_paths_in_dir, has_valid_extension, strip_directory_from_file, DirEntry,
    PathError,
};

fn entry(path: &str, is_dir: bool) -> Option<DirEntry> {
    Some(DirEntry { path: path.to_string(), is_dir })
}

fn exts(list: &[&str]) -> Vec<String> {
    list.iter().map(|e| e.to_string()).collect()
}

#[test]
fn scan_keeps_matching_extensions_in_order() {
    let entries = vec![
        entry("/music/a.mp3", false),
        entry("/music/b.txt", false),
        entry("/music/c.flac", false),
    ];
    let r = get_song_file_paths_in_dir(true, true, Ok(entries), &exts(&["mp3", "flac"]));
    assert_eq!(r.unwrap(), vec!["/music/a.mp3".to_string(), "/music/c.flac".to_string()]);
}

#[test]
fn scan_excludes_subdirectories_even_with_matching_extension() {
    let entries = vec![entry("/music/d.mp3", true), entry("/music/a.mp3", false)];
    let r = get_song_file_paths_in_dir(true, true, Ok(entries), &exts(&["mp3"]));
    assert_eq!(r.unwrap(), vec!["/music/a.mp3".to_string()]);
}

#[test]
fn scan_skips_unreadable_entries_without_failing() {
    let entries = vec![entry("/music/a.mp3", false), None, entry("/music/c.mp3", false)];
    let r = get_song_file_paths_in_dir(true, true, Ok(entries), &exts(&["mp3"]));
    assert_eq!(r.unwrap(), vec!["/music/a.mp3".to_string(), "/music/c.mp3".to_string()]);
}

#[test]
fn scan_fails_on_nonexistent_path() {
    let r = get_song_file_paths_in_dir(false, false, Ok(vec![]), &exts(&["mp3"]));
    assert_eq!(r.unwrap_err(), PathError::PathDoesNotExist);
}

#[test]
fn scan_fails_on_regular_file() {
    let r = get_song_file_paths_in_dir(true, false, Ok(vec![]), &exts(&["mp3"]));
    assert_eq!(r.unwrap_err(), PathError::PathIsNotDirectory);
}

#[test]
fn scan_fails_when_enumeration_fails() {
    let r = get_song_file_paths_in_dir(true, true, Err("denied".to_string()), &exts(&["mp3"]));
    assert_eq!(r.unwrap_err(), PathError::ReadDirError("denied".to_string()));
}

#[test]
fn extension_matching_is_exact_and_case_sensitive() {
    let allowed = exts(&["mp3", "flac"]);
    assert!(has_valid_extension(&"/m/a.mp3".to_string(), &allowed));
    assert!(!has_valid_extension(&"/m/a.MP3".to_string(), &allowed));
    assert!(!has_valid_extension(&"/m/a.txt".to_string(), &allowed));
    assert!(!has_valid_extension(&"/m/noext".to_string(), &allowed));
    assert!(!has_valid_extension(&"/m/trailing.".to_string(), &allowed));
}

#[test]
fn extension_comes_from_the_final_component() {
    let allowed = exts(&["mp3"]);
    assert!(!has_valid_extension(&"/archive.mp3/readme".to_string(), &allowed));
    assert!(has_valid_extension(&"/archive.txt/song.mp3".to_string(), &allowed));
}

#[test]
fn strip_directory_returns_the_basename() {
    let r = strip_directory_from_file(&"/music/album/song.mp3".to_string(), true);
    assert_eq!(r.unwrap(), "song.mp3".to_string());
}

#[test]
fn strip_directory_without_separator_returns_the_whole_name() {
    let r = strip_directory_from_file(&"song.mp3".to_string(), true);
    assert_eq!(r.unwrap(), "song.mp3".to_string());
}

#[test]
fn strip_directory_fails_when_the_file_vanished() {
    let r = strip_directory_from_file(&"/music/song.mp3".to_string(), false);
    assert_eq!(r.unwrap_err(), PathError::PathIsNotFile);
}

#[test]
fn strip_directory_fails_without_final_component() {
    let r = strip_directory_from_file(&"/music/album/".to_string(), true);
    assert_eq!(r.unwrap_err(), PathError::PathIsNotFile);
}
