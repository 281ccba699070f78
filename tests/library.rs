use crabbox::config::MusicDirectory;
use crabbox::library::{collect_music_files, is_music_extension, is_music_path, Library};

fn library() -> Library {
    Library::new(&vec![MusicDirectory { dir: "/music".to_string() }])
}

#[test]
fn list_tracks_returns_sorted_paths() {
    let path_a = "/tmp/x/a_dir/track.mp3".to_string();
    let path_b = "/tmp/x/b_dir/track.mp3".to_string();
    let library = library();

    let tracks = library.list_tracks(vec![path_b.clone(), path_a.clone()], None);

    let mut expected = vec![path_a, path_b];
    expected.sort();

    assert_eq!(tracks, expected);
}

#[test]
fn only_audio_extensions_are_listed() {
    let found = vec![
        "/m/z.FLAC".to_string(),
        "/m/notes.txt".to_string(),
        "/m/.mp3".to_string(),
        "/m/a.opus".to_string(),
        "/m/dir.mp3/cover".to_string(),
        "/m/b.M4a".to_string(),
    ];
    assert_eq!(
        collect_music_files(found),
        vec!["/m/a.opus".to_string(), "/m/b.M4a".to_string(), "/m/z.FLAC".to_string()]
    );
}

#[test]
fn extension_checks() {
    for ext in ["mp3", "FLAC", "wav", "Ogg", "m4a", "aac", "opus", "ALAC"] {
        assert!(is_music_extension(ext));
    }
    assert!(!is_music_extension("mp4"));
    assert!(!is_music_extension(""));
    assert!(is_music_path(&"a/b.c.mp3".to_string()));
    assert!(!is_music_path(&"a/b.".to_string()));
    assert!(!is_music_path(&"mp3".to_string()));
}

#[test]
fn filter_keeps_whole_path_matches() {
    let found = vec![
        "80s/b.mp3".to_string(),
        "90s/c.mp3".to_string(),
        "80s/a.mp3".to_string(),
        "x/80s/d.mp3".to_string(),
    ];
    let tracks = library().list_tracks(found, Some("80s/*".to_string()));
    assert_eq!(tracks, vec!["80s/a.mp3".to_string(), "80s/b.mp3".to_string()]);
}

#[test]
fn filter_without_matches_gives_nothing() {
    let found = vec!["a.mp3".to_string()];
    assert!(library().list_tracks(found, Some("zzz*".to_string())).is_empty());
}

#[test]
fn sort_is_by_code_point() {
    let found = vec!["b.mp3".to_string(), "B.mp3".to_string(), "a.mp3".to_string(), "ä.mp3".to_string()];
    assert_eq!(
        collect_music_files(found),
        vec!["B.mp3".to_string(), "a.mp3".to_string(), "b.mp3".to_string(), "ä.mp3".to_string()]
    );
}
