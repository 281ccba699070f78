use crabbox::glob::{glob_regex_source, glob_to_regex, Glob};

fn glob_matches(pattern: &str, path: &str) -> Result<bool, regex::Error> {
    let matcher = Glob::new(pattern)?;
    Ok(matcher.is_match_path(&path.to_string()))
}

#[test]
fn literal_matches_exactly() {
    let glob = Glob::new("song.mp3").unwrap();
    assert!(glob.is_match("song.mp3"));
    assert!(!glob.is_match("song.mp4"));
}

#[test]
fn wildcard_star_expands() {
    let glob = Glob::new("rock-*").unwrap();
    assert!(glob.is_match("rock-anthem"));
    assert!(glob.is_match("rock-"));
    assert!(!glob.is_match("pop-anthem"));
}

#[test]
fn wildcard_question_matches_single_char() {
    let glob = Glob::new("a?c").unwrap();
    assert!(glob.is_match("abc"));
    assert!(!glob.is_match("abbc"));
    assert!(!glob.is_match("ac"));
}

#[test]
fn mixed_wildcards() {
    let glob = Glob::new("*track??.flac").unwrap();
    assert!(glob.is_match("cooltrack01.flac"));
    assert!(!glob.is_match("track1.flac"));
    assert!(!glob.is_match("cooltrack001.flac"));
}

#[test]
fn matches_full_path() {
    let glob = Glob::new("music/*/song?.mp3").unwrap();
    assert!(glob.is_match("music/rock/song1.mp3"));
    assert!(glob.is_match("music//song2.mp3"));
    assert!(!glob.is_match("music/rock/song12.mp3"));
}

#[test]
fn escape_star_and_question() {
    let glob = Glob::new(r"file\*name\?").unwrap();
    assert!(glob.is_match("file*name?"));
    assert!(!glob.is_match("filename"));
    assert!(!glob.is_match("fileXnameY"));
}

#[test]
fn regex_metacharacters_are_escaped() {
    let glob = Glob::new("song.(v1)").unwrap();
    assert!(glob.is_match("song.(v1)"));
    assert!(!glob.is_match("song-av1"));
}

#[test]
fn trailing_backslash_is_literal() {
    let glob = Glob::new(r"path\\").unwrap();
    assert!(glob.is_match("path\\"));
    assert!(!glob.is_match("path/"));
}

#[test]
fn glob_matches_path_helper() {
    let path = "/music/rock/anthem.mp3";
    assert!(glob_matches("*/rock/*.mp3", path).unwrap());
    assert!(!glob_matches("*/jazz/*.mp3", path).unwrap());
}

#[test]
fn empty_pattern_matches_only_empty_string() {
    let glob = Glob::new("").unwrap();
    assert!(glob.is_match(""));
    assert!(!glob.is_match("anything"));
}

#[test]
fn glob_to_regex_builds_anchored_patterns() {
    let regex = glob_to_regex("song*").unwrap();
    assert!(regex.is_match("song"));
    assert!(regex.is_match("song-extended"));
    assert!(!regex.is_match("best song"));
}

#[test]
fn regex_source_of_patterns() {
    assert_eq!(glob_regex_source("a*b?c").as_str(), "^(?s)a.*b.c$");
    assert_eq!(glob_regex_source("song.(v1)").as_str(), r"^(?s)song\.\(v1\)$");
    assert_eq!(glob_regex_source(r"x\*").as_str(), r"^(?s)x\*$");
    assert_eq!(glob_regex_source(r"end\").as_str(), r"^(?s)end\\$");
    assert_eq!(glob_regex_source("").as_str(), "^(?s)$");
}

#[test]
fn brackets_and_braces_are_literal() {
    let glob = Glob::new("[live] {2001} a+b").unwrap();
    assert!(glob.is_match("[live] {2001} a+b"));
    assert!(!glob.is_match("l {2001} aab"));
}

#[test]
fn wildcards_match_line_breaks() {
    let glob = Glob::new("a*b?c").unwrap();
    assert!(glob.is_match("a\nx\nb\nc"));
    assert!(!glob.is_match("a\nb\n\nc"));
}
