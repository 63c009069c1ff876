use aurora::color::{parse_color, parse_hex, rgb_to_hex};
use aurora::paths::{file_stem, is_audio_file, strip_file_uri};

#[test]
fn parse_hex_reads_channels() {
    assert_eq!(parse_hex("#1a2B3c", 1), 0x1a);
    assert_eq!(parse_hex("#1a2B3c", 3), 0x2b);
    assert_eq!(parse_hex("#1a2B3c", 5), 0x3c);
    assert_eq!(parse_hex("#zz0000", 1), 0);
    assert_eq!(parse_hex("+f", 0), 15);
    assert_eq!(parse_hex("ff", 0), 255);
}

#[test]
fn parse_color_accepts_six_digits() {
    assert_eq!(parse_color("#ff8000"), Some((255, 128, 0)));
    assert_eq!(parse_color("ff8000"), Some((255, 128, 0)));
    assert_eq!(parse_color("##0a0B0c"), Some((10, 11, 12)));
    assert_eq!(parse_color("#ff800"), None);
    assert_eq!(parse_color("#ff80001"), None);
    assert_eq!(parse_color("#gg8000"), None);
    assert_eq!(parse_color("€123"), None);
}

#[test]
fn rgb_to_hex_writes_lower_case() {
    assert_eq!(rgb_to_hex(255, 128, 0), "#ff8000");
    assert_eq!(rgb_to_hex(0, 10, 171), "#000aab");
}

#[test]
fn audio_extensions_are_recognised() {
    assert!(is_audio_file("/music/a/song.mp3"));
    assert!(is_audio_file("x.flac"));
    assert!(is_audio_file("dir.v2/x.wav"));
    assert!(is_audio_file("x.m4a"));
    assert!(is_audio_file("x.ogg"));
    assert!(!is_audio_file("x.MP3"));
    assert!(!is_audio_file("cover.jpg"));
    assert!(!is_audio_file("/music/.mp3"));
    assert!(!is_audio_file("/music/mp3"));
    assert!(!is_audio_file("song.mp3/"));
}

#[test]
fn file_stem_drops_extension() {
    assert_eq!(file_stem("/m/a/two.flac"), "two");
    assert_eq!(file_stem("archive.tar.gz"), "archive.tar");
    assert_eq!(file_stem("/m/.hidden"), ".hidden");
    assert_eq!(file_stem("plain"), "plain");
}

#[test]
fn file_uri_prefix_is_stripped_once() {
    assert_eq!(strip_file_uri("file:///music/a.mp3"), "/music/a.mp3");
    assert_eq!(strip_file_uri("/music/a.mp3"), "/music/a.mp3");
    assert_eq!(strip_file_uri("file://file://x"), "file://x");
    assert_eq!(strip_file_uri("file:/"), "file:/");
}
