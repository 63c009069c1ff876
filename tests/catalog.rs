use aurora::catalog::{Catalog, ScannedFile, TagInfo};

fn tags(title: Option<&str>, artist: Option<&str>, album: Option<&str>) -> TagInfo {
    TagInfo {
        title: title.map(|s| s.to_string()),
        artist: artist.map(|s| s.to_string()),
        album: album.map(|s| s.to_string()),
        duration: 200,
        track_number: Some(3),
        year: Some(1999),
        genre: Some("rock".to_string()),
    }
}

fn scan() -> Vec<ScannedFile> {
    vec![
        ScannedFile { path: "/m/a/one.mp3".to_string(), tags: Some(tags(Some("One"), Some("A"), Some("X"))) },
        ScannedFile { path: "/m/a/two.flac".to_string(), tags: Some(tags(None, Some("A"), Some("X"))) },
        ScannedFile { path: "/m/b/broken.ogg".to_string(), tags: None },
        ScannedFile { path: "/m/b/three.wav".to_string(), tags: Some(tags(None, None, None)) },
    ]
}

#[test]
fn rescan_keeps_row_count_and_ids() {
    let mut c = Catalog::new();
    let first = c.ingest(&scan());
    assert_eq!(first, vec![Some(1), Some(2), None, Some(3)]);
    let rows: Vec<(i64, String)> = c.get_all_tracks().into_iter().map(|t| (t.id, t.path)).collect();
    let second = c.ingest(&scan());
    assert_eq!(second, first);
    let again: Vec<(i64, String)> = c.get_all_tracks().into_iter().map(|t| (t.id, t.path)).collect();
    assert_eq!(c.len(), 3);
    assert_eq!(again, rows);
}

#[test]
fn missing_tags_fall_back() {
    let mut c = Catalog::new();
    c.ingest(&scan());
    let all = c.get_all_tracks();
    assert_eq!(all[0].title, "One");
    assert_eq!(all[1].title, "two");
    assert_eq!(all[2].title, "three");
    assert_eq!(all[2].artist, "Unknown Artist");
    assert_eq!(all[2].album, "Unknown Album");
    assert_eq!(all[0].duration, 200);
    assert_eq!(all[0].track_number, Some(3));
    assert_eq!(all[0].year, Some(1999));
    assert_eq!(all[0].genre.as_deref(), Some("rock"));
}

#[test]
fn upsert_replaces_attributes_and_keeps_id() {
    let mut c = Catalog::new();
    let p = "/m/song.mp3".to_string();
    assert_eq!(c.upsert_track(&p, &tags(Some("Old"), Some("A"), Some("X"))), Ok(1));
    assert_eq!(c.upsert_track(&"/m/other.mp3".to_string(), &tags(None, None, None)), Ok(2));
    assert_eq!(c.upsert_track(&p, &tags(Some("New"), Some("B"), Some("Y"))), Ok(1));
    assert_eq!(c.len(), 2);
    let all = c.get_all_tracks();
    assert_eq!(all[0].title, "New");
    assert_eq!(all[0].artist, "B");
    assert_eq!(all[0].album, "Y");
    assert_eq!(c.find_path(&p), Some(0));
    assert_eq!(c.find_path(&"/nowhere.mp3".to_string()), None);
}
