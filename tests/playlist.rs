use aurora::playlist::{CursorMove, Direction, Playlist, PlaylistError};
use aurora::track::Track;

fn track(id: i64, path: &str) -> Track {
    Track {
        id,
        path: path.to_string(),
        title: format!("title {}", id),
        artist: "artist".to_string(),
        album: "album".to_string(),
        duration: 60,
        track_number: None,
        year: None,
        genre: None,
    }
}

fn three() -> Playlist {
    Playlist::from_tracks(vec![track(1, "a.mp3"), track(2, "b.mp3"), track(3, "c.mp3")])
}

#[test]
fn next_wraps_from_last_to_first() {
    let mut p = three();
    p.select(2).unwrap();
    p.advance(Direction::Next);
    assert_eq!(p.cursor(), Some(0));
    assert_eq!(p.current().unwrap().id, 1);
}

#[test]
fn prev_wraps_from_first_to_last() {
    let mut p = three();
    assert_eq!(p.cursor(), Some(0));
    p.advance(Direction::Prev);
    assert_eq!(p.cursor(), Some(2));
    assert_eq!(p.current().unwrap().path, "c.mp3");
}

#[test]
fn select_out_of_range_is_refused_without_change() {
    let mut p = three();
    p.select(1).unwrap();
    assert_eq!(p.select(3), Err(PlaylistError::IndexOutOfRange));
    assert_eq!(p.cursor(), Some(1));
    assert_eq!(p.select(1000), Err(PlaylistError::IndexOutOfRange));
    assert_eq!(p.cursor(), Some(1));
}

#[test]
fn cursor_stays_in_range_over_many_moves() {
    let mut p = three();
    let moves = [
        CursorMove::Advance(Direction::Next),
        CursorMove::Select(2),
        CursorMove::Advance(Direction::Next),
        CursorMove::Advance(Direction::Prev),
        CursorMove::Advance(Direction::Prev),
        CursorMove::Select(7),
        CursorMove::Advance(Direction::Prev),
        CursorMove::Advance(Direction::Prev),
    ];
    let expected = [1usize, 2, 0, 2, 1, 1, 0, 2];
    for (m, want) in moves.iter().zip(expected.iter()) {
        let _ = p.apply(*m);
        let c = p.cursor().unwrap();
        assert!(c < p.len());
        assert_eq!(c, *want);
    }
}

#[test]
fn empty_playlist_moves_do_nothing() {
    let mut p = Playlist::new();
    p.advance(Direction::Next);
    p.advance(Direction::Prev);
    assert_eq!(p.cursor(), None);
    assert!(p.current().is_none());
    assert_eq!(p.select(0), Err(PlaylistError::IndexOutOfRange));
    assert!(p.is_empty());
}

#[test]
fn set_replaces_tracks_and_resets_cursor() {
    let mut p = three();
    p.select(2).unwrap();
    p.set(vec![track(9, "z.mp3"), track(8, "y.mp3")]);
    assert_eq!(p.len(), 2);
    assert_eq!(p.cursor(), Some(0));
    assert_eq!(p.get(1).unwrap().id, 8);
    assert!(p.get(2).is_none());
    p.set(Vec::new());
    assert_eq!(p.cursor(), None);
}
