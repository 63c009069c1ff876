use aurora::coordinator::{clamp_gain, Action, Coordinator, PlayState};
use aurora::playlist::PlaylistError;
use aurora::track::Track;

fn track(id: i64, path: &str) -> Track {
    Track {
        id,
        path: path.to_string(),
        title: path.to_string(),
        artist: "artist".to_string(),
        album: "album".to_string(),
        duration: 1,
        track_number: None,
        year: None,
        genre: None,
    }
}

fn tracks(n: i64) -> Vec<Track> {
    (0..n).map(|i| track(i + 1, &format!("t{}.mp3", i))).collect()
}

/// Plays the returned action against a sink that always loads, and reports
/// the outcome back; returns the action that came of the report.
fn confirm(c: &mut Coordinator, a: Action) -> Action {
    match a {
        Action::Dispatch { ticket, .. } => c.dispatch_result(ticket, true),
        other => other,
    }
}

fn cursor(c: &Coordinator) -> usize {
    c.playlist().cursor().unwrap()
}

#[test]
fn load_dispatches_first_entry() {
    let mut c = Coordinator::new();
    assert_eq!(c.state(), PlayState::Idle);
    let a = c.load(tracks(3));
    assert!(matches!(a, Action::Dispatch { index: 0, .. }));
    assert_eq!(confirm(&mut c, a), Action::Announce(0));
    assert_eq!(c.state(), PlayState::Playing);
}

#[test]
fn loading_empty_playlist_stops() {
    let mut c = Coordinator::new();
    assert_eq!(c.load(Vec::new()), Action::Nothing);
    assert_eq!(c.state(), PlayState::Stopped);
}

#[test]
fn completions_and_user_moves_are_each_counted_once() {
    let mut c = Coordinator::new();
    let a = c.load(tracks(4));
    confirm(&mut c, a);
    let mut expected: usize = 0;
    // Track plays for a while, then completes.
    assert_eq!(c.tick(true), Action::Nothing);
    assert_eq!(c.tick(true), Action::Nothing);
    let a = c.tick(false);
    assert!(matches!(a, Action::Dispatch { index: 1, .. }));
    confirm(&mut c, a);
    expected += 1;
    assert_eq!(cursor(&c), expected);
    // The poll right after a dispatch never advances, even if idle.
    assert_eq!(c.tick(false), Action::Nothing);
    // A user Next races with the next completion: both count once.
    let a = c.next();
    confirm(&mut c, a);
    expected += 1;
    assert_eq!(cursor(&c), expected);
    assert_eq!(c.tick(true), Action::Nothing);
    let a = c.tick(false);
    confirm(&mut c, a);
    expected += 1;
    assert_eq!(cursor(&c), expected);
    // Prev then a completion: back one, forward one.
    let a = c.prev();
    confirm(&mut c, a);
    assert_eq!(cursor(&c), 2);
    assert_eq!(c.tick(true), Action::Nothing);
    let a = c.tick(false);
    confirm(&mut c, a);
    assert_eq!(cursor(&c), 3);
    // Another completion wraps to the start: 4 completions + 1 next - 1 prev.
    c.tick(true);
    let a = c.tick(false);
    confirm(&mut c, a);
    assert_eq!(cursor(&c), (4 + 1 - 1) % 4);
}

#[test]
fn failed_dispatch_advances_on_next_tick() {
    let mut c = Coordinator::new();
    let a = c.load(vec![track(1, "bad.mp3"), track(2, "good.mp3")]);
    let mut failures = 0;
    let t0 = match a {
        Action::Dispatch { index, ticket } => {
            assert_eq!(index, 0);
            ticket
        }
        other => panic!("unexpected {:?}", other),
    };
    if let Action::ReportFailure(i) = c.dispatch_result(t0, false) {
        assert_eq!(i, 0);
        failures += 1;
    }
    let a = c.tick(false);
    let t1 = match a {
        Action::Dispatch { index, ticket } => {
            assert_eq!(index, 1);
            ticket
        }
        other => panic!("unexpected {:?}", other),
    };
    assert_eq!(c.dispatch_result(t1, true), Action::Announce(1));
    assert_eq!(cursor(&c), 1);
    assert_eq!(c.playlist().current().unwrap().path, "good.mp3");
    assert_eq!(c.state(), PlayState::Playing);
    assert_eq!(failures, 1);
    // The next poll gives the good track its grace interval.
    assert_eq!(c.tick(true), Action::Nothing);
}

#[test]
fn stale_dispatch_result_is_ignored() {
    let mut c = Coordinator::new();
    let a = c.load(tracks(3));
    let old_ticket = match a {
        Action::Dispatch { ticket, .. } => ticket,
        other => panic!("unexpected {:?}", other),
    };
    let a = c.next();
    assert_eq!(c.dispatch_result(old_ticket, false), Action::Nothing);
    assert_eq!(confirm(&mut c, a), Action::Announce(1));
    c.tick(true);
    assert_eq!(c.tick(true), Action::Nothing);
}

#[test]
fn play_pause_toggles_and_paused_never_advances() {
    let mut c = Coordinator::new();
    let a = c.load(tracks(2));
    confirm(&mut c, a);
    assert_eq!(c.play_pause(), Action::Pause);
    assert_eq!(c.state(), PlayState::Paused);
    assert_eq!(c.tick(false), Action::Nothing);
    assert_eq!(c.tick(false), Action::Nothing);
    assert_eq!(cursor(&c), 0);
    assert_eq!(c.play_pause(), Action::Resume);
    assert_eq!(c.state(), PlayState::Playing);
}

#[test]
fn select_dispatches_or_refuses() {
    let mut c = Coordinator::new();
    let a = c.load(tracks(3));
    confirm(&mut c, a);
    assert_eq!(c.select(3), Err(PlaylistError::IndexOutOfRange));
    assert_eq!(cursor(&c), 0);
    let a = c.select(2).unwrap();
    assert!(matches!(a, Action::Dispatch { index: 2, .. }));
    assert_eq!(confirm(&mut c, a), Action::Announce(2));
}

#[test]
fn volume_is_clamped() {
    let mut c = Coordinator::new();
    assert_eq!(c.gain(), 1000);
    assert_eq!(c.set_volume(1500), 1000);
    assert_eq!(c.gain(), 1000);
    assert_eq!(c.set_volume(-300), 0);
    assert_eq!(c.gain(), 0);
    assert_eq!(c.set_volume(250), 250);
    assert_eq!(c.set_volume(1000), 1000);
    assert_eq!(c.set_volume(0), 0);
}

#[test]
fn empty_playlist_commands_are_no_ops() {
    let mut c = Coordinator::new();
    assert_eq!(c.next(), Action::Nothing);
    assert_eq!(c.prev(), Action::Nothing);
    assert_eq!(c.play_pause(), Action::Nothing);
    assert_eq!(c.tick(false), Action::Nothing);
    assert_eq!(c.state(), PlayState::Idle);
    c.load(Vec::new());
    assert_eq!(c.next(), Action::Nothing);
    assert_eq!(c.prev(), Action::Nothing);
    assert_eq!(c.play_pause(), Action::Nothing);
    assert_eq!(c.state(), PlayState::Stopped);
    assert!(c.playlist().cursor().is_none());
}

#[test]
fn clamp_gain_bounds_levels() {
    assert_eq!(clamp_gain(1500), 1000);
    assert_eq!(clamp_gain(-300), 0);
    assert_eq!(clamp_gain(700), 700);
    assert_eq!(clamp_gain(i64::MIN), 0);
    assert_eq!(clamp_gain(i64::MAX), 1000);
}
