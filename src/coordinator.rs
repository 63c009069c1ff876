//! The playback coordinator: one state machine that owns the playlist and
//! decides, for every user command, poll tick and dispatch outcome, what the
//! audio sink must do next. The caller performs the returned action and
//! feeds back what happened; all decisions are taken here, in one place.
use vstd::prelude::*;
use vstd::arithmetic::div_mod::lemma_add_mod_noop_right;
use crate::playlist::{Direction, CursorMove, Playlist, PlaylistError, stepped, moved};
use crate::track::Track;

verus! {

/// The four states of the coordinator.
#[derive(Clone, Copy, Debug, PartialEq, Eq, Structural)]
pub enum PlayState {
    /// No playlist has been loaded yet.
    Idle,
    Playing,
    Paused,
    /// A playlist is loaded and nothing is audible.
    Stopped,
}

/// What the caller must do after handing the coordinator an event.
#[derive(Clone, Copy, Debug, PartialEq, Eq, Structural)]
pub enum Action {
    Nothing,
    /// Load and play the playlist entry at `index`, interrupting whatever
    /// plays, then report the outcome with `ticket`.
    Dispatch { index: usize, ticket: u64 },
    /// Pause the sink.
    Pause,
    /// Resume the sink.
    Resume,
    /// The entry at this index is now audible: tell the presentation layer.
    Announce(usize),
    /// The entry at this index could not be loaded: tell the presentation
    /// layer, as a notice that is not fatal.
    ReportFailure(usize),
}

/// An input to the coordinator, other than loading a playlist.
#[derive(Clone, Copy, Debug, PartialEq, Eq, Structural)]
pub enum Event {
    PlayPause,
    Next,
    Prev,
    Select(usize),
    /// A poll of the sink; `busy` is what the sink reported.
    Tick(bool),
    /// The outcome of the dispatch that carried this ticket.
    Dispatched(u64, bool),
}

/// The abstract state of a coordinator.
pub struct CoordinatorView {
    pub state: PlayState,
    pub tracks: Seq<Track>,
    pub pos: nat,
    /// At least one poll has passed since the last dispatch.
    pub settled: bool,
    /// The last dispatch failed and the next poll must move on.
    pub failed: bool,
    /// The ticket of the last dispatch.
    pub ticket: u64,
}

pub open spec fn view_wf(v: CoordinatorView) -> bool {
    &&& (v.tracks.len() == 0 ==> v.pos == 0)
    &&& (v.tracks.len() > 0 ==> v.pos < v.tracks.len())
    &&& (v.tracks.len() == 0 ==> (v.state == PlayState::Idle || v.state == PlayState::Stopped))
}

pub open spec fn next_ticket(t: u64) -> u64 {
    if t == u64::MAX { 0 } else { (t + 1) as u64 }
}

/// The state right after the entry at `pos` has been handed to the sink.
pub open spec fn dispatched(v: CoordinatorView, pos: nat) -> CoordinatorView {
    CoordinatorView {
        state: PlayState::Playing,
        pos,
        settled: false,
        failed: false,
        ticket: next_ticket(v.ticket),
        ..v
    }
}

/// Whether a poll that found the sink `busy` moves on to the next entry:
/// only while playing, and either because the last dispatch failed or
/// because a full poll interval has passed and the sink went idle.
pub open spec fn tick_fires(v: CoordinatorView, busy: bool) -> bool {
    v.state == PlayState::Playing && (v.failed || (v.settled && !busy))
}

/// The state after event `e`.
pub open spec fn next_view(v: CoordinatorView, e: Event) -> CoordinatorView {
    let n = v.tracks.len();
    match e {
        Event::PlayPause => match v.state {
            PlayState::Playing => CoordinatorView { state: PlayState::Paused, ..v },
            PlayState::Paused => CoordinatorView { state: PlayState::Playing, ..v },
            _ => v,
        },
        Event::Next => if n == 0 { v } else { dispatched(v, stepped(Direction::Next, v.pos, n)) },
        Event::Prev => if n == 0 { v } else { dispatched(v, stepped(Direction::Prev, v.pos, n)) },
        Event::Select(i) => if i < n { dispatched(v, i as nat) } else { v },
        Event::Tick(busy) => if tick_fires(v, busy) {
            dispatched(v, stepped(Direction::Next, v.pos, n))
        } else if v.state == PlayState::Playing && !v.settled {
            CoordinatorView { settled: true, ..v }
        } else {
            v
        },
        Event::Dispatched(t, ok) => if t == v.ticket && !ok {
            CoordinatorView { failed: true, ..v }
        } else {
            v
        },
    }
}

/// The action that event `e` asks of the caller.
pub open spec fn action_of(v: CoordinatorView, e: Event) -> Action {
    let n = v.tracks.len();
    let w = next_view(v, e);
    let dispatch = Action::Dispatch { index: w.pos as usize, ticket: w.ticket };
    match e {
        Event::PlayPause => match v.state {
            PlayState::Playing => Action::Pause,
            PlayState::Paused => Action::Resume,
            _ => Action::Nothing,
        },
        Event::Next => if n == 0 { Action::Nothing } else { dispatch },
        Event::Prev => if n == 0 { Action::Nothing } else { dispatch },
        Event::Select(i) => if i < n { dispatch } else { Action::Nothing },
        Event::Tick(busy) => if tick_fires(v, busy) { dispatch } else { Action::Nothing },
        Event::Dispatched(t, ok) => if t != v.ticket {
            Action::Nothing
        } else if ok {
            Action::Announce(v.pos as usize)
        } else {
            Action::ReportFailure(v.pos as usize)
        },
    }
}

/// The state after a playlist of `tracks` is loaded.
pub open spec fn loaded_view(v: CoordinatorView, tracks: Seq<Track>) -> CoordinatorView {
    let w = CoordinatorView { tracks, pos: 0, ..v };
    if tracks.len() == 0 {
        CoordinatorView { state: PlayState::Stopped, settled: false, failed: false, ..w }
    } else {
        dispatched(w, 0)
    }
}

/// The gain, in thousandths, that a requested level in thousandths comes to:
/// clamped into `[0, 1000]`.
pub open spec fn clamped_gain(level: int) -> int {
    if level < 0 { 0 } else if level > 1000 { 1000 } else { level }
}

/// A requested level in thousandths, clamped into `[0, 1000]`.
pub fn clamp_gain(level: i64) -> (r: u16)
    ensures
        r as int == clamped_gain(level as int),
{
    if level < 0 {
        0
    } else if level > 1000 {
        1000
    } else {
        level as u16
    }
}

pub struct Coordinator {
    playlist: Playlist,
    state: PlayState,
    settled: bool,
    failed: bool,
    ticket: u64,
    gain: u16,
}

impl View for Coordinator {
    type V = CoordinatorView;

    closed spec fn view(&self) -> CoordinatorView {
        CoordinatorView {
            state: self.state,
            tracks: self.playlist.entries(),
            pos: self.playlist.pos(),
            settled: self.settled,
            failed: self.failed,
            ticket: self.ticket,
        }
    }
}

impl Coordinator {
    pub closed spec fn wf(&self) -> bool {
        &&& self.playlist.wf()
        &&& view_wf(self@)
        &&& self.gain <= 1000
    }

    /// A well-formed coordinator has a well-formed view.
    pub proof fn lemma_view_wf(&self)
        requires
            self.wf(),
        ensures
            view_wf(self@),
    {
    }

    /// The current gain in thousandths.
    pub closed spec fn gain_spec(&self) -> int {
        self.gain as int
    }

    /// An idle coordinator with an empty playlist at full gain.
    pub fn new() -> (r: Coordinator)
        ensures
            r.wf(),
            r@.state == PlayState::Idle,
            r@.tracks.len() == 0,
            r@.settled == false,
            r@.failed == false,
            r@.ticket == 0,
            r.gain_spec() == 1000,
    {
        Coordinator {
            playlist: Playlist::new(),
            state: PlayState::Idle,
            settled: false,
            failed: false,
            ticket: 0,
            gain: 1000,
        }
    }

    pub fn state(&self) -> (r: PlayState)
        ensures
            r == self@.state,
    {
        self.state
    }

    pub fn playlist(&self) -> (r: &Playlist)
        ensures
            r.entries() == self@.tracks,
            r.pos() == self@.pos,
            self.wf() ==> r.wf(),
    {
        &self.playlist
    }

    /// The gain in thousandths.
    pub fn gain(&self) -> (r: u16)
        ensures
            r as int == self.gain_spec(),
    {
        self.gain
    }

    fn dispatch_at(&mut self, pos: usize) -> (r: Action)
        requires
            old(self).wf(),
            pos < old(self)@.tracks.len(),
        ensures
            final(self).wf(),
            final(self)@ == dispatched(old(self)@, pos as nat),
            final(self).gain_spec() == old(self).gain_spec(),
            r == (Action::Dispatch { index: pos, ticket: final(self)@.ticket }),
    {
        let _ = self.playlist.select(pos);
        self.state = PlayState::Playing;
        self.settled = false;
        self.failed = false;
        self.ticket = if self.ticket == u64::MAX { 0 } else { self.ticket + 1 };
        Action::Dispatch { index: pos, ticket: self.ticket }
    }

    fn step_and_dispatch(&mut self, dir: Direction) -> (r: Action)
        requires
            old(self).wf(),
            old(self)@.tracks.len() > 0,
        ensures
            final(self).wf(),
            final(self)@ == dispatched(old(self)@, stepped(dir, old(self)@.pos, old(self)@.tracks.len())),
            final(self).gain_spec() == old(self).gain_spec(),
            r == (Action::Dispatch { index: final(self)@.pos as usize, ticket: final(self)@.ticket }),
    {
        self.playlist.advance(dir);
        let pos = self.playlist.cursor().unwrap();
        self.dispatch_at(pos)
    }

    /// Replaces the playlist and starts its first entry, or stops when it is
    /// empty.
    pub fn load(&mut self, tracks: Vec<Track>) -> (r: Action)
        requires
            old(self).wf(),
        ensures
            final(self).wf(),
            final(self)@ == loaded_view(old(self)@, tracks@),
            final(self).gain_spec() == old(self).gain_spec(),
            r == (if tracks@.len() == 0 {
                Action::Nothing
            } else {
                Action::Dispatch { index: 0, ticket: final(self)@.ticket }
            }),
    {
        self.playlist.set(tracks);
        if self.playlist.is_empty() {
            self.state = PlayState::Stopped;
            self.settled = false;
            self.failed = false;
            Action::Nothing
        } else {
            self.dispatch_at(0)
        }
    }

    /// The user's play/pause toggle.
    pub fn play_pause(&mut self) -> (r: Action)
        requires
            old(self).wf(),
        ensures
            final(self).wf(),
            final(self)@ == next_view(old(self)@, Event::PlayPause),
            r == action_of(old(self)@, Event::PlayPause),
            final(self).gain_spec() == old(self).gain_spec(),
    {
        match self.state {
            PlayState::Playing => {
                self.state = PlayState::Paused;
                Action::Pause
            },
            PlayState::Paused => {
                self.state = PlayState::Playing;
                Action::Resume
            },
            _ => Action::Nothing,
        }
    }

    /// The user's `next` command.
    pub fn next(&mut self) -> (r: Action)
        requires
            old(self).wf(),
        ensures
            final(self).wf(),
            final(self)@ == next_view(old(self)@, Event::Next),
            r == action_of(old(self)@, Event::Next),
            final(self).gain_spec() == old(self).gain_spec(),
    {
        if self.playlist.is_empty() {
            Action::Nothing
        } else {
            self.step_and_dispatch(Direction::Next)
        }
    }

    /// The user's `prev` command.
    pub fn prev(&mut self) -> (r: Action)
        requires
            old(self).wf(),
        ensures
            final(self).wf(),
            final(self)@ == next_view(old(self)@, Event::Prev),
            r == action_of(old(self)@, Event::Prev),
            final(self).gain_spec() == old(self).gain_spec(),
    {
        if self.playlist.is_empty() {
            Action::Nothing
        } else {
            self.step_and_dispatch(Direction::Prev)
        }
    }

    /// The user's selection of entry `index`; refused, with nothing
    /// changed, when there is no such entry.
    pub fn select(&mut self, index: usize) -> (r: Result<Action, PlaylistError>)
        requires
            old(self).wf(),
        ensures
            final(self).wf(),
            final(self)@ == next_view(old(self)@, Event::Select(index)),
            final(self).gain_spec() == old(self).gain_spec(),
            r is Err <==> index >= old(self)@.tracks.len(),
            r matches Err(e) ==> e == PlaylistError::IndexOutOfRange,
            r matches Ok(a) ==> a == action_of(old(self)@, Event::Select(index)),
    {
        if index >= self.playlist.len() {
            Err(PlaylistError::IndexOutOfRange)
        } else {
            Ok(self.dispatch_at(index))
        }
    }

    /// One poll of the sink, which reported `busy`.
    pub fn tick(&mut self, busy: bool) -> (r: Action)
        requires
            old(self).wf(),
        ensures
            final(self).wf(),
            final(self)@ == next_view(old(self)@, Event::Tick(busy)),
            r == action_of(old(self)@, Event::Tick(busy)),
            final(self).gain_spec() == old(self).gain_spec(),
    {
        if self.state != PlayState::Playing {
            Action::Nothing
        } else if self.failed || (self.settled && !busy) {
            self.step_and_dispatch(Direction::Next)
        } else {
            self.settled = true;
            Action::Nothing
        }
    }

    /// The outcome of the dispatch that carried `ticket`. An outcome of an
    /// earlier dispatch, overtaken by a later one, is ignored.
    pub fn dispatch_result(&mut self, ticket: u64, ok: bool) -> (r: Action)
        requires
            old(self).wf(),
        ensures
            final(self).wf(),
            final(self)@ == next_view(old(self)@, Event::Dispatched(ticket, ok)),
            r == action_of(old(self)@, Event::Dispatched(ticket, ok)),
            final(self).gain_spec() == old(self).gain_spec(),
    {
        if ticket != self.ticket {
            Action::Nothing
        } else if ok {
            Action::Announce(self.playlist.cursor().unwrap_or(0))
        } else {
            self.failed = true;
            Action::ReportFailure(self.playlist.cursor().unwrap_or(0))
        }
    }

    /// Sets the gain from a level in thousandths, clamping it into
    /// `[0, 1000]`; returns the gain now in effect.
    pub fn set_volume(&mut self, level: i64) -> (r: u16)
        requires
            old(self).wf(),
        ensures
            final(self).wf(),
            final(self)@ == old(self)@,
            r as int == clamped_gain(level as int),
            final(self).gain_spec() == r as int,
    {
        let g = clamp_gain(level);
        self.gain = g;
        g
    }
}

/// The state after the events `es`, handled in order.
pub open spec fn run(v: CoordinatorView, es: Seq<Event>) -> CoordinatorView
    decreases es.len(),
{
    if es.len() == 0 {
        v
    } else {
        run(next_view(v, es[0]), es.drop_first())
    }
}

/// How far one event moves the cursor: one step forward for `Next` and for
/// a poll that fires, one back for `Prev`, none otherwise.
pub open spec fn advance_of(v: CoordinatorView, e: Event) -> int {
    match e {
        Event::Next => 1,
        Event::Prev => -1,
        Event::Tick(busy) => if tick_fires(v, busy) { 1 } else { 0 },
        _ => 0,
    }
}

/// The advances of all the events `es`, handled in order.
pub open spec fn advances(v: CoordinatorView, es: Seq<Event>) -> int
    decreases es.len(),
{
    if es.len() == 0 {
        0
    } else {
        advance_of(v, es[0]) + advances(next_view(v, es[0]), es.drop_first())
    }
}

proof fn lemma_step_wf(v: CoordinatorView, e: Event)
    requires
        view_wf(v),
    ensures
        view_wf(next_view(v, e)),
        next_view(v, e).tracks == v.tracks,
{
}

proof fn lemma_step_moves(v: CoordinatorView, e: Event)
    requires
        view_wf(v),
        v.tracks.len() > 0,
        !(e is Select),
    ensures
        next_view(v, e).pos as int == (v.pos as int + advance_of(v, e)) % (v.tracks.len() as int),
{
    let n = v.tracks.len() as int;
    let p = v.pos as int;
    assert(p % n == p) by {
        vstd::arithmetic::div_mod::lemma_small_mod(v.pos, v.tracks.len());
    }
    assert((p + 1) % n == if p + 1 == n { 0 } else { p + 1 }) by {
        if p + 1 == n {
            vstd::arithmetic::div_mod::lemma_mod_self_0(n);
        } else {
            vstd::arithmetic::div_mod::lemma_small_mod((p + 1) as nat, n as nat);
        }
    }
    assert((p - 1) % n == if p == 0 { n - 1 } else { p - 1 }) by {
        if p == 0 {
            vstd::arithmetic::div_mod::lemma_mod_add_multiples_vanish(-1, n);
            vstd::arithmetic::div_mod::lemma_small_mod((n - 1) as nat, n as nat);
        } else {
            vstd::arithmetic::div_mod::lemma_small_mod((p - 1) as nat, n as nat);
        }
    }
}

/// With every command serialised through the coordinator, the cursor ends
/// up exactly as far from where it started, modulo the playlist length, as
/// the number of `Next` calls and of polls that saw a track complete, less
/// the number of `Prev` calls: no advance is doubled and none is lost.
pub proof fn lemma_advances_counted(v: CoordinatorView, es: Seq<Event>)
    requires
        view_wf(v),
        v.tracks.len() > 0,
        forall|i: int| 0 <= i < es.len() ==> !(#[trigger] es[i] is Select),
    ensures
        run(v, es).tracks == v.tracks,
        run(v, es).pos as int == (v.pos as int + advances(v, es)) % (v.tracks.len() as int),
    decreases es.len(),
{
    let n = v.tracks.len() as int;
    if es.len() == 0 {
        vstd::arithmetic::div_mod::lemma_small_mod(v.pos, v.tracks.len());
    } else {
        let w = next_view(v, es[0]);
        assert(!(es[0] is Select));
        lemma_step_wf(v, es[0]);
        lemma_step_moves(v, es[0]);
        let rest = es.drop_first();
        assert forall|i: int| 0 <= i < rest.len() implies !(#[trigger] rest[i] is Select) by {
            assert(rest[i] == es[i + 1]);
        }
        lemma_advances_counted(w, rest);
        lemma_add_mod_noop_right(advances(w, rest), v.pos as int + advance_of(v, es[0]), n);
        assert(advances(v, es) == advance_of(v, es[0]) + advances(w, rest));
    }
}

/// A poll right after a dispatch never advances: the track just handed to
/// the sink gets a full poll interval before its completion can count, so
/// one completion is never taken for two.
pub proof fn lemma_no_advance_right_after_dispatch(v: CoordinatorView, pos: nat, busy: bool)
    ensures
        !tick_fires(dispatched(v, pos), busy),
        next_view(dispatched(v, pos), Event::Tick(busy)).pos == pos,
        action_of(dispatched(v, pos), Event::Tick(busy)) == Action::Nothing,
{
}

/// A failed dispatch is reported once, and the next poll while playing moves
/// on to the following entry and dispatches it, whatever the sink reports.
pub proof fn lemma_failed_dispatch_moves_on(v: CoordinatorView, busy: bool)
    requires
        view_wf(v),
        v.state == PlayState::Playing,
    ensures
        ({
            let e = Event::Dispatched(v.ticket, false);
            let w = next_view(v, e);
            let x = next_view(w, Event::Tick(busy));
            &&& action_of(v, e) == Action::ReportFailure(v.pos as usize)
            &&& x.pos == stepped(Direction::Next, v.pos, v.tracks.len())
            &&& x.state == PlayState::Playing
            &&& !x.failed
            &&& action_of(w, Event::Tick(busy)) == (Action::Dispatch {
                index: x.pos as usize,
                ticket: x.ticket,
            })
        }),
{
}

/// On an empty playlist, `Next`, `Prev` and the play/pause toggle change
/// nothing and ask for nothing.
pub proof fn lemma_empty_playlist_inert(v: CoordinatorView)
    requires
        view_wf(v),
        v.tracks.len() == 0,
    ensures
        next_view(v, Event::Next) == v,
        next_view(v, Event::Prev) == v,
        next_view(v, Event::PlayPause) == v,
        action_of(v, Event::Next) == Action::Nothing,
        action_of(v, Event::Prev) == Action::Nothing,
        action_of(v, Event::PlayPause) == Action::Nothing,
{
}

/// Any requested level ends up as a gain within `[0, 1000]` thousandths;
/// levels above the range give full gain, levels below it give silence.
pub proof fn lemma_gain_clamped(level: int)
    ensures
        0 <= clamped_gain(level) <= 1000,
        level > 1000 ==> clamped_gain(level) == 1000,
        level < 0 ==> clamped_gain(level) == 0,
        0 <= level <= 1000 ==> clamped_gain(level) == level,
{
}

} // verus!
