//! Playing a timeline of several tracks, tick by tick.
//!
//! A timeline is a set of tracks. A track is a list of events, each with the
//! number of ticks that pass between the event before it and itself. How long
//! a tick lasts follows from the timing of the timeline and, for metrical
//! timing, from the tempo, which an event may change. Tones are switched on
//! and off by their key, a number from 0 to 127, and the tones that sound
//! together are drawn as one chord.

use vstd::prelude::*;
use vstd::arithmetic::div_mod::*;
use crate::gui::{
    black,
    chord_frame,
    lemma_react_all_keeps_the_display,
    react_all,
    Console,
    Event,
    Gui,
    Screen,
};
use crate::midi_pitch::MIDI_FREQUENCIES;
use crate::rounding::{floor_div, remainder};
use crate::schedule::{Input, Outcome, SLEEP_INTERVAL};

verus! {

/// Microseconds that a quarter note lasts until an event says otherwise:
/// 120 quarter notes a minute.
pub const DEFAULT_MICROSEC_PER_QUARTER: u32 = 500_000;

/// How the tracks of a timeline belong together.
#[derive(Debug, Clone, Copy, PartialEq, Eq, Structural)]
pub enum Format {
    /// One track.
    SingleTrack,
    /// Several tracks that sound together.
    Parallel,
    /// Several tracks, each a piece of its own, one after another.
    Sequential,
}

/// Frames per second of a timecode.
#[derive(Debug, Clone, Copy, PartialEq, Eq, Structural)]
pub enum Fps {
    Fps24,
    Fps25,
    /// 30 / 1.001 frames per second.
    Fps29,
    Fps30,
}

/// What a tick is measured in.
#[derive(Debug, Clone, Copy, PartialEq, Eq, Structural)]
pub enum Timing {
    /// Ticks in a quarter note.
    Metrical(u16),
    /// Frames in a second, and ticks in a frame.
    Timecode(Fps, u8),
}

/// What an event of a track does.
#[derive(Debug, Clone, Copy, PartialEq, Eq, Structural)]
pub enum TrackEventKind {
    /// A tone begins; with velocity 0 it ends.
    NoteOn { key: u8, vel: u8 },
    /// A tone ends.
    NoteOff { key: u8 },
    /// From here on a quarter note lasts this many microseconds.
    Tempo(u32),
    /// Anything else; it is passed over.
    Other,
}

/// An event of a track, and the ticks between the event before it and itself.
#[derive(Debug, Clone, Copy, PartialEq, Eq, Structural)]
pub struct TrackEvent {
    pub delta: u32,
    pub kind: TrackEventKind,
}

/// A timeline.
#[derive(Debug)]
pub struct Smf {
    pub format: Format,
    pub timing: Timing,
    pub tracks: Vec<Vec<TrackEvent>>,
}

/// Why a timeline cannot be played.
#[derive(Debug, Clone, Copy, PartialEq, Eq, Structural)]
pub enum PlayerErrorKind {
    /// A tick would last less than a nanosecond, or its length is undefined.
    InvalidTiming,
    /// A tone is to begin whose key has no frequency.
    UnsupportedToneId,
}

/// A refusal, with the track and the event in it that caused it. A timing
/// that is refused before any event is read names track 0, event 0.
#[derive(Debug, Clone, Copy, PartialEq, Eq, Structural)]
pub struct PlayerError {
    pub kind: PlayerErrorKind,
    pub track: usize,
    pub event: usize,
}

/// Nanoseconds that a tick lasts, rounded down; `None` where that is less
/// than one nanosecond or the timing divides by zero.
pub open spec fn tick_nanos(timing: Timing, microsec_per_quarter: u32) -> Option<int> {
    let (nanos, ticks): (int, int) = match timing {
        Timing::Metrical(ticks_per_quarter) => (
            microsec_per_quarter as int * 1000,
            ticks_per_quarter as int,
        ),
        Timing::Timecode(Fps::Fps24, subframes) => (1_000_000_000, 24 * subframes as int),
        Timing::Timecode(Fps::Fps25, subframes) => (1_000_000_000, 25 * subframes as int),
        Timing::Timecode(Fps::Fps29, subframes) => (1_001_000_000, 30 * subframes as int),
        Timing::Timecode(Fps::Fps30, subframes) => (1_000_000_000, 30 * subframes as int),
    };
    if ticks > 0 && floor_div(nanos, ticks) > 0 {
        Some(floor_div(nanos, ticks))
    } else {
        None
    }
}

/// Nanoseconds that a tick lasts at a timing and a tempo.
pub fn get_tick_duration(timing: Timing, microsec_per_quarter: u32) -> (r: Result<
    u64,
    PlayerErrorKind,
>)
    ensures
        match tick_nanos(timing, microsec_per_quarter) {
            Some(nanos) => r == Ok::<u64, PlayerErrorKind>(nanos as u64) && nanos > 0,
            None => r == Err::<u64, PlayerErrorKind>(PlayerErrorKind::InvalidTiming),
        },
{
    let (nanos, ticks): (u64, u64) = match timing {
        Timing::Metrical(ticks_per_quarter) => (
            microsec_per_quarter as u64 * 1000,
            ticks_per_quarter as u64,
        ),
        Timing::Timecode(Fps::Fps24, subframes) => (1_000_000_000, 24 * subframes as u64),
        Timing::Timecode(Fps::Fps25, subframes) => (1_000_000_000, 25 * subframes as u64),
        Timing::Timecode(Fps::Fps29, subframes) => (1_001_000_000, 30 * subframes as u64),
        Timing::Timecode(Fps::Fps30, subframes) => (1_000_000_000, 30 * subframes as u64),
    };
    if ticks == 0 || nanos / ticks == 0 {
        Err(PlayerErrorKind::InvalidTiming)
    } else {
        Ok(nanos / ticks)
    }
}

/// The frequencies of the sounding tones with a key below `below`, from the
/// lowest key up.
pub open spec fn chord_below(tones: Map<u8, u8>, below: int) -> Seq<u64>
    decreases below,
{
    if below <= 0 {
        Seq::empty()
    } else if below <= 128 && tones.contains_key((below - 1) as u8) {
        chord_below(tones, below - 1).push(MIDI_FREQUENCIES[below - 1])
    } else {
        chord_below(tones, below - 1)
    }
}

/// The frequencies of the sounding tones, from the lowest key up.
pub open spec fn chord_of(tones: Map<u8, u8>) -> Seq<u64> {
    chord_below(tones, 128)
}

/// The tones that sound, each with the velocity it was struck with.
pub struct ToneSet {
    velocity: [u8; 128],
}

impl View for ToneSet {
    type V = Map<u8, u8>;

    closed spec fn view(&self) -> Map<u8, u8> {
        Map::new(
            |key: u8| key < 128 && self.velocity@[key as int] > 0,
            |key: u8| self.velocity@[key as int],
        )
    }
}

impl ToneSet {
    /// Silence.
    pub fn new() -> (tones: ToneSet)
        ensures
            tones@ == Map::<u8, u8>::empty(),
    {
        let tones = ToneSet { velocity: [0u8; 128] };
        tones
    }

    /// Whether the tone of a key sounds.
    pub fn contains_key(&self, key: u8) -> (sounds: bool)
        ensures
            sounds == self@.contains_key(key),
    {
        key < 128 && self.velocity[key as usize] > 0
    }

    /// Lets the tone of a key sound.
    pub fn insert(&mut self, key: u8, vel: u8)
        requires
            key <= 127,
            vel > 0,
        ensures
            final(self)@ == old(self)@.insert(key, vel),
    {
        self.velocity[key as usize] = vel;
    }

    /// Ends the tone of a key; says whether it sounded.
    pub fn remove(&mut self, key: u8) -> (sounded: bool)
        ensures
            final(self)@ == old(self)@.remove(key),
            sounded == old(self)@.contains_key(key),
    {
        if key < 128 && self.velocity[key as usize] > 0 {
            self.velocity[key as usize] = 0;
            true
        } else {
            false
        }
    }

    /// The frequencies of the sounding tones, from the lowest key up.
    pub fn frequencies(&self) -> (freqs: Vec<u64>)
        ensures
            freqs@ == chord_of(self@),
    {
        let mut freqs: Vec<u64> = Vec::new();
        let mut key: u8 = 0;
        while key < 128
            invariant
                key <= 128,
                freqs@ == chord_below(self@, key as int),
            decreases 128 - key,
        {
            if self.velocity[key as usize] > 0 {
                freqs.push(MIDI_FREQUENCIES[key as usize]);
            }
            key += 1;
        }
        freqs
    }
}

/// A track and how far it has been played.
pub struct Cursor {
    pub events: Seq<TrackEvent>,
    /// Which event comes next.
    pub next: int,
    /// Ticks that are left until it is due.
    pub wait: int,
}

impl Cursor {
    /// The event that comes next; `None` at the end of the track.
    pub open spec fn pending(self) -> Option<TrackEvent> {
        if 0 <= self.next < self.events.len() {
            Some(self.events[self.next])
        } else {
            None
        }
    }

    /// Ticks from one event to the event at `at`; 0 past the end of the track.
    pub open spec fn delta_at(self, at: int) -> int {
        if 0 <= at < self.events.len() {
            self.events[at].delta as int
        } else {
            0
        }
    }

    /// A track before its first event.
    pub open spec fn primed(events: Seq<TrackEvent>) -> Cursor {
        let fresh = Cursor { events, next: 0, wait: 0 };
        Cursor { wait: fresh.delta_at(0), ..fresh }
    }

    /// The track after its pending event was played.
    pub open spec fn advanced(self) -> Cursor {
        Cursor { next: self.next + 1, wait: self.delta_at(self.next + 1), ..self }
    }

    /// The track after ticks went by that did not reach its pending event.
    pub open spec fn waited(self, ticks: int) -> Cursor {
        Cursor { wait: self.wait - ticks, ..self }
    }
}

/// The tracks of a timeline, each as the list of its events.
pub open spec fn timeline(smf: Smf) -> Seq<Seq<TrackEvent>> {
    Seq::new(smf.tracks@.len(), |i: int| smf.tracks@[i]@)
}

/// The state of a player.
pub struct Playback {
    /// Whether it runs, whether it is paused, and what it shows.
    pub console: Console,
    pub wave_is_cosine: bool,
    pub timing: Timing,
    /// The tracks are pieces of their own, played one after another.
    pub sequential: bool,
    pub tracks: Seq<Cursor>,
    /// The tracks `first..last` are being played together.
    pub first: int,
    pub last: int,
    /// Nanoseconds that a tick lasts now.
    pub tick: int,
    /// Nanoseconds that a tick lasts at the start of each piece.
    pub default_tick: int,
    /// The tones that sound, each with its velocity.
    pub tones: Map<u8, u8>,
    /// Nanoseconds to sleep after the next step.
    pub sleep: int,
    /// Ticks that went by during the last turn.
    pub ticks_elapsed: int,
    /// The last step found the program paused.
    pub previously_paused: bool,
}

impl Playback {
    /// The player with another display.
    pub open spec fn showing(self, display: Screen) -> Playback {
        Playback { console: Console { display, ..self.console }, ..self }
    }

    /// The player after it has drawn the sounding tones as a chord.
    pub open spec fn render(self) -> Playback {
        let display = self.console.display;
        self.showing(display.show(chord_frame(chord_of(self.tones), display.rate, display.height)))
    }

    /// The player after the tone of a key has ended. A tone that does not
    /// sound is passed over.
    pub open spec fn silence(self, key: u8) -> Playback {
        if self.tones.contains_key(key) {
            (Playback { tones: self.tones.remove(key), ..self }).render()
        } else {
            self
        }
    }

    /// The player after an event of a track.
    pub open spec fn apply(self, kind: TrackEventKind) -> Result<Playback, PlayerErrorKind> {
        match kind {
            TrackEventKind::NoteOn { key, vel } => if vel == 0 {
                Ok(self.silence(key))
            } else if key > 127 {
                Err(PlayerErrorKind::UnsupportedToneId)
            } else if self.tones.contains_key(key) {
                Ok(self)
            } else {
                Ok((Playback { tones: self.tones.insert(key, vel), ..self }).render())
            },
            TrackEventKind::NoteOff { key } => Ok(self.silence(key)),
            TrackEventKind::Tempo(microsec_per_quarter) => match tick_nanos(
                self.timing,
                microsec_per_quarter,
            ) {
                Some(nanos) => Ok(Playback { tick: nanos, ..self }),
                None => Err(PlayerErrorKind::InvalidTiming),
            },
            TrackEventKind::Other => Ok(self),
        }
    }

    /// The player with another state of track `i`.
    pub open spec fn with_track(self, i: int, cursor: Cursor) -> Playback {
        Playback { tracks: self.tracks.update(i, cursor), ..self }
    }

    /// The player after it was stopped.
    pub open spec fn stopped(self) -> Playback {
        Playback { console: Console { running: false, ..self.console }, ..self }
    }

    /// The turn of track `i`: its pending event is played where no more
    /// ticks are left until it is due than went by, and the track moves on to
    /// its next event; otherwise the ticks that went by are taken off. An
    /// event that cannot be played stops the player.
    pub open spec fn play_track(self, i: int) -> (Playback, Option<PlayerError>) {
        if !(0 <= i < self.tracks.len()) {
            (self, None)
        } else {
            let cursor = self.tracks[i];
            match cursor.pending() {
                None => (self, None),
                Some(event) => if cursor.wait <= self.ticks_elapsed {
                    match self.apply(event.kind) {
                        Err(kind) => (
                            self.stopped(),
                            Some(
                                PlayerError {
                                    kind,
                                    track: i as usize,
                                    event: cursor.next as usize,
                                },
                            ),
                        ),
                        Ok(played) => (played.with_track(i, cursor.advanced()), None),
                    }
                } else {
                    (self.with_track(i, cursor.waited(self.ticks_elapsed)), None)
                },
            }
        }
    }

    /// The turns of the tracks from `i` up to `last`, in order, as far as
    /// none of them fails.
    pub open spec fn play_tracks(self, i: int, last: int) -> (Playback, Option<PlayerError>)
        decreases last - i,
    {
        if i < 0 || i >= last || i >= self.tracks.len() {
            (self, None)
        } else {
            let (played, error) = self.play_track(i);
            if error is Some {
                (played, error)
            } else {
                played.play_tracks(i + 1, last)
            }
        }
    }

    /// No track that is being played has an event left.
    pub open spec fn group_ended(self) -> bool {
        forall|i: int|
            self.first <= i < self.last && 0 <= i < self.tracks.len() ==> (
            #[trigger] self.tracks[i]).pending() is None
    }

    /// Another track follows the ones that are being played.
    pub open spec fn has_next_group(self) -> bool {
        self.sequential && 0 <= self.last < self.tracks.len()
    }

    /// The player at the start of the track that follows: the tempo is the
    /// default again and no tone sounds. The picture stays as it is.
    pub open spec fn next_group(self) -> Playback {
        Playback {
            first: self.last,
            last: self.last + 1,
            tick: self.default_tick,
            tones: Map::empty(),
            sleep: self.default_tick,
            ticks_elapsed: 0,
            previously_paused: false,
            ..self
        }
    }

    /// The part of a step that plays: where the tracks that are being played
    /// have ended, the piece ends, or goes on at once with the track that
    /// follows; otherwise every track has its turn.
    pub open spec fn play_groups(self) -> (Playback, Result<Outcome, PlayerError>)
        decreases self.tracks.len() - self.last,
    {
        if self.group_ended() {
            if self.has_next_group() {
                self.next_group().play_groups()
            } else {
                (self, Ok(Outcome::Finished))
            }
        } else {
            let (played, error) = self.play_tracks(self.first, self.last);
            match error {
                Some(e) => (played, Err(e)),
                None => (played, Ok(Outcome::Playing { sleep: played.sleep as u64 })),
            }
        }
    }

    /// The player after it has taken in a batch of events.
    pub open spec fn hear(self, events: Seq<Event>) -> Playback {
        Playback { console: react_all(self.console, events), ..self }
    }

    /// The player after one step, and what the step leaves to do.
    pub open spec fn step(self, events: Seq<Event>) -> (Playback, Result<Outcome, PlayerError>) {
        let heard = self.hear(events);
        if !heard.console.running {
            (heard, Ok(Outcome::Finished))
        } else if heard.console.paused {
            (
                Playback { previously_paused: true, ..heard },
                Ok(Outcome::Paused { sleep: SLEEP_INTERVAL }),
            )
        } else if heard.previously_paused {
            (Playback { previously_paused: false, ..heard.render() }).play_groups()
        } else {
            heard.play_groups()
        }
    }

    /// The player after it was told how long a turn took: the ticks that
    /// went by are the time divided by the length of a tick, rounded down,
    /// but at least one; the next sleep is what is left of the tick that has
    /// begun.
    pub open spec fn credit(self, elapsed: u64) -> Playback {
        if self.tick <= 0 {
            self
        } else {
            Playback {
                ticks_elapsed: if floor_div(elapsed as int, self.tick) == 0 {
                    1
                } else {
                    floor_div(elapsed as int, self.tick)
                },
                sleep: self.tick - remainder(elapsed as int, self.tick),
                ..self
            }
        }
    }

    /// The player after it was asked to play a timeline. Nothing happens
    /// where it runs already, or where the timing gives no length of a tick.
    /// Otherwise it runs, takes in a first batch of events, and stands before
    /// the first event of every track: of all tracks together, or of the
    /// first alone where they are pieces of their own.
    pub open spec fn begin(
        self,
        format: Format,
        timing: Timing,
        tracks: Seq<Seq<TrackEvent>>,
        events: Seq<Event>,
    ) -> (Playback, Option<PlayerError>) {
        if self.console.running {
            (self, None)
        } else {
            match tick_nanos(timing, DEFAULT_MICROSEC_PER_QUARTER) {
                None => (
                    self,
                    Some(PlayerError { kind: PlayerErrorKind::InvalidTiming, track: 0, event: 0 }),
                ),
                Some(nanos) => (
                    Playback {
                        console: react_all(Console { running: true, ..self.console }, events),
                        timing,
                        sequential: format == Format::Sequential,
                        tracks: Seq::new(tracks.len(), |i: int| Cursor::primed(tracks[i])),
                        first: 0,
                        last: if format == Format::Sequential && tracks.len() > 1 {
                            1
                        } else {
                            tracks.len() as int
                        },
                        tick: nanos,
                        default_tick: nanos,
                        tones: Map::empty(),
                        sleep: nanos,
                        ticks_elapsed: 0,
                        previously_paused: false,
                        ..self
                    },
                    None,
                ),
            }
        }
    }

    /// The player after the turns of a recorded session from turn `from` on,
    /// up to the turn that ends the piece.
    pub open spec fn replay(self, session: Seq<Input>, from: int) -> (Playback, Option<PlayerError>)
        decreases session.len() - from,
    {
        if from < 0 || from >= session.len() {
            (self, None)
        } else {
            let (stepped, outcome) = self.step(session[from].events@);
            match outcome {
                Err(e) => (stepped, Some(e)),
                Ok(Outcome::Finished) => (stepped, None),
                Ok(Outcome::Paused { .. }) => stepped.replay(session, from + 1),
                Ok(Outcome::Playing { .. }) => stepped.credit(session[from].elapsed).replay(
                    session,
                    from + 1,
                ),
            }
        }
    }

    /// The player after it was asked to play a timeline through a recorded
    /// session. The first turn of the session supplies the events that are
    /// taken in before the first step; each later turn is one step.
    pub open spec fn run(
        self,
        format: Format,
        timing: Timing,
        tracks: Seq<Seq<TrackEvent>>,
        session: Seq<Input>,
    ) -> (Playback, Option<PlayerError>) {
        let first_events = if session.len() > 0 {
            session[0].events@
        } else {
            Seq::empty()
        };
        let (begun, error) = self.begin(format, timing, tracks, first_events);
        if self.console.running || error is Some {
            (begun, error)
        } else {
            begun.replay(session, 1)
        }
    }
}

/// A track and how far it has been played.
struct TrackCursor {
    events: Vec<TrackEvent>,
    next: usize,
    wait: u32,
}

impl View for TrackCursor {
    type V = Cursor;

    closed spec fn view(&self) -> Cursor {
        Cursor { events: self.events@, next: self.next as int, wait: self.wait as int }
    }
}

impl TrackCursor {
    /// Ticks from one event to the event at `at`; 0 past the end of the track.
    fn delta_at(&self, at: usize) -> (delta: u32)
        ensures
            delta == self@.delta_at(at as int),
    {
        if at < self.events.len() {
            self.events[at].delta
        } else {
            0
        }
    }

    fn primed(events: Vec<TrackEvent>) -> (cursor: TrackCursor)
        ensures
            cursor@ == Cursor::primed(events@),
    {
        let mut cursor = TrackCursor { events, next: 0, wait: 0 };
        cursor.wait = cursor.delta_at(0);
        cursor
    }

    fn pending(&self) -> (event: Option<TrackEvent>)
        ensures
            event == self@.pending(),
    {
        if self.next < self.events.len() {
            Some(self.events[self.next])
        } else {
            None
        }
    }

    fn advance(&mut self)
        requires
            old(self)@.pending() is Some,
        ensures
            final(self)@ == old(self)@.advanced(),
    {
        let following: usize = if self.next < self.events.len() {
            self.next + 1
        } else {
            self.next
        };
        self.wait = self.delta_at(following);
        self.next = following;
    }
}

/// Plays a timeline.
pub struct MidiPlayer {
    gui: Gui,
    running: bool,
    paused: bool,
    wave_is_cosine: bool,
    timing: Timing,
    sequential: bool,
    tracks: Vec<TrackCursor>,
    first: usize,
    last: usize,
    tick_duration: u64,
    default_tick: u64,
    tones: ToneSet,
    sleep_duration: u64,
    ticks_elapsed: u64,
    previously_paused: bool,
}

impl View for MidiPlayer {
    type V = Playback;

    closed spec fn view(&self) -> Playback {
        Playback {
            console: Console { display: self.gui@, running: self.running, paused: self.paused },
            wave_is_cosine: self.wave_is_cosine,
            timing: self.timing,
            sequential: self.sequential,
            tracks: Seq::new(self.tracks@.len(), |i: int| self.tracks@[i]@),
            first: self.first as int,
            last: self.last as int,
            tick: self.tick_duration as int,
            default_tick: self.default_tick as int,
            tones: self.tones@,
            sleep: self.sleep_duration as int,
            ticks_elapsed: self.ticks_elapsed as int,
            previously_paused: self.previously_paused,
        }
    }
}

impl MidiPlayer {
    /// An idle player that draws on `gui`. Chords are drawn in square waves
    /// whatever `wave_is_cosine` says.
    pub fn create(gui: Gui, wave_is_cosine: bool) -> (player: MidiPlayer)
        ensures
            player@ == (Playback {
                console: Console { display: gui@, running: false, paused: false },
                wave_is_cosine,
                timing: Timing::Metrical(0),
                sequential: false,
                tracks: Seq::empty(),
                first: 0,
                last: 0,
                tick: 0,
                default_tick: 0,
                tones: Map::empty(),
                sleep: 0,
                ticks_elapsed: 0,
                previously_paused: false,
            }),
    {
        let player = MidiPlayer {
            gui,
            running: false,
            paused: false,
            wave_is_cosine,
            timing: Timing::Metrical(0),
            sequential: false,
            tracks: Vec::new(),
            first: 0,
            last: 0,
            tick_duration: 0,
            default_tick: 0,
            tones: ToneSet::new(),
            sleep_duration: 0,
            ticks_elapsed: 0,
            previously_paused: false,
        };
        assert(player@.tracks =~= Seq::<Cursor>::empty());
        player
    }

    /// The picture.
    pub fn gui(&self) -> (gui: &Gui)
        ensures
            gui@ == self@.console.display,
    {
        &self.gui
    }

    /// Whether a piece is being played.
    pub fn running(&self) -> (running: bool)
        ensures
            running == self@.console.running,
    {
        self.running
    }

    /// Whether the program is paused.
    pub fn paused(&self) -> (paused: bool)
        ensures
            paused == self@.console.paused,
    {
        self.paused
    }

    /// Nanoseconds that a tick lasts now.
    pub fn tick_duration(&self) -> (nanos: u64)
        ensures
            nanos == self@.tick,
    {
        self.tick_duration
    }

    /// Takes in what the window reported.
    pub fn handle_gui_events(&mut self, events: &Vec<Event>)
        ensures
            final(self)@ == old(self)@.hear(events@),
    {
        let mut running = self.running;
        let mut paused = self.paused;
        self.gui.handle_events(events, &mut running, &mut paused);
        self.running = running;
        self.paused = paused;
    }

    /// Draws the sounding tones as a chord.
    fn play_notes(&mut self)
        ensures
            final(self)@ == old(self)@.render(),
    {
        let notes: Vec<u64> = self.tones.frequencies();
        self.gui.draw_square_waves(notes.as_slice());
    }

    /// Ends the tone of a key and draws what still sounds. A tone that does
    /// not sound is passed over.
    fn silence(&mut self, key: u8)
        ensures
            final(self)@ == old(self)@.silence(key),
    {
        if self.tones.remove(key) {
            self.play_notes();
        } else {
            assert(self.tones@ =~= old(self).tones@);
        }
    }

    /// Plays an event of a track: a tone begins or ends and the chord is
    /// drawn anew, or the tempo changes and with it the length of a tick.
    /// A tone that sounds already is not struck again. Nothing changes where
    /// the event is refused.
    fn handle_midi_event(&mut self, ev_kind: TrackEventKind) -> (r: Result<(), PlayerErrorKind>)
        ensures
            match old(self)@.apply(ev_kind) {
                Ok(played) => r is Ok && final(self)@ == played,
                Err(kind) => r == Err::<(), PlayerErrorKind>(kind) && final(self)@ == old(self)@,
            },
    {
        match ev_kind {
            TrackEventKind::NoteOn { key, vel } => {
                if vel == 0 {
                    self.silence(key);
                } else if key > 127 {
                    return Err(PlayerErrorKind::UnsupportedToneId);
                } else if !self.tones.contains_key(key) {
                    self.tones.insert(key, vel);
                    self.play_notes();
                }
            },
            TrackEventKind::NoteOff { key } => {
                self.silence(key);
            },
            TrackEventKind::Tempo(microsec_per_quarter) => {
                match get_tick_duration(self.timing, microsec_per_quarter) {
                    Ok(nanos) => {
                        self.tick_duration = nanos;
                    },
                    Err(kind) => {
                        return Err(kind);
                    },
                }
            },
            TrackEventKind::Other => {},
        }
        Ok(())
    }

    /// The turn of one track.
    fn play_track(&mut self, i: usize) -> (r: Result<(), PlayerError>)
        requires
            i < old(self)@.tracks.len(),
        ensures
            final(self)@ == old(self)@.play_track(i as int).0,
            match old(self)@.play_track(i as int).1 {
                Some(e) => r == Err::<(), PlayerError>(e),
                None => r is Ok,
            },
    {
        let event: TrackEvent = match self.tracks[i].pending() {
            None => {
                return Ok(());
            },
            Some(event) => event,
        };
        if self.tracks[i].wait as u64 <= self.ticks_elapsed {
            match self.handle_midi_event(event.kind) {
                Err(kind) => {
                    self.running = false;
                    Err(PlayerError { kind, track: i, event: self.tracks[i].next })
                },
                Ok(()) => {
                    let ghost played = self@;
                    self.tracks[i].advance();
                    assert(self@.tracks =~= played.tracks.update(
                        i as int,
                        played.tracks[i as int].advanced(),
                    ));
                    Ok(())
                },
            }
        } else {
            self.tracks[i].wait = self.tracks[i].wait - self.ticks_elapsed as u32;
            assert(self@.tracks =~= old(self)@.tracks.update(
                i as int,
                old(self)@.tracks[i as int].waited(old(self)@.ticks_elapsed),
            ));
            Ok(())
        }
    }

    /// Whether every track that is being played is at its end.
    fn group_ended(&self) -> (ended: bool)
        ensures
            ended == self@.group_ended(),
    {
        let mut i: usize = self.first;
        while i < self.last && i < self.tracks.len()
            invariant
                self.first <= i,
                forall|j: int|
                    self.first <= j < i && 0 <= j < self@.tracks.len() ==> (
                    #[trigger] self@.tracks[j]).pending() is None,
            decreases self.tracks.len() - i,
        {
            if self.tracks[i].pending().is_some() {
                assert(self@.tracks[i as int].pending() is Some);
                return false;
            }
            i += 1;
        }
        true
    }

    /// The part of a step that plays.
    fn play_groups(&mut self) -> (r: Result<Outcome, PlayerError>)
        ensures
            final(self)@ == old(self)@.play_groups().0,
            r == old(self)@.play_groups().1,
    {
        let ghost goal = self@.play_groups();
        while self.group_ended()
            invariant
                goal == old(self)@.play_groups(),
                goal == self@.play_groups(),
            decreases self@.tracks.len() - self@.last,
        {
            if self.sequential && self.last < self.tracks.len() {
                self.first = self.last;
                self.last = self.last + 1;
                self.tick_duration = self.default_tick;
                self.tones = ToneSet::new();
                self.sleep_duration = self.default_tick;
                self.ticks_elapsed = 0;
                self.previously_paused = false;
            } else {
                return Ok(Outcome::Finished);
            }
        }
        let last: usize = if self.last < self.tracks.len() {
            self.last
        } else {
            self.tracks.len()
        };
        let ghost spec_last = self@.last;
        let mut i: usize = self.first;
        while i < last
            invariant
                goal == old(self)@.play_groups(),
                last <= self@.tracks.len(),
                last <= spec_last,
                last == spec_last || last == self@.tracks.len(),
                goal.1 == match self@.play_tracks(i as int, spec_last).1 {
                    Some(e) => Err::<Outcome, PlayerError>(e),
                    None => Ok(
                        Outcome::Playing {
                            sleep: self@.play_tracks(i as int, spec_last).0.sleep as u64,
                        },
                    ),
                },
                goal.0 == self@.play_tracks(i as int, spec_last).0,
            decreases last - i,
        {
            match self.play_track(i) {
                Err(e) => {
                    return Err(e);
                },
                Ok(()) => {},
            }
            i += 1;
        }
        Ok(Outcome::Playing { sleep: self.sleep_duration })
    }

    /// Starts to play a timeline and takes in a first batch of events. Does
    /// nothing where the player runs already; refuses a timing that gives no
    /// length of a tick.
    pub fn begin(&mut self, smf: Smf, events: &Vec<Event>) -> (r: Result<(), PlayerError>)
        ensures
            final(self)@ == old(self)@.begin(smf.format, smf.timing, timeline(smf), events@).0,
            match old(self)@.begin(smf.format, smf.timing, timeline(smf), events@).1 {
                Some(e) => r == Err::<(), PlayerError>(e),
                None => r is Ok,
            },
    {
        if self.running {
            return Ok(());
        }
        let nanos: u64 = match get_tick_duration(smf.timing, DEFAULT_MICROSEC_PER_QUARTER) {
            Ok(nanos) => nanos,
            Err(kind) => {
                return Err(PlayerError { kind, track: 0, event: 0 });
            },
        };
        let ghost lists = timeline(smf);
        let format = smf.format;
        let timing = smf.timing;
        let mut tracks: Vec<TrackCursor> = Vec::new();
        for track in it: smf.tracks
            invariant
                tracks@.len() == it.index(),
                it.seq().len() == lists.len(),
                forall|i: int| 0 <= i < it.seq().len() ==> (#[trigger] it.seq()[i])@ == lists[i],
                forall|i: int|
                    0 <= i < tracks@.len() ==> (#[trigger] tracks@[i])@ == Cursor::primed(lists[i]),
        {
            tracks.push(TrackCursor::primed(track));
        }
        let count: usize = tracks.len();
        self.timing = timing;
        self.sequential = matches!(format, Format::Sequential);
        self.tracks = tracks;
        self.first = 0;
        self.last = if self.sequential && count > 1 {
            1
        } else {
            count
        };
        self.tick_duration = nanos;
        self.default_tick = nanos;
        self.tones = ToneSet::new();
        self.sleep_duration = nanos;
        self.ticks_elapsed = 0;
        self.previously_paused = false;
        self.running = true;
        self.handle_gui_events(events);
        assert(self@.tracks =~= Seq::new(lists.len(), |i: int| Cursor::primed(lists[i])));
        Ok(())
    }

    /// One turn of the loop: takes in what the window reported; stops where
    /// it says so; holds still while the program is paused; draws the chord
    /// again after a pause; and gives every track its turn. An event that
    /// cannot be played stops the player and is reported.
    pub fn step(&mut self, events: &Vec<Event>) -> (r: Result<Outcome, PlayerError>)
        ensures
            final(self)@ == old(self)@.step(events@).0,
            r == old(self)@.step(events@).1,
    {
        self.handle_gui_events(events);
        if !self.running {
            return Ok(Outcome::Finished);
        }
        if self.paused {
            self.previously_paused = true;
            return Ok(Outcome::Paused { sleep: SLEEP_INTERVAL });
        }
        if self.previously_paused {
            self.play_notes();
            self.previously_paused = false;
        }
        self.play_groups()
    }

    /// Takes in how long a turn took, from its start to the end of its
    /// sleep: counts the ticks that went by, at least one, and sets the next
    /// sleep to what is left of the tick that has begun.
    pub fn credit(&mut self, elapsed: u64)
        ensures
            final(self)@ == old(self)@.credit(elapsed),
    {
        if self.tick_duration == 0 {
            return ;
        }
        let ticks: u64 = elapsed / self.tick_duration;
        self.ticks_elapsed = if ticks == 0 {
            1
        } else {
            ticks
        };
        self.sleep_duration = self.tick_duration - elapsed % self.tick_duration;
    }

    /// Plays a timeline through a recorded session: the first turn supplies
    /// the events taken in before the first step, each later turn is one
    /// step, and the piece ends with its tracks, with the session, or when
    /// the window says so. Does nothing where the player runs already.
    pub fn run(&mut self, smf: Smf, session: &Vec<Input>) -> (r: Result<(), PlayerError>)
        ensures
            final(self)@ == old(self)@.run(smf.format, smf.timing, timeline(smf), session@).0,
            match old(self)@.run(smf.format, smf.timing, timeline(smf), session@).1 {
                Some(e) => r == Err::<(), PlayerError>(e),
                None => r is Ok,
            },
    {
        let ghost goal = self@.run(smf.format, smf.timing, timeline(smf), session@);
        if self.running {
            return Ok(());
        }
        let started = if session.len() > 0 {
            self.begin(smf, &session[0].events)
        } else {
            let nothing: Vec<Event> = Vec::new();
            self.begin(smf, &nothing)
        };
        match started {
            Err(e) => {
                return Err(e);
            },
            Ok(()) => {},
        }
        let mut result: Result<(), PlayerError> = Ok(());
        let mut i: usize = 1;
        while i < session.len()
            invariant_except_break
                1 <= i,
                result is Ok,
                goal == self@.replay(session@, i as int),
            ensures
                goal.0 == self@,
                match goal.1 {
                    Some(e) => result == Err::<(), PlayerError>(e),
                    None => result is Ok,
                },
            decreases session.len() - i,
        {
            match self.step(&session[i].events) {
                Err(e) => {
                    result = Err(e);
                    break ;
                },
                Ok(Outcome::Finished) => {
                    break ;
                },
                Ok(Outcome::Paused { .. }) => {},
                Ok(Outcome::Playing { .. }) => {
                    self.credit(session[i].elapsed);
                },
            }
            i += 1;
        }
        result
    }
}

impl Cursor {
    /// The track has an event that is due in an iteration in which `ticks`
    /// ticks went by.
    pub open spec fn is_due(self, ticks: int) -> bool {
        self.pending() is Some && self.wait <= ticks
    }

    /// The track after its turn in an iteration in which `ticks` ticks went
    /// by.
    pub open spec fn after_turn(self, ticks: int) -> Cursor {
        if self.pending() is None {
            self
        } else if self.is_due(ticks) {
            self.advanced()
        } else {
            self.waited(ticks)
        }
    }
}

impl Playback {
    /// A tick has a length, at the start of a piece and now, and the player
    /// sleeps between two steps.
    pub open spec fn keeps_time(self) -> bool {
        &&& 0 < self.tick <= u64::MAX
        &&& 0 < self.default_tick <= u64::MAX
        &&& 0 < self.sleep <= u64::MAX
    }

    /// No event of the tracks from `i` up to `last` is due.
    pub open spec fn none_due(self, i: int, last: int) -> bool {
        forall|j: int|
            i <= j < last && 0 <= j < self.tracks.len() ==> !(#[trigger] self.tracks[j]).is_due(
                self.ticks_elapsed,
            )
    }

    /// What an event of a track leaves as it is: the tracks and which of them
    /// are being played, the count of ticks, the sleep, and whether the
    /// player runs.
    pub open spec fn same_timeline(self, other: Playback) -> bool {
        &&& self.tracks == other.tracks
        &&& self.first == other.first
        &&& self.last == other.last
        &&& self.sequential == other.sequential
        &&& self.timing == other.timing
        &&& self.default_tick == other.default_tick
        &&& self.ticks_elapsed == other.ticks_elapsed
        &&& self.sleep == other.sleep
        &&& self.previously_paused == other.previously_paused
        &&& self.console.running == other.console.running
        &&& self.console.paused == other.console.paused
        &&& self.console.display.rate == other.console.display.rate
        &&& self.console.display.height == other.console.display.height
    }
}

/// Only a change of tempo changes the length of a tick. It takes effect at
/// once, it leaves the ticks that were counted and the sleep that was set as
/// they are, and the new length is that of the timing at the new tempo.
pub proof fn lemma_tempo_rescales_the_tick(p: Playback, kind: TrackEventKind)
    ensures
        match p.apply(kind) {
            Ok(q) => {
                &&& q.same_timeline(p)
                &&& 0 < p.tick <= u64::MAX ==> 0 < q.tick <= u64::MAX
                &&& match kind {
                    TrackEventKind::Tempo(microsec_per_quarter) => {
                        &&& tick_nanos(p.timing, microsec_per_quarter) == Some(q.tick)
                        &&& q == Playback { tick: q.tick, ..p }
                    },
                    _ => q.tick == p.tick,
                }
            },
            Err(_) => true,
        },
{
    if let TrackEventKind::Tempo(microsec_per_quarter) = kind {
        lemma_tick_nanos_bounds(p.timing, microsec_per_quarter);
    }
}

/// A tick lasts at least a nanosecond and less than five million seconds.
pub proof fn lemma_tick_nanos_bounds(timing: Timing, microsec_per_quarter: u32)
    ensures
        tick_nanos(timing, microsec_per_quarter) matches Some(nanos) ==> 0 < nanos
            <= 4_294_967_295_000,
{
    match timing {
        Timing::Metrical(ticks_per_quarter) => {
            if ticks_per_quarter > 0 {
                lemma_div_is_ordered_by_denominator(
                    microsec_per_quarter as int * 1000,
                    1,
                    ticks_per_quarter as int,
                );
            }
        },
        Timing::Timecode(fps, subframes) => {
            if subframes > 0 {
                let (nanos, ticks): (int, int) = match fps {
                    Fps::Fps24 => (1_000_000_000, 24 * subframes as int),
                    Fps::Fps25 => (1_000_000_000, 25 * subframes as int),
                    Fps::Fps29 => (1_001_000_000, 30 * subframes as int),
                    Fps::Fps30 => (1_000_000_000, 30 * subframes as int),
                };
                lemma_div_is_ordered_by_denominator(nanos, 1, ticks);
            }
        },
    }
}

/// The end of a tone takes its key out of the sounding tones and no other,
/// and to end it a second time changes nothing. The start of a tone puts its
/// key in and no other.
pub proof fn lemma_tones_follow_the_events(p: Playback, key: u8, vel: u8)
    ensures
        !p.silence(key).tones.contains_key(key),
        p.silence(key).tones == p.tones.remove(key),
        p.silence(key).silence(key) == p.silence(key),
        p.apply(TrackEventKind::NoteOff { key }) == Ok::<Playback, PlayerErrorKind>(p.silence(key)),
        p.apply(TrackEventKind::NoteOn { key, vel: 0 }) == Ok::<Playback, PlayerErrorKind>(
            p.silence(key),
        ),
        vel > 0 && key <= 127 ==> (p.apply(TrackEventKind::NoteOn { key, vel }) matches Ok(q)
            && q.tones.dom() == p.tones.dom().insert(key)),
        vel > 0 && key > 127 ==> p.apply(TrackEventKind::NoteOn { key, vel }) == Err::<
            Playback,
            PlayerErrorKind,
        >(PlayerErrorKind::UnsupportedToneId),
{
    if vel > 0 && key <= 127 {
        let q = p.apply(TrackEventKind::NoteOn { key, vel })->Ok_0;
    }
}

/// The ticks of a turn are its time divided by the length of a tick, rounded
/// down, but never none. The sleep that follows is what is left of the tick
/// that has begun, so that the turn and the sleep together end where a tick
/// ends, however late the turn was.
pub proof fn lemma_credit_counts_ticks(p: Playback, elapsed: u64)
    requires
        p.tick > 0,
    ensures
        ({
            let q = p.credit(elapsed);
            &&& q.ticks_elapsed >= 1
            &&& elapsed >= p.tick ==> q.ticks_elapsed * p.tick <= elapsed < (q.ticks_elapsed + 1)
                * p.tick
            &&& elapsed < p.tick ==> q.ticks_elapsed == 1
            &&& 0 < q.sleep <= p.tick
            &&& (elapsed + q.sleep) % p.tick == 0
            &&& q == Playback { ticks_elapsed: q.ticks_elapsed, sleep: q.sleep, ..p }
        }),
{
    let e = elapsed as int;
    let t = p.tick;
    lemma_fundamental_div_mod(e, t);
    lemma_mod_bound(e, t);
    let d = e / t;
    let m = e % t;
    assert((d + 1) * t == d * t + t) by (nonlinear_arith);
    if e >= t {
        if d <= 0 {
            assert(t * d <= 0) by (nonlinear_arith)
                requires
                    d <= 0,
                    t > 0,
            ;
        }
    } else {
        lemma_basic_div(e, t);
    }
    assert((e + (t - m)) % t == 0) by {
        assert(e + (t - m) == t * (d + 1)) by (nonlinear_arith)
            requires
                e == t * d + m,
        ;
        lemma_fundamental_div_mod_converse(e + (t - m), t, d + 1, 0);
    }
}

/// The turn of a track changes no other track and not the count of ticks.
pub proof fn lemma_play_track_frame(p: Playback, i: int)
    ensures
        ({
            let (q, error) = p.play_track(i);
            &&& q.tracks.len() == p.tracks.len()
            &&& q.ticks_elapsed == p.ticks_elapsed
            &&& q.first == p.first
            &&& q.last == p.last
            &&& q.sequential == p.sequential
            &&& q.timing == p.timing
            &&& q.default_tick == p.default_tick
            &&& q.sleep == p.sleep
            &&& 0 < p.tick <= u64::MAX ==> 0 < q.tick <= u64::MAX
            &&& forall|j: int| 0 <= j < p.tracks.len() && j != i ==> q.tracks[j] == p.tracks[j]
            &&& error is None && 0 <= i < p.tracks.len() ==> q.tracks[i] == p.tracks[i].after_turn(
                p.ticks_elapsed,
            )
            &&& error is None ==> q.console.running == p.console.running
            &&& error is Some ==> !q.console.running
        }),
{
    if 0 <= i < p.tracks.len() {
        let cursor = p.tracks[i];
        if cursor.pending() is Some && cursor.wait <= p.ticks_elapsed {
            lemma_tempo_rescales_the_tick(p, cursor.pending()->Some_0.kind);
        }
    }
}

/// All tracks that are being played move together: in an iteration that no
/// event stops, each of them either plays its pending event or has the same
/// number of ticks taken off its wait, and the other tracks stay as they are.
pub proof fn lemma_tracks_advance_together(p: Playback, i: int, last: int)
    requires
        0 <= i,
    ensures
        ({
            let (q, error) = p.play_tracks(i, last);
            &&& q.tracks.len() == p.tracks.len()
            &&& q.ticks_elapsed == p.ticks_elapsed
            &&& q.first == p.first
            &&& q.last == p.last
            &&& q.sequential == p.sequential
            &&& q.timing == p.timing
            &&& q.default_tick == p.default_tick
            &&& q.sleep == p.sleep
            &&& 0 < p.tick <= u64::MAX ==> 0 < q.tick <= u64::MAX
            &&& error is None ==> q.console.running == p.console.running
            &&& error is Some ==> !q.console.running
            &&& error is None ==> forall|j: int|
                0 <= j < p.tracks.len() ==> #[trigger] q.tracks[j] == if i <= j < last {
                    p.tracks[j].after_turn(p.ticks_elapsed)
                } else {
                    p.tracks[j]
                }
        }),
    decreases last - i,
{
    if !(i >= last || i >= p.tracks.len()) {
        lemma_play_track_frame(p, i);
        let (played, error) = p.play_track(i);
        if error is None {
            lemma_tracks_advance_together(played, i + 1, last);
        }
    }
}

/// A player that keeps time goes on keeping time through the part of a step
/// that plays, and what it leaves to do is a sleep of more than nothing.
pub proof fn lemma_play_groups_keeps_time(p: Playback)
    requires
        p.keeps_time(),
        0 <= p.first,
    ensures
        p.play_groups().0.keeps_time(),
        p.play_groups().1 matches Ok(Outcome::Playing { sleep }) ==> sleep
            == p.play_groups().0.sleep,
        p.play_groups().1 is Err ==> !p.play_groups().0.console.running,
    decreases p.tracks.len() - p.last,
{
    if p.group_ended() {
        if p.has_next_group() {
            lemma_play_groups_keeps_time(p.next_group());
        }
    } else {
        lemma_tracks_advance_together(p, p.first, p.last);
    }
}

/// A tick has a positive length from the start of a piece on, through every
/// step and every credit of time.
pub proof fn lemma_player_keeps_time(
    p: Playback,
    format: Format,
    timing: Timing,
    tracks: Seq<Seq<TrackEvent>>,
    events: Seq<Event>,
    elapsed: u64,
)
    ensures
        !p.console.running && p.begin(format, timing, tracks, events).1 is None ==> p.begin(
            format,
            timing,
            tracks,
            events,
        ).0.keeps_time(),
        p.keeps_time() && 0 <= p.first ==> p.step(events).0.keeps_time(),
        p.keeps_time() ==> p.credit(elapsed).keeps_time(),
{
    lemma_tick_nanos_bounds(timing, DEFAULT_MICROSEC_PER_QUARTER);
    if p.keeps_time() {
        lemma_credit_counts_ticks(p, elapsed);
        if 0 <= p.first {
            let heard = p.hear(events);
            if heard.console.running && !heard.console.paused {
                if heard.previously_paused {
                    lemma_play_groups_keeps_time(
                        Playback { previously_paused: false, ..heard.render() },
                    );
                } else {
                    lemma_play_groups_keeps_time(heard);
                }
            }
        }
    }
}

/// A player that has stopped stays stopped: every further step finishes at
/// once and plays nothing, whatever the window reports.
pub proof fn lemma_stopped_is_final(p: Playback, events: Seq<Event>)
    requires
        !p.console.running,
    ensures
        p.step(events).1 == Ok::<Outcome, PlayerError>(Outcome::Finished),
        p.step(events).0 == p.hear(events),
        !p.step(events).0.console.running,
{
    lemma_react_all_keeps_the_display(p.console, events);
}

/// Pause and resume. A player is paused by one batch of events and set going
/// again by the next, with no time credited in between. The step that sets it
/// going draws the chord of the tones that sounded before the pause, row for
/// row, however the events blanked the picture in between, and only then
/// gives the tracks their turn. Where no event of a track is due in that
/// step, the chord is what the picture shows after it.
pub proof fn lemma_pause_resume(p: Playback, pause: Seq<Event>, resume: Seq<Event>)
    requires
        0 <= p.first,
        react_all(p.console, pause).running,
        react_all(p.console, pause).paused,
        react_all(react_all(p.console, pause), resume).running,
        !react_all(react_all(p.console, pause), resume).paused,
    ensures
        ({
            let (paused, first) = p.step(pause);
            let (resumed, second) = paused.step(resume);
            let drawn = Playback { previously_paused: false, ..paused.hear(resume).render() };
            let chord = chord_frame(
                chord_of(p.tones),
                p.console.display.rate,
                p.console.display.height,
            );
            &&& first == Ok::<Outcome, PlayerError>(Outcome::Paused { sleep: SLEEP_INTERVAL })
            &&& paused.tones == p.tones
            &&& paused.tracks == p.tracks
            &&& paused.ticks_elapsed == p.ticks_elapsed
            &&& drawn.console.display.rows == chord
            &&& (resumed, second) == drawn.play_groups()
            &&& !drawn.group_ended() && drawn.none_due(drawn.first, drawn.last)
                ==> resumed.console.display.rows == chord && resumed.tones == p.tones
        }),
{
    lemma_react_all_keeps_the_display(p.console, pause);
    lemma_react_all_keeps_the_display(react_all(p.console, pause), resume);
    let (paused, first) = p.step(pause);
    let drawn = Playback { previously_paused: false, ..paused.hear(resume).render() };
    if !drawn.group_ended() && drawn.none_due(drawn.first, drawn.last) {
        lemma_waiting_tracks_draw_nothing(drawn, drawn.first, drawn.last);
    }
}

/// An iteration in which no event is due leaves the picture and the tones as
/// they are.
pub proof fn lemma_waiting_tracks_draw_nothing(p: Playback, i: int, last: int)
    requires
        0 <= i,
        p.none_due(i, last),
    ensures
        p.play_tracks(i, last).1 is None,
        p.play_tracks(i, last).0.console == p.console,
        p.play_tracks(i, last).0.tones == p.tones,
        p.play_tracks(i, last).0.tick == p.tick,
    decreases last - i,
{
    if !(i >= last || i >= p.tracks.len()) {
        let (played, error) = p.play_track(i);
        assert(!p.tracks[i].is_due(p.ticks_elapsed));
        assert forall|j: int| i + 1 <= j < last && 0 <= j < played.tracks.len() implies !(
        #[trigger] played.tracks[j]).is_due(played.ticks_elapsed) by {
            assert(played.tracks[j] == p.tracks[j]);
        }
        lemma_waiting_tracks_draw_nothing(played, i + 1, last);
    }
}

} // verus!
