//! Playing a score of the text notation, one note after another.
//!
//! The player is a state machine. It starts idle; `begin` makes it run and
//! draws the first note; every `step` takes in what the window reported and
//! moves on to the next note once the current one has had its time; a pause
//! blanks the picture and holds the time; the player stops at the end of the
//! score or when the window says so. `run` drives the same steps through a
//! recorded session.
//!
//! A cosine wave needs the cosine and a random number for every row, which
//! the player cannot compute. Where one is due the player leaves a request;
//! the loop takes the cosine of the phases that `Gui::cosine_phases` gives
//! for the frequency, and answers through `draw_cosine`.

use vstd::prelude::*;
use crate::gui::{
    black,
    cosine_frame,
    flat_frame,
    lemma_react_all_keeps_the_display,
    react_all,
    square_frame,
    Color,
    Console,
    CosineSample,
    Event,
    Gui,
    Screen,
};
use crate::parser::Note;
use crate::schedule::{Input, Outcome, SLEEP_INTERVAL};

verus! {

/// The state of a player.
pub struct Recital {
    /// Whether it runs, whether it is paused, and what it shows.
    pub console: Console,
    pub wave_is_cosine: bool,
    pub notes: Seq<Note>,
    /// Which note is sounding.
    pub cur_index: int,
    /// Nanoseconds credited to the sounding note.
    pub time_playing: int,
    /// The last step found the program paused.
    pub previously_paused: bool,
    /// The frequency of a cosine wave that is due and not yet drawn.
    pub wave_request: Option<u64>,
}

/// Nanoseconds that a note lasts.
pub open spec fn note_nanos(note: Note) -> int {
    note.duration * 1_000_000
}

impl Recital {
    /// The picture with another display.
    pub open spec fn showing(self, display: Screen) -> Recital {
        Recital { console: Console { display, ..self.console }, ..self }
    }

    /// The player after it has drawn a note: a rest blanks the picture, a
    /// square tone is drawn at once, and a cosine tone is asked for.
    pub open spec fn play(self, note: Note) -> Recital {
        let display = self.console.display;
        match note.freq {
            Some(freq) => if self.wave_is_cosine {
                Recital { wave_request: Some(freq), ..self }
            } else {
                Recital {
                    wave_request: None,
                    ..self.showing(
                        display.show(square_frame(freq as int, display.rate, display.height)),
                    )
                }
            },
            None => Recital { wave_request: None, ..self.showing(display.cleared(black())) },
        }
    }

    /// The player after it was asked to play a score. Nothing happens where
    /// it runs already or the score is empty. Otherwise it runs, takes in a
    /// first batch of events, and draws the first note.
    pub open spec fn begin(self, notes: Seq<Note>, events: Seq<Event>) -> Recital {
        if self.console.running || notes.len() == 0 {
            self
        } else {
            (Recital {
                console: react_all(Console { running: true, ..self.console }, events),
                notes,
                cur_index: 0,
                time_playing: 0,
                previously_paused: false,
                wave_request: None,
                ..self
            }).play(notes[0])
        }
    }

    /// The player after it has taken in a batch of events.
    pub open spec fn hear(self, events: Seq<Event>) -> Recital {
        Recital { console: react_all(self.console, events), ..self }
    }

    /// The player after one step, and what the step leaves to do.
    pub open spec fn step(self, events: Seq<Event>) -> (Recital, Outcome) {
        let heard = Recital { wave_request: None, ..self.hear(events) };
        if !heard.console.running {
            (heard, Outcome::Finished)
        } else if heard.console.paused {
            (
                Recital { previously_paused: true, ..heard },
                Outcome::Paused { sleep: SLEEP_INTERVAL },
            )
        } else if !(0 <= heard.cur_index < heard.notes.len()) {
            (
                Recital { console: Console { running: false, ..heard.console }, ..heard },
                Outcome::Finished,
            )
        } else {
            let current = heard.notes[heard.cur_index];
            let resumed = if heard.previously_paused {
                Recital { previously_paused: false, ..heard.play(current) }
            } else {
                heard
            };
            if resumed.time_playing > note_nanos(current) {
                if resumed.cur_index + 1 >= resumed.notes.len() {
                    (
                        Recital {
                            console: Console { running: false, ..resumed.console },
                            time_playing: 0,
                            ..resumed
                        },
                        Outcome::Finished,
                    )
                } else {
                    (
                        (Recital {
                            time_playing: 0,
                            cur_index: resumed.cur_index + 1,
                            ..resumed
                        }).play(resumed.notes[resumed.cur_index + 1]),
                        Outcome::Playing { sleep: SLEEP_INTERVAL },
                    )
                }
            } else {
                (resumed, Outcome::Playing { sleep: SLEEP_INTERVAL })
            }
        }
    }

    /// The player after time was credited to the sounding note. The sum stays
    /// at `u128::MAX` where it would pass it.
    pub open spec fn credit(self, elapsed: u64) -> Recital {
        Recital {
            time_playing: if self.time_playing + elapsed > u128::MAX {
                u128::MAX as int
            } else {
                self.time_playing + elapsed
            },
            ..self
        }
    }

    /// The player after a request for a cosine wave was answered; without a
    /// request nothing is drawn.
    pub open spec fn answer(self, samples: Seq<CosineSample>) -> Recital {
        let display = self.console.display;
        if self.wave_request is Some {
            Recital {
                wave_request: None,
                ..self.showing(display.show(cosine_frame(samples, display.height)))
            }
        } else {
            self
        }
    }

    /// The player after one turn of a recorded session, and whether the
    /// session goes on.
    pub open spec fn turn(self, input: Input) -> (Recital, bool) {
        let (stepped, outcome) = self.step(input.events@);
        let drawn = stepped.answer(input.samples@);
        match outcome {
            Outcome::Finished => (drawn, false),
            Outcome::Paused { .. } => (drawn, true),
            Outcome::Playing { .. } => (drawn.credit(input.elapsed), true),
        }
    }

    /// The player after the turns of a recorded session from turn `from` on,
    /// up to the turn that ends the piece.
    pub open spec fn replay(self, session: Seq<Input>, from: int) -> Recital
        decreases session.len() - from,
    {
        if from < 0 || from >= session.len() {
            self
        } else {
            let (next, goes_on) = self.turn(session[from]);
            if goes_on {
                next.replay(session, from + 1)
            } else {
                next
            }
        }
    }

    /// The player after it was asked to play a score through a recorded
    /// session. The first turn of the session supplies the events that are
    /// taken in before the first note, and the rows of that note should it be
    /// a cosine wave; each later turn is one step.
    pub open spec fn run(self, notes: Seq<Note>, session: Seq<Input>) -> Recital {
        if self.console.running || notes.len() == 0 {
            self
        } else if session.len() == 0 {
            self.begin(notes, Seq::empty())
        } else {
            self.begin(notes, session[0].events@).answer(session[0].samples@).replay(session, 1)
        }
    }
}

/// Plays a score of the text notation.
pub struct LegacyPlayer {
    gui: Gui,
    running: bool,
    paused: bool,
    wave_is_cosine: bool,
    notes: Vec<Note>,
    cur_index: usize,
    time_playing_cur_note: u128,
    previously_paused: bool,
    wave_request: Option<u64>,
}

impl View for LegacyPlayer {
    type V = Recital;

    closed spec fn view(&self) -> Recital {
        Recital {
            console: Console { display: self.gui@, running: self.running, paused: self.paused },
            wave_is_cosine: self.wave_is_cosine,
            notes: self.notes@,
            cur_index: self.cur_index as int,
            time_playing: self.time_playing_cur_note as int,
            previously_paused: self.previously_paused,
            wave_request: self.wave_request,
        }
    }
}

impl LegacyPlayer {
    /// An idle player that draws on `gui`: square waves, or cosine waves
    /// where `wave_is_cosine` is set.
    pub fn create(gui: Gui, wave_is_cosine: bool) -> (player: LegacyPlayer)
        ensures
            player@ == (Recital {
                console: Console { display: gui@, running: false, paused: false },
                wave_is_cosine,
                notes: Seq::empty(),
                cur_index: 0,
                time_playing: 0,
                previously_paused: false,
                wave_request: None,
            }),
    {
        LegacyPlayer {
            gui,
            running: false,
            paused: false,
            wave_is_cosine,
            notes: Vec::new(),
            cur_index: 0,
            time_playing_cur_note: 0,
            previously_paused: false,
            wave_request: None,
        }
    }

    /// The picture.
    pub fn gui(&self) -> (gui: &Gui)
        ensures
            gui@ == self@.console.display,
    {
        &self.gui
    }

    /// Whether a piece is being played.
    pub fn running(&self) -> (running: bool)
        ensures
            running == self@.console.running,
    {
        self.running
    }

    /// Whether the program is paused.
    pub fn paused(&self) -> (paused: bool)
        ensures
            paused == self@.console.paused,
    {
        self.paused
    }

    /// Which note is sounding.
    pub fn cur_index(&self) -> (index: usize)
        ensures
            index == self@.cur_index,
    {
        self.cur_index
    }

    /// The frequency of a cosine wave that is due and not yet drawn.
    pub fn wave_request(&self) -> (request: Option<u64>)
        ensures
            request == self@.wave_request,
    {
        self.wave_request
    }

    /// Takes in what the window reported.
    pub fn handle_events(&mut self, events: &Vec<Event>)
        ensures
            final(self)@ == old(self)@.hear(events@),
    {
        let mut running = self.running;
        let mut paused = self.paused;
        self.gui.handle_events(events, &mut running, &mut paused);
        self.running = running;
        self.paused = paused;
    }

    /// Draws a note: a rest blanks the picture, a square tone is drawn at
    /// once, and a cosine tone is asked for.
    fn play_note(&mut self, new_note: Note)
        ensures
            final(self)@ == old(self)@.play(new_note),
    {
        match new_note.freq {
            Some(freq) => {
                if self.wave_is_cosine {
                    self.wave_request = Some(freq);
                } else {
                    self.gui.draw_single_square_wave(freq);
                    self.wave_request = None;
                }
            },
            None => {
                self.gui.clear_and_present(Color::black());
                self.wave_request = None;
            },
        }
    }

    /// Starts to play a score: takes in a first batch of events and draws the
    /// first note. Does nothing where the player runs already or the score is
    /// empty.
    pub fn begin(&mut self, notes: Vec<Note>, events: &Vec<Event>)
        ensures
            final(self)@ == old(self)@.begin(notes@, events@),
    {
        if self.running || notes.len() == 0 {
            return ;
        }
        let first: Note = notes[0];
        self.notes = notes;
        self.cur_index = 0;
        self.time_playing_cur_note = 0;
        self.previously_paused = false;
        self.wave_request = None;
        self.running = true;
        self.handle_events(events);
        self.play_note(first);
    }

    /// One turn of the loop: takes in what the window reported; stops where
    /// it says so; holds still while the program is paused; draws the
    /// sounding note again after a pause; and moves on to the next note, or
    /// ends the piece, once more time than the note lasts was credited to it.
    pub fn step(&mut self, events: &Vec<Event>) -> (outcome: Outcome)
        ensures
            final(self)@ == old(self)@.step(events@).0,
            outcome == old(self)@.step(events@).1,
    {
        self.handle_events(events);
        self.wave_request = None;
        if !self.running {
            return Outcome::Finished;
        }
        if self.paused {
            self.previously_paused = true;
            return Outcome::Paused { sleep: SLEEP_INTERVAL };
        }
        if self.cur_index >= self.notes.len() {
            self.running = false;
            return Outcome::Finished;
        }
        let current: Note = self.notes[self.cur_index];
        if self.previously_paused {
            self.play_note(current);
            self.previously_paused = false;
        }
        if self.time_playing_cur_note > (current.duration as u128) * 1_000_000 {
            self.time_playing_cur_note = 0;
            if self.cur_index + 1 >= self.notes.len() {
                self.running = false;
                return Outcome::Finished;
            }
            self.cur_index = self.cur_index + 1;
            let next: Note = self.notes[self.cur_index];
            self.play_note(next);
        }
        Outcome::Playing { sleep: SLEEP_INTERVAL }
    }

    /// Credits the time that a turn took to the sounding note.
    pub fn credit(&mut self, elapsed: u64)
        ensures
            final(self)@ == old(self)@.credit(elapsed),
    {
        self.time_playing_cur_note = self.time_playing_cur_note.saturating_add(elapsed as u128);
    }

    /// Answers a request for a cosine wave with one sample for every row.
    /// Without a request nothing is drawn.
    pub fn draw_cosine(&mut self, samples: &Vec<CosineSample>)
        ensures
            final(self)@ == old(self)@.answer(samples@),
    {
        if self.wave_request.is_some() {
            self.gui.draw_single_cosine_wave(samples);
            self.wave_request = None;
        }
    }

    /// Plays a score through a recorded session: the first turn supplies the
    /// events taken in before the first note, each later turn is one step,
    /// and the piece ends with the score, with the session, or when the
    /// window says so. Does nothing where the player runs already or the
    /// score is empty.
    pub fn run(&mut self, notes: Vec<Note>, session: &Vec<Input>)
        ensures
            final(self)@ == old(self)@.run(notes@, session@),
    {
        if self.running || notes.len() == 0 {
            return ;
        }
        let ghost goal = self@.run(notes@, session@);
        if session.len() == 0 {
            let nothing: Vec<Event> = Vec::new();
            self.begin(notes, &nothing);
            return ;
        }
        self.begin(notes, &session[0].events);
        self.draw_cosine(&session[0].samples);
        let mut i: usize = 1;
        while i < session.len()
            invariant_except_break
                1 <= i <= session.len(),
                goal == self@.replay(session@, i as int),
            ensures
                goal == self@,
            decreases session.len() - i,
        {
            let outcome = self.step(&session[i].events);
            self.draw_cosine(&session[i].samples);
            match outcome {
                Outcome::Finished => {
                    break ;
                },
                Outcome::Paused { .. } => {},
                Outcome::Playing { .. } => {
                    self.credit(session[i].elapsed);
                },
            }
            i += 1;
        }
    }
}

/// The rows of a note drawn in square waves: those of its tone, or black
/// all over for a rest.
pub open spec fn note_frame(note: Note, rate: int, height: int) -> Seq<Color> {
    match note.freq {
        Some(freq) => square_frame(freq as int, rate, height),
        None => flat_frame(black(), height),
    }
}

/// A player that has stopped stays stopped: every further step finishes at
/// once, whatever the window reports.
pub proof fn lemma_stopped_is_final(r: Recital, events: Seq<Event>)
    requires
        !r.console.running,
    ensures
        r.step(events).1 == Outcome::Finished,
        !r.step(events).0.console.running,
        r.step(events).0.cur_index == r.cur_index,
        r.step(events).0.time_playing == r.time_playing,
{
    lemma_react_all_keeps_the_display(r.console, events);
}

/// A player that runs is not started again, and an empty score starts
/// nothing.
pub proof fn lemma_begin_needs_idle_player_and_notes(
    r: Recital,
    notes: Seq<Note>,
    events: Seq<Event>,
)
    requires
        r.console.running || notes.len() == 0,
    ensures
        r.begin(notes, events) == r,
        r.run(notes, Seq::empty()) == r,
{
}

/// Pause and resume. A player in the middle of a note is paused by one batch
/// of events and set going again by the next, with no time credited in
/// between. It is then at the same note with the same time on it, and in
/// square waves the picture is row for row that of the note, however the
/// events blanked it in between. In cosine waves the same wave is asked for
/// again.
pub proof fn lemma_pause_resume(r: Recital, pause: Seq<Event>, resume: Seq<Event>)
    requires
        r.console.running,
        !r.previously_paused,
        0 <= r.cur_index < r.notes.len(),
        r.time_playing <= note_nanos(r.notes[r.cur_index]),
        react_all(r.console, pause).running,
        react_all(r.console, pause).paused,
        react_all(react_all(r.console, pause), resume).running,
        !react_all(react_all(r.console, pause), resume).paused,
    ensures
        ({
            let note = r.notes[r.cur_index];
            let (paused, first) = r.step(pause);
            let (resumed, second) = paused.step(resume);
            &&& first == Outcome::Paused { sleep: SLEEP_INTERVAL }
            &&& second == Outcome::Playing { sleep: SLEEP_INTERVAL }
            &&& resumed.cur_index == r.cur_index
            &&& resumed.time_playing == r.time_playing
            &&& resumed.notes == r.notes
            &&& !r.wave_is_cosine ==> resumed.console.display.rows == note_frame(
                note,
                r.console.display.rate,
                r.console.display.height,
            )
            &&& r.wave_is_cosine ==> resumed.wave_request == note.freq
        }),
{
    lemma_react_all_keeps_the_display(r.console, pause);
    lemma_react_all_keeps_the_display(react_all(r.console, pause), resume);
}

} // verus!
