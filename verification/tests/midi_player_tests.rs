use tempest_lcd::gui::{Color, Event, Gui, Key};
use tempest_lcd::midi_pitch::{midi_number_to_freq, MIDI_FREQUENCIES};
use tempest_lcd::midi_player::{
    get_tick_duration, Format, Fps, MidiPlayer, PlayerError, PlayerErrorKind, Smf, Timing,
    ToneSet, TrackEvent, TrackEventKind, DEFAULT_MICROSEC_PER_QUARTER,
};
use tempest_lcd::schedule::{Input, Outcome, SLEEP_INTERVAL};

const PAUSED: Outcome = Outcome::Paused { sleep: SLEEP_INTERVAL };

fn hz(hertz: u64) -> u64 {
    hertz * 1_000_000
}

/// A display of 64 000 rows a second, 32 rows high.
fn small() -> Gui {
    Gui::create(hz(64_000), 4, 32).unwrap()
}

fn on(delta: u32, key: u8) -> TrackEvent {
    TrackEvent { delta, kind: TrackEventKind::NoteOn { key, vel: 64 } }
}

fn off(delta: u32, key: u8) -> TrackEvent {
    TrackEvent { delta, kind: TrackEventKind::NoteOff { key } }
}

fn tempo(delta: u32, microsec_per_quarter: u32) -> TrackEvent {
    TrackEvent { delta, kind: TrackEventKind::Tempo(microsec_per_quarter) }
}

fn other(delta: u32) -> TrackEvent {
    TrackEvent { delta, kind: TrackEventKind::Other }
}

/// 1000 ticks in a quarter note: a tick of 500 microseconds at the default tempo.
fn smf(format: Format, tracks: Vec<Vec<TrackEvent>>) -> Smf {
    Smf { format, timing: Timing::Metrical(1000), tracks }
}

const TICK: u64 = 500_000;

fn started(format: Format, tracks: Vec<Vec<TrackEvent>>) -> MidiPlayer {
    let mut player = MidiPlayer::create(small(), false);
    player.begin(smf(format, tracks), &vec![]).unwrap();
    player
}

fn chord(keys: &[u8]) -> Vec<Color> {
    let mut gui = small();
    let freqs: Vec<u64> = keys.iter().map(|k| MIDI_FREQUENCIES[*k as usize]).collect();
    gui.draw_square_waves(&freqs);
    gui.rows().clone()
}

fn gray_frame() -> Vec<Color> {
    vec![Color { r: 128, g: 128, b: 128 }; 32]
}

fn black_frame() -> Vec<Color> {
    vec![Color { r: 0, g: 0, b: 0 }; 32]
}

/// One step without events, then the credit of a turn of `ticks` ticks.
fn play(player: &mut MidiPlayer, ticks: u64) -> Outcome {
    let outcome = player.step(&vec![]).unwrap();
    if let Outcome::Playing { .. } = outcome {
        player.credit(ticks * player.tick_duration());
    }
    outcome
}

fn turn(events: Vec<Event>, elapsed: u64) -> Input {
    Input { events, elapsed, samples: vec![] }
}

#[test]
fn tick_duration_follows_the_tempo() {
    let timing = Timing::Metrical(480);
    let tick = get_tick_duration(timing, 500_000).unwrap();
    assert_eq!(tick, 1_041_666);
    assert!((tick as f64 / 1000.0 - 1041.67).abs() < 0.01);
    let slower = get_tick_duration(timing, 600_000).unwrap();
    assert_eq!(slower, 1_250_000);
    assert!((slower as f64 / 1000.0 - 1250.0).abs() < 0.01);
    assert_eq!(DEFAULT_MICROSEC_PER_QUARTER, 500_000);
}

#[test]
fn tick_duration_of_a_timecode() {
    assert_eq!(get_tick_duration(Timing::Timecode(Fps::Fps24, 4), 500_000), Ok(10_416_666));
    assert_eq!(get_tick_duration(Timing::Timecode(Fps::Fps25, 40), 1), Ok(1_000_000));
    assert_eq!(get_tick_duration(Timing::Timecode(Fps::Fps30, 100), 0), Ok(333_333));
    // 30 / 1.001 frames a second
    let tick = get_tick_duration(Timing::Timecode(Fps::Fps29, 1), 500_000).unwrap();
    assert_eq!(tick, 33_366_666);
    assert!((tick as f64 - 1e9 / (30.0 / 1.001)).abs() < 1.0);
}

#[test]
fn tick_duration_is_rounded_down() {
    assert_eq!(get_tick_duration(Timing::Metrical(3), 1), Ok(333));
    assert_eq!(get_tick_duration(Timing::Metrical(3), 2), Ok(666));
    assert_eq!(get_tick_duration(Timing::Metrical(1), u32::MAX), Ok(u32::MAX as u64 * 1000));
    assert_eq!(get_tick_duration(Timing::Metrical(1000), 1), Ok(1));
}

#[test]
fn a_tick_of_no_length_is_refused() {
    let invalid = Err(PlayerErrorKind::InvalidTiming);
    assert_eq!(get_tick_duration(Timing::Metrical(0), 500_000), invalid);
    assert_eq!(get_tick_duration(Timing::Metrical(480), 0), invalid);
    assert_eq!(get_tick_duration(Timing::Metrical(1001), 1), invalid);
    assert_eq!(get_tick_duration(Timing::Timecode(Fps::Fps24, 0), 500_000), invalid);
    assert_eq!(get_tick_duration(Timing::Timecode(Fps::Fps30, 0), 500_000), invalid);
}

#[test]
fn frequencies_of_the_keys() {
    assert_eq!(midi_number_to_freq(69), Ok(440_000_000));
    assert_eq!(midi_number_to_freq(0), Ok(8_175_799));
    assert_eq!(midi_number_to_freq(60), Ok(261_625_600));
    assert_eq!(midi_number_to_freq(127), Ok(12_543_850_000));
    for key in 128..=255u8 {
        assert_eq!(midi_number_to_freq(key), Err(PlayerErrorKind::UnsupportedToneId));
    }
}

#[test]
fn the_keys_are_equal_tempered() {
    for key in 0..128u8 {
        let exact = 440e6 * 2f64.powf((key as f64 - 69.0) / 12.0);
        let table = midi_number_to_freq(key).unwrap() as f64;
        assert!((table - exact).abs() <= exact * 1e-6, "key {}", key);
    }
    for key in 0..116u8 {
        let low = midi_number_to_freq(key).unwrap() as f64;
        let high = midi_number_to_freq(key + 12).unwrap() as f64;
        assert!((high / low - 2.0).abs() < 1e-6);
    }
}

#[test]
fn a_tone_set() {
    let mut tones = ToneSet::new();
    assert!(tones.frequencies().is_empty());
    assert!(!tones.contains_key(69));
    tones.insert(69, 100);
    tones.insert(60, 1);
    tones.insert(127, 255);
    tones.insert(0, 9);
    assert!(tones.contains_key(69) && tones.contains_key(0) && tones.contains_key(127));
    assert!(!tones.contains_key(61) && !tones.contains_key(128) && !tones.contains_key(255));
    // from the lowest key up
    assert_eq!(tones.frequencies(), vec![8_175_799, 261_625_600, 440_000_000, 12_543_850_000]);
    assert!(tones.remove(60));
    assert!(!tones.remove(60));
    assert!(!tones.remove(200));
    assert_eq!(tones.frequencies(), vec![8_175_799, 440_000_000, 12_543_850_000]);
    tones.insert(69, 3);
    assert_eq!(tones.frequencies().len(), 3);
}

#[test]
fn a_new_timeline_player_is_idle() {
    let mut player = MidiPlayer::create(small(), true);
    assert!(!player.running() && !player.paused());
    assert_eq!(player.tick_duration(), 0);
    assert_eq!(player.step(&vec![]), Ok(Outcome::Finished));
    player.credit(1_000_000);
    assert_eq!(player.tick_duration(), 0);
    assert_eq!(*player.gui().rows(), gray_frame());
}

#[test]
fn a_timing_without_a_tick_starts_nothing() {
    let mut player = MidiPlayer::create(small(), false);
    let bad = Smf { format: Format::Parallel, timing: Timing::Metrical(0), tracks: vec![vec![on(0, 69)]] };
    assert_eq!(
        player.begin(bad, &vec![Event::FocusGained]),
        Err(PlayerError { kind: PlayerErrorKind::InvalidTiming, track: 0, event: 0 })
    );
    assert!(!player.running());
    assert_eq!(player.gui().presents(), 1);
}

#[test]
fn a_running_timeline_player_is_not_started_again() {
    let mut player = started(Format::SingleTrack, vec![vec![on(0, 69), off(10, 69)]]);
    play(&mut player, 1);
    let rows = player.gui().rows().clone();
    let again = Smf { format: Format::Parallel, timing: Timing::Metrical(0), tracks: vec![] };
    assert_eq!(player.begin(again, &vec![Event::Quit]), Ok(()));
    assert!(player.running());
    assert_eq!(player.tick_duration(), TICK);
    assert_eq!(*player.gui().rows(), rows);
}

#[test]
fn a_piece_begins_at_the_default_tempo() {
    let mut player = MidiPlayer::create(small(), false);
    let piece = Smf { format: Format::SingleTrack, timing: Timing::Metrical(480), tracks: vec![vec![]] };
    player.begin(piece, &vec![Event::Shown]).unwrap();
    assert!(player.running());
    assert_eq!(player.tick_duration(), 1_041_666);
    assert_eq!(*player.gui().rows(), black_frame());
}

#[test]
fn a_tone_sounds_from_its_start_to_its_end() {
    let mut player = started(Format::SingleTrack, vec![vec![on(0, 69), off(3, 69)]]);
    assert_eq!(*player.gui().rows(), gray_frame());
    assert_eq!(play(&mut player, 1), Outcome::Playing { sleep: TICK });
    assert_eq!(*player.gui().rows(), chord(&[69]));
    // the end is three ticks away: two ticks do not reach it
    play(&mut player, 1);
    play(&mut player, 1);
    assert_eq!(*player.gui().rows(), chord(&[69]));
    play(&mut player, 1);
    assert_eq!(*player.gui().rows(), black_frame());
    assert_eq!(player.step(&vec![]), Ok(Outcome::Finished));
}

#[test]
fn a_tone_of_no_velocity_ends_its_key() {
    let quiet = TrackEvent { delta: 0, kind: TrackEventKind::NoteOn { key: 69, vel: 0 } };
    let mut player = started(Format::SingleTrack, vec![vec![on(0, 69), on(0, 72), quiet, other(0)]]);
    play(&mut player, 1);
    play(&mut player, 1);
    assert_eq!(*player.gui().rows(), chord(&[69, 72]));
    play(&mut player, 1);
    assert_eq!(*player.gui().rows(), chord(&[72]));
}

#[test]
fn the_end_of_a_silent_tone_draws_nothing() {
    let mut player = started(Format::SingleTrack, vec![vec![on(0, 69), off(0, 70), off(0, 200), other(0)]]);
    play(&mut player, 1);
    let presents = player.gui().presents();
    play(&mut player, 1);
    play(&mut player, 1);
    assert_eq!(player.gui().presents(), presents);
    assert_eq!(*player.gui().rows(), chord(&[69]));
}

#[test]
fn a_sounding_tone_is_not_struck_again() {
    let mut player = started(Format::SingleTrack, vec![vec![on(0, 69), on(0, 69), off(0, 69), other(0)]]);
    play(&mut player, 1);
    let presents = player.gui().presents();
    play(&mut player, 1);
    assert_eq!(player.gui().presents(), presents);
    play(&mut player, 1);
    assert_eq!(*player.gui().rows(), black_frame());
}

#[test]
fn one_event_of_a_track_is_played_in_a_step() {
    let mut player = started(Format::SingleTrack, vec![vec![on(0, 60), on(0, 64), on(0, 67), other(0)]]);
    play(&mut player, 1);
    assert_eq!(*player.gui().rows(), chord(&[60]));
    play(&mut player, 1);
    assert_eq!(*player.gui().rows(), chord(&[60, 64]));
    play(&mut player, 1);
    assert_eq!(*player.gui().rows(), chord(&[60, 64, 67]));
}

#[test]
fn parallel_tracks_share_the_ticks() {
    let mut player = started(
        Format::Parallel,
        vec![vec![on(0, 60), off(4, 60)], vec![on(2, 64), off(4, 64)], vec![]],
    );
    play(&mut player, 1);
    assert_eq!(*player.gui().rows(), chord(&[60]));
    play(&mut player, 1);
    assert_eq!(*player.gui().rows(), chord(&[60]));
    play(&mut player, 1);
    assert_eq!(*player.gui().rows(), chord(&[60, 64]));
    play(&mut player, 2);
    assert_eq!(*player.gui().rows(), chord(&[60, 64]));
    play(&mut player, 2);
    assert_eq!(*player.gui().rows(), chord(&[64]));
    play(&mut player, 2);
    assert_eq!(*player.gui().rows(), black_frame());
    assert_eq!(play(&mut player, 1), Outcome::Finished);
    // the end of the tracks does not stop the player
    assert!(player.running());
}

#[test]
fn late_turns_are_credited_in_whole_ticks() {
    let mut player = started(Format::SingleTrack, vec![vec![on(10, 69), off(10, 69)]]);
    play(&mut player, 4);
    play(&mut player, 5);
    assert_eq!(*player.gui().rows(), gray_frame());
    // nine ticks are gone: a turn of three ticks passes the tenth
    play(&mut player, 3);
    assert_eq!(*player.gui().rows(), gray_frame());
    play(&mut player, 1);
    assert_eq!(*player.gui().rows(), chord(&[69]));
}

#[test]
fn the_sleep_makes_up_for_a_late_turn() {
    let mut player = started(Format::SingleTrack, vec![vec![on(1000, 69)]]);
    assert_eq!(player.step(&vec![]), Ok(Outcome::Playing { sleep: TICK }));
    // the turn took 1.3 ticks: one tick is credited, and 0.7 ticks are left to sleep
    player.credit(650_000);
    assert_eq!(player.step(&vec![]), Ok(Outcome::Playing { sleep: 350_000 }));
    // a turn shorter than a tick still counts as one tick
    player.credit(1);
    assert_eq!(player.step(&vec![]), Ok(Outcome::Playing { sleep: 499_999 }));
    // a turn of whole ticks leaves a whole tick to sleep
    player.credit(3 * TICK);
    assert_eq!(player.step(&vec![]), Ok(Outcome::Playing { sleep: TICK }));
    player.credit(0);
    assert_eq!(player.step(&vec![]), Ok(Outcome::Playing { sleep: TICK }));
    player.credit(u64::MAX);
    assert_eq!(
        player.step(&vec![]),
        Ok(Outcome::Playing { sleep: TICK - u64::MAX % TICK })
    );
}

#[test]
fn a_turn_shorter_than_a_tick_counts_as_one() {
    let mut player = started(Format::SingleTrack, vec![vec![on(3, 69), other(100)]]);
    for _ in 0..3 {
        player.step(&vec![]).unwrap();
        assert_eq!(*player.gui().rows(), gray_frame());
        player.credit(10);
    }
    player.step(&vec![]).unwrap();
    assert_eq!(*player.gui().rows(), chord(&[69]));
}

#[test]
fn a_change_of_tempo_changes_the_tick_at_once() {
    let mut player = started(Format::SingleTrack, vec![vec![tempo(0, 600_000), on(2, 69)]]);
    assert_eq!(player.tick_duration(), 500_000);
    // the sleep of this step was set before the change
    assert_eq!(player.step(&vec![]), Ok(Outcome::Playing { sleep: 500_000 }));
    assert_eq!(player.tick_duration(), 600_000);
    // 1.5 new ticks
    player.credit(900_000);
    assert_eq!(player.step(&vec![]), Ok(Outcome::Playing { sleep: 300_000 }));
    assert_eq!(*player.gui().rows(), gray_frame());
    player.credit(600_000);
    player.step(&vec![]).unwrap();
    assert_eq!(*player.gui().rows(), chord(&[69]));
}

#[test]
fn a_tempo_without_a_tick_stops_the_player() {
    let mut player = started(Format::Parallel, vec![vec![on(0, 60)], vec![other(0), tempo(0, 0)]]);
    play(&mut player, 1);
    assert_eq!(
        player.step(&vec![]),
        Err(PlayerError { kind: PlayerErrorKind::InvalidTiming, track: 1, event: 1 })
    );
    assert!(!player.running());
    assert_eq!(player.tick_duration(), TICK);
    assert_eq!(player.step(&vec![]), Ok(Outcome::Finished));
}

#[test]
fn a_key_without_a_frequency_stops_the_player() {
    let mut player = started(Format::SingleTrack, vec![vec![on(0, 69), on(1, 128), on(0, 70)]]);
    play(&mut player, 1);
    assert_eq!(
        player.step(&vec![]),
        Err(PlayerError { kind: PlayerErrorKind::UnsupportedToneId, track: 0, event: 1 })
    );
    assert!(!player.running());
    assert_eq!(*player.gui().rows(), chord(&[69]));
}

#[test]
fn sequential_tracks_are_pieces_of_their_own() {
    let mut player = started(
        Format::Sequential,
        vec![vec![tempo(0, 250_000), on(1, 60)], vec![], vec![on(0, 72), off(2, 72)]],
    );
    play(&mut player, 1);
    assert_eq!(player.tick_duration(), 250_000);
    play(&mut player, 1);
    assert_eq!(*player.gui().rows(), chord(&[60]));
    // the first track has ended: the empty track is passed over, and the third
    // begins at the default tempo with no tone sounding
    assert_eq!(player.step(&vec![]), Ok(Outcome::Playing { sleep: TICK }));
    assert_eq!(player.tick_duration(), TICK);
    assert_eq!(*player.gui().rows(), chord(&[72]));
    player.credit(2 * TICK);
    player.step(&vec![]).unwrap();
    assert_eq!(*player.gui().rows(), black_frame());
    player.credit(TICK);
    assert_eq!(player.step(&vec![]), Ok(Outcome::Finished));
}

#[test]
fn a_new_piece_does_not_inherit_the_ticks_of_the_last_turn() {
    let mut player = started(Format::Sequential, vec![vec![other(0)], vec![on(1, 72), other(100)]]);
    play(&mut player, 50);
    // the second track begins here, and its first event is one tick away
    player.step(&vec![]).unwrap();
    assert_eq!(*player.gui().rows(), gray_frame());
    player.credit(TICK);
    player.step(&vec![]).unwrap();
    assert_eq!(*player.gui().rows(), chord(&[72]));
}

#[test]
fn a_timeline_without_tracks_is_over_at_once() {
    for format in [Format::SingleTrack, Format::Parallel, Format::Sequential] {
        let mut player = started(format, vec![]);
        assert_eq!(player.step(&vec![]), Ok(Outcome::Finished));
        let mut empty = started(format, vec![vec![], vec![]]);
        assert_eq!(empty.step(&vec![]), Ok(Outcome::Finished));
    }
}

#[test]
fn quitting_ends_the_timeline() {
    for event in [Event::Quit, Event::WindowClosed, Event::KeyDown(Key::Q)] {
        let mut player = started(Format::Sequential, vec![vec![on(0, 69)], vec![on(0, 70)]]);
        assert_eq!(player.step(&vec![event]), Ok(Outcome::Finished));
        assert!(!player.running());
        assert_eq!(*player.gui().rows(), gray_frame());
        assert_eq!(player.step(&vec![]), Ok(Outcome::Finished));
        assert_eq!(*player.gui().rows(), gray_frame());
    }
}

#[test]
fn pause_and_resume_bring_back_the_same_chord() {
    let mut player = started(
        Format::Parallel,
        vec![vec![on(0, 60), off(50, 60)], vec![on(0, 64), off(50, 64)], vec![on(0, 67), off(50, 67)]],
    );
    play(&mut player, 1);
    let before = player.gui().rows().clone();
    assert_eq!(before, chord(&[60, 64, 67]));
    assert_eq!(player.step(&vec![Event::KeyDown(Key::Space)]), Ok(PAUSED));
    assert_eq!(*player.gui().rows(), black_frame());
    for _ in 0..3 {
        assert_eq!(player.step(&vec![]), Ok(PAUSED));
    }
    assert_eq!(player.step(&vec![Event::KeyDown(Key::Space)]), Ok(Outcome::Playing { sleep: TICK }));
    assert_eq!(*player.gui().rows(), before);
}

#[test]
fn a_pause_takes_no_ticks() {
    let mut player = started(Format::SingleTrack, vec![vec![on(0, 69), off(4, 69)]]);
    play(&mut player, 1);
    play(&mut player, 1);
    player.step(&vec![Event::FocusLost]).unwrap();
    player.credit(1000 * TICK);
    player.step(&vec![Event::KeyDown(Key::P)]).unwrap();
    // the credit during the pause counts like that of any turn; without it the
    // tone would still sound
    assert_eq!(*player.gui().rows(), black_frame());
    let mut held = started(Format::SingleTrack, vec![vec![on(0, 69), off(4, 69)]]);
    play(&mut held, 1);
    play(&mut held, 1);
    held.step(&vec![Event::FocusLost]).unwrap();
    held.step(&vec![Event::KeyDown(Key::P)]).unwrap();
    assert_eq!(*held.gui().rows(), chord(&[69]));
}

#[test]
fn a_recorded_timeline_session_is_played_turn_by_turn() {
    let tracks = vec![vec![on(0, 60), off(4, 60)], vec![on(2, 64), off(4, 64)]];
    let session = vec![
        turn(vec![Event::Shown], 0),
        turn(vec![], TICK),
        turn(vec![], TICK),
        turn(vec![Event::KeyDown(Key::P)], 99 * TICK),
        turn(vec![Event::KeyDown(Key::P)], TICK),
    ];
    let mut replayed = MidiPlayer::create(small(), false);
    assert_eq!(replayed.run(smf(Format::Parallel, tracks), &session), Ok(()));
    assert!(replayed.running() && !replayed.paused());
    assert_eq!(*replayed.gui().rows(), chord(&[60, 64]));
}

#[test]
fn a_recorded_session_reports_what_stops_it() {
    let tracks = vec![vec![on(0, 60), on(1, 130), on(1, 61)]];
    let session = vec![turn(vec![], 0), turn(vec![], TICK), turn(vec![], TICK), turn(vec![], TICK)];
    let mut player = MidiPlayer::create(small(), false);
    assert_eq!(
        player.run(smf(Format::SingleTrack, tracks), &session),
        Err(PlayerError { kind: PlayerErrorKind::UnsupportedToneId, track: 0, event: 1 })
    );
    assert!(!player.running());
    assert_eq!(*player.gui().rows(), chord(&[60]));
    let mut idle = MidiPlayer::create(small(), false);
    let bad = Smf { format: Format::Parallel, timing: Timing::Timecode(Fps::Fps25, 0), tracks: vec![] };
    assert_eq!(
        idle.run(bad, &session),
        Err(PlayerError { kind: PlayerErrorKind::InvalidTiming, track: 0, event: 0 })
    );
    assert!(!idle.running());
}

#[test]
fn a_recorded_session_ends_with_the_tracks() {
    let tracks = vec![vec![on(0, 60), off(1, 60)]];
    let mut session = vec![turn(vec![], 0)];
    for _ in 0..10 {
        session.push(turn(vec![], TICK));
    }
    let mut player = MidiPlayer::create(small(), false);
    assert_eq!(player.run(smf(Format::SingleTrack, tracks), &session), Ok(()));
    assert_eq!(*player.gui().rows(), black_frame());
    // grey at first, then the tone, then silence
    assert_eq!(player.gui().presents(), 3);
}
