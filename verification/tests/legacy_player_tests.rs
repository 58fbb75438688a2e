use tempest_lcd::gui::{Color, CosineSample, Event, Gui, Key};
use tempest_lcd::legacy_player::LegacyPlayer;
use tempest_lcd::parser::{parse_file_contents, Note};
use tempest_lcd::schedule::{Input, Outcome, SLEEP_INTERVAL};

const MS: u64 = 1_000_000;
const PLAYING: Outcome = Outcome::Playing { sleep: SLEEP_INTERVAL };
const PAUSED: Outcome = Outcome::Paused { sleep: SLEEP_INTERVAL };

fn hz(hertz: u64) -> u64 {
    hertz * 1_000_000
}

/// A display of 100 rows a second, 8 rows high.
fn small() -> Gui {
    Gui::create(hz(100), 4, 8).unwrap()
}

fn tone(hertz: u64, millis: u64) -> Note {
    Note { freq: Some(hz(hertz)), duration: millis }
}

fn rest(millis: u64) -> Note {
    Note { freq: None, duration: millis }
}

fn frame_of(note: &Note) -> Vec<Color> {
    let mut gui = small();
    match note.freq {
        Some(freq) => gui.draw_single_square_wave(freq),
        None => gui.clear_and_present(Color::black()),
    }
    gui.rows().clone()
}

fn black_frame() -> Vec<Color> {
    vec![Color { r: 0, g: 0, b: 0 }; 8]
}

fn score() -> Vec<Note> {
    vec![tone(25, 10), tone(50, 20), rest(10), tone(10, 5)]
}

fn started(notes: Vec<Note>) -> LegacyPlayer {
    let mut player = LegacyPlayer::create(small(), false);
    player.begin(notes, &vec![]);
    player
}

fn turn(events: Vec<Event>, elapsed: u64) -> Input {
    Input { events, elapsed, samples: vec![] }
}

#[test]
fn the_sleep_between_turns_is_five_milliseconds() {
    assert_eq!(SLEEP_INTERVAL, 5 * MS);
}

#[test]
fn a_new_player_is_idle() {
    let mut player = LegacyPlayer::create(small(), false);
    assert!(!player.running() && !player.paused());
    assert_eq!(player.cur_index(), 0);
    assert_eq!(player.wave_request(), None);
    assert_eq!(player.gui().presents(), 1);
    assert_eq!(player.step(&vec![]), Outcome::Finished);
    assert!(!player.running());
}

#[test]
fn an_empty_score_starts_nothing() {
    let mut player = LegacyPlayer::create(small(), false);
    player.begin(vec![], &vec![Event::FocusGained]);
    assert!(!player.running());
    assert_eq!(player.gui().presents(), 1);
    player.run(vec![], &vec![turn(vec![Event::FocusGained], 0)]);
    assert!(!player.running());
    assert_eq!(player.gui().presents(), 1);
}

#[test]
fn a_running_player_is_not_started_again() {
    let mut player = started(score());
    player.step(&vec![]);
    player.credit(11 * MS);
    player.step(&vec![]);
    assert_eq!(player.cur_index(), 1);
    let presents = player.gui().presents();
    player.begin(vec![rest(1)], &vec![]);
    assert_eq!(player.cur_index(), 1);
    assert_eq!(player.gui().presents(), presents);
    assert_eq!(*player.gui().rows(), frame_of(&score()[1]));
    player.run(vec![rest(1)], &vec![turn(vec![], 0), turn(vec![Event::Quit], 0)]);
    assert!(player.running());
}

#[test]
fn the_first_note_is_drawn_after_the_first_events() {
    let mut player = LegacyPlayer::create(small(), false);
    player.begin(score(), &vec![Event::Shown, Event::FocusGained]);
    assert!(player.running() && !player.paused());
    assert_eq!(player.cur_index(), 0);
    assert_eq!(*player.gui().rows(), frame_of(&score()[0]));
    // grey at first, blanked twice, then the note
    assert_eq!(player.gui().presents(), 4);
}

#[test]
fn a_note_ends_when_more_than_its_time_was_credited() {
    let mut player = started(score());
    assert_eq!(player.step(&vec![]), PLAYING);
    player.credit(10 * MS);
    // exactly the length of the note is not yet more than it
    assert_eq!(player.step(&vec![]), PLAYING);
    assert_eq!(player.cur_index(), 0);
    player.credit(1);
    assert_eq!(player.step(&vec![]), PLAYING);
    assert_eq!(player.cur_index(), 1);
    assert_eq!(*player.gui().rows(), frame_of(&score()[1]));
}

#[test]
fn the_score_is_played_to_its_end() {
    let mut player = started(score());
    let mut shown = vec![player.gui().rows().clone()];
    let mut turns = 0;
    loop {
        let presents = player.gui().presents();
        match player.step(&vec![]) {
            Outcome::Finished => break,
            Outcome::Paused { .. } => panic!("paused"),
            Outcome::Playing { sleep } => assert_eq!(sleep, SLEEP_INTERVAL),
        }
        if player.gui().presents() != presents {
            shown.push(player.gui().rows().clone());
        }
        player.credit(6 * MS);
        turns += 1;
    }
    let wanted: Vec<Vec<Color>> = score().iter().map(frame_of).collect();
    assert_eq!(shown, wanted);
    // turns of 6 ms: 10 ms take two turns, 20 ms four, 10 ms two, 5 ms one
    assert_eq!(turns, 2 + 4 + 2 + 1);
    assert!(!player.running());
    assert_eq!(player.step(&vec![]), Outcome::Finished);
}

#[test]
fn a_rest_blanks_the_picture() {
    let mut player = started(vec![tone(25, 1), rest(1), tone(25, 1)]);
    player.step(&vec![]);
    player.credit(2 * MS);
    player.step(&vec![]);
    assert_eq!(player.cur_index(), 1);
    assert_eq!(*player.gui().rows(), black_frame());
}

#[test]
fn quitting_ends_the_piece() {
    for event in [Event::Quit, Event::WindowClosed, Event::KeyDown(Key::Q)] {
        let mut player = started(score());
        assert_eq!(player.step(&vec![event]), Outcome::Finished);
        assert!(!player.running());
        assert_eq!(player.cur_index(), 0);
        assert_eq!(player.step(&vec![Event::KeyDown(Key::P)]), Outcome::Finished);
        assert!(!player.running());
    }
}

#[test]
fn a_pause_holds_the_note_and_the_time() {
    let mut player = started(score());
    player.step(&vec![]);
    player.credit(9 * MS);
    assert_eq!(player.step(&vec![Event::KeyDown(Key::P)]), PAUSED);
    assert!(player.paused());
    assert_eq!(*player.gui().rows(), black_frame());
    for _ in 0..5 {
        assert_eq!(player.step(&vec![]), PAUSED);
    }
    assert_eq!(player.cur_index(), 0);
    assert_eq!(player.step(&vec![Event::KeyDown(Key::Space)]), PLAYING);
    assert!(!player.paused());
    assert_eq!(player.cur_index(), 0);
    assert_eq!(*player.gui().rows(), frame_of(&score()[0]));
    // 9 ms were on the note before the pause: 2 ms more end it
    player.credit(2 * MS);
    player.step(&vec![]);
    assert_eq!(player.cur_index(), 1);
}

#[test]
fn pause_and_resume_bring_back_the_same_frame() {
    for note in [tone(25, 100), tone(7, 100), rest(100)] {
        let mut player = started(vec![note, tone(50, 100)]);
        player.step(&vec![]);
        player.credit(3 * MS);
        let before = player.gui().rows().clone();
        assert_eq!(player.step(&vec![Event::FocusLost]), PAUSED);
        assert_eq!(player.step(&vec![Event::FocusGained]), PAUSED);
        assert_eq!(player.step(&vec![Event::KeyDown(Key::P)]), PLAYING);
        assert_eq!(*player.gui().rows(), before);
        assert_eq!(player.cur_index(), 0);
    }
}

#[test]
fn a_blanked_picture_stays_blank_until_the_next_note() {
    let mut player = started(score());
    assert_eq!(player.step(&vec![Event::Exposed]), PLAYING);
    assert_eq!(*player.gui().rows(), black_frame());
    player.credit(11 * MS);
    player.step(&vec![]);
    assert_eq!(*player.gui().rows(), frame_of(&score()[1]));
}

#[test]
fn a_note_that_is_over_ends_in_the_step_that_resumes() {
    let mut player = started(score());
    player.step(&vec![]);
    player.credit(11 * MS);
    assert_eq!(player.step(&vec![Event::KeyDown(Key::P)]), PAUSED);
    assert_eq!(player.cur_index(), 0);
    assert_eq!(player.step(&vec![Event::KeyDown(Key::P)]), PLAYING);
    assert_eq!(player.cur_index(), 1);
    assert_eq!(*player.gui().rows(), frame_of(&score()[1]));
}

#[test]
fn a_cosine_wave_is_asked_for() {
    let mut player = LegacyPlayer::create(small(), true);
    player.begin(vec![tone(25, 10), rest(10), tone(50, 10)], &vec![]);
    assert_eq!(player.wave_request(), Some(hz(25)));
    // nothing was drawn yet
    assert_eq!(player.gui().presents(), 1);
    let samples: Vec<CosineSample> =
        (0..8).map(|y| CosineSample { amplitude: 0, dither: y * 1_000_000 }).collect();
    player.draw_cosine(&samples);
    assert_eq!(player.wave_request(), None);
    assert_eq!(player.gui().presents(), 2);
    assert_eq!(player.gui().rows()[3], Color { r: 131, g: 131, b: 131 });
    // without a request nothing is drawn
    player.draw_cosine(&samples);
    assert_eq!(player.gui().presents(), 2);
    assert_eq!(player.step(&vec![]), PLAYING);
    assert_eq!(player.wave_request(), None);
    player.credit(11 * MS);
    player.step(&vec![]);
    // the rest is drawn by the player itself
    assert_eq!(player.wave_request(), None);
    assert_eq!(*player.gui().rows(), black_frame());
    player.credit(11 * MS);
    player.step(&vec![]);
    assert_eq!(player.wave_request(), Some(hz(50)));
    // a request that is not answered is dropped by the next step
    player.step(&vec![]);
    assert_eq!(player.wave_request(), None);
}

#[test]
fn a_cosine_wave_is_asked_for_again_after_a_pause() {
    let mut player = LegacyPlayer::create(small(), true);
    player.begin(vec![tone(25, 10)], &vec![]);
    player.draw_cosine(&vec![]);
    player.step(&vec![Event::KeyDown(Key::P)]);
    assert_eq!(player.wave_request(), None);
    assert_eq!(player.step(&vec![Event::KeyDown(Key::P)]), PLAYING);
    assert_eq!(player.wave_request(), Some(hz(25)));
}

#[test]
fn a_recorded_session_is_played_turn_by_turn() {
    let notes = score();
    let session = vec![
        turn(vec![Event::Shown], 0),
        turn(vec![], 6 * MS),
        turn(vec![], 6 * MS),
        turn(vec![], 6 * MS),
    ];
    let mut replayed = LegacyPlayer::create(small(), false);
    replayed.run(notes.clone(), &session);
    let mut stepped = LegacyPlayer::create(small(), false);
    stepped.begin(notes, &vec![Event::Shown]);
    for _ in 0..3 {
        assert_eq!(stepped.step(&vec![]), PLAYING);
        stepped.credit(6 * MS);
    }
    assert!(replayed.running());
    assert_eq!(replayed.cur_index(), 1);
    assert_eq!(replayed.cur_index(), stepped.cur_index());
    assert_eq!(replayed.gui().rows(), stepped.gui().rows());
    assert_eq!(replayed.gui().presents(), stepped.gui().presents());
}

#[test]
fn a_recorded_session_ends_with_the_piece() {
    let mut session = vec![turn(vec![], 0)];
    for _ in 0..20 {
        session.push(turn(vec![], 6 * MS));
    }
    let mut player = LegacyPlayer::create(small(), false);
    player.run(score(), &session);
    assert!(!player.running());
    assert_eq!(*player.gui().rows(), frame_of(&score()[3]));
    // one present at the start and one for each note
    assert_eq!(player.gui().presents(), 5);
}

#[test]
fn a_recorded_session_stops_at_a_quit() {
    let session = vec![
        turn(vec![], 0),
        turn(vec![], 11 * MS),
        turn(vec![Event::Quit], 11 * MS),
        turn(vec![], 50 * MS),
        turn(vec![], 50 * MS),
    ];
    let mut player = LegacyPlayer::create(small(), false);
    player.run(score(), &session);
    assert!(!player.running());
    assert_eq!(player.cur_index(), 0);
}

#[test]
fn a_recorded_pause_credits_no_time() {
    let session = vec![
        turn(vec![], 0),
        turn(vec![Event::KeyDown(Key::P)], 60_000 * MS),
        turn(vec![], 60_000 * MS),
        turn(vec![Event::KeyDown(Key::P)], 1 * MS),
        turn(vec![], 1 * MS),
    ];
    let mut player = LegacyPlayer::create(small(), false);
    player.run(score(), &session);
    assert!(player.running() && !player.paused());
    assert_eq!(player.cur_index(), 0);
    assert_eq!(*player.gui().rows(), frame_of(&score()[0]));
}

#[test]
fn a_recorded_session_answers_cosine_requests() {
    let samples = vec![CosineSample { amplitude: 1_000_000, dither: 0 }; 8];
    let session = vec![Input { events: vec![], elapsed: 0, samples: samples.clone() }];
    let mut player = LegacyPlayer::create(small(), true);
    player.run(vec![tone(25, 10)], &session);
    assert_eq!(player.wave_request(), None);
    assert_eq!(*player.gui().rows(), vec![Color { r: 255, g: 255, b: 255 }; 8]);
    let mut silent = LegacyPlayer::create(small(), true);
    silent.run(vec![tone(25, 10)], &vec![]);
    assert!(silent.running());
    assert_eq!(silent.wave_request(), Some(hz(25)));
}

#[test]
fn a_parsed_score_is_played() {
    let notes = parse_file_contents("150\na2 r c#3").unwrap();
    let mut player = LegacyPlayer::create(Gui::create(hz(67_500), 16, 64).unwrap(), false);
    player.begin(notes.clone(), &vec![]);
    let mut check = Gui::create(hz(67_500), 16, 64).unwrap();
    check.draw_single_square_wave(110_000_000);
    assert_eq!(player.gui().rows(), check.rows());
    let mut turns = 0;
    while player.step(&vec![]) != Outcome::Finished {
        player.credit(SLEEP_INTERVAL);
        turns += 1;
    }
    // each note lasts 400 ms and ends in the first turn after more than that
    assert_eq!(turns, 3 * 81);
}

#[test]
fn a_player_that_has_finished_can_play_again() {
    let mut player = started(vec![tone(25, 1)]);
    player.step(&vec![]);
    player.credit(2 * MS);
    assert_eq!(player.step(&vec![]), Outcome::Finished);
    assert!(!player.running());
    player.begin(score(), &vec![]);
    assert!(player.running());
    assert_eq!(player.cur_index(), 0);
    assert_eq!(*player.gui().rows(), frame_of(&score()[0]));
    // the time of the piece before is not carried over
    player.credit(9 * MS);
    assert_eq!(player.step(&vec![]), PLAYING);
    assert_eq!(player.cur_index(), 0);
}
