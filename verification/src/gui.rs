//! The picture: which colour every row of a frame gets, and how the picture
//! reacts to what the window reports.
//!
//! A display draws its rows one after another, `rate` rows a second, so row
//! `y` is drawn `y / rate` seconds into the frame. A tone of frequency `f` has
//! gone through `y * f / rate` periods by then. Frequencies and the rate are
//! whole micro-hertz, so this is a fraction of two integers and every test on
//! it is exact.
//!
//! `Gui` holds the rows as they were last presented. Whoever owns the window
//! copies them to it when `Screen::presents` has changed.

use vstd::prelude::*;
use vstd::arithmetic::div_mod::*;
use vstd::seq_lib::to_multiset_remove;
use crate::rounding::{
    floor_div,
    lemma_floor_div_is,
    lemma_round_div_nonnegative,
    remainder,
    round_div,
    round_div_u128,
};

verus! {

/// The colour of one row.
#[derive(Debug, Clone, Copy, PartialEq, Eq, Structural)]
pub struct Color {
    pub r: u8,
    pub g: u8,
    pub b: u8,
}

/// The grey of a given brightness.
pub open spec fn shade(level: u8) -> Color {
    Color { r: level, g: level, b: level }
}

/// The colour of silence and of a row that is off.
pub open spec fn black() -> Color {
    shade(0)
}

/// The colour of a row that is on.
pub open spec fn white() -> Color {
    shade(255)
}

/// The colour of a window that has shown nothing yet.
pub open spec fn gray() -> Color {
    shade(128)
}

impl Color {
    /// The grey of a given brightness.
    pub fn gray_level(level: u8) -> (c: Color)
        ensures
            c == shade(level),
    {
        Color { r: level, g: level, b: level }
    }

    /// The colour of silence and of a row that is off.
    pub fn black() -> (c: Color)
        ensures
            c == black(),
    {
        Color::gray_level(0)
    }

    /// The colour of a row that is on.
    pub fn white() -> (c: Color)
        ensures
            c == white(),
    {
        Color::gray_level(255)
    }

    /// The colour of a window that has shown nothing yet.
    pub fn gray() -> (c: Color)
        ensures
            c == gray(),
    {
        Color::gray_level(128)
    }
}

/// A key of the keyboard, as far as the picture reacts to it.
#[derive(Debug, Clone, Copy, PartialEq, Eq, Structural)]
pub enum Key {
    Q,
    P,
    Space,
    Other,
}

/// What the window reports.
#[derive(Debug, Clone, Copy, PartialEq, Eq, Structural)]
pub enum Event {
    Quit,
    WindowClosed,
    FocusLost,
    FocusGained,
    Shown,
    Exposed,
    KeyDown(Key),
    Other,
}

/// One row of a cosine wave, in millionths: the cosine at that row, and the
/// noise that is added to it before it is rounded to a brightness.
#[derive(Debug, Clone, Copy, PartialEq, Eq, Structural)]
pub struct CosineSample {
    pub amplitude: i32,
    pub dither: i32,
}

/// A display and what it shows.
pub struct Screen {
    /// Rows drawn per second, in millionths.
    pub rate: int,
    pub width: int,
    pub height: int,
    /// The colour of every row, from the top.
    pub rows: Seq<Color>,
    /// Frames presented so far; the count starts again after `u64::MAX`.
    pub presents: int,
}

impl Screen {
    /// The display after it has presented a frame.
    pub open spec fn show(self, rows: Seq<Color>) -> Screen {
        Screen {
            rows,
            presents: if self.presents == u64::MAX {
                0
            } else {
                self.presents + 1
            },
            ..self
        }
    }

    /// The display after it has been cleared to one colour and presented.
    pub open spec fn cleared(self, color: Color) -> Screen {
        self.show(flat_frame(color, self.height))
    }
}

/// Where row `y` falls within a period of a tone: `phase / rate` of the way
/// through it.
pub open spec fn phase(y: int, freq: int, rate: int) -> int {
    remainder(y * freq, rate)
}

/// Row `y` of a square wave is on: the tone is in an even half-period there,
/// `floor(2 * (y / rate) * freq)` is even.
pub open spec fn square_on(y: int, freq: int, rate: int) -> bool {
    floor_div(2 * y * freq, rate) % 2 == 0
}

/// A frame of one colour.
pub open spec fn flat_frame(color: Color, height: int) -> Seq<Color> {
    Seq::new(height as nat, |y: int| color)
}

/// The frame of one square tone: white where the wave is on, black elsewhere.
pub open spec fn square_frame(freq: int, rate: int, height: int) -> Seq<Color> {
    Seq::new(
        height as nat,
        |y: int|
            if square_on(y, freq, rate) {
                white()
            } else {
                black()
            },
    )
}

/// The level of a chord at row `y`: one up for every tone that is on there,
/// one down for every tone that is off.
pub open spec fn level(y: int, freqs: Seq<u64>, rate: int) -> int
    decreases freqs.len(),
{
    if freqs.len() == 0 {
        0
    } else {
        level(y, freqs.drop_last(), rate) + if square_on(y, freqs.last() as int, rate) {
            1int
        } else {
            -1int
        }
    }
}

/// The brightness of a chord at row `y`: its level brought from `[-n, n]`
/// into `[0, 1]`, times 255, rounded. Meant for at least one tone.
pub open spec fn chord_intensity(y: int, freqs: Seq<u64>, rate: int) -> int {
    let n = freqs.len() as int;
    round_div(255 * (level(y, freqs, rate) + n), 2 * n)
}

/// The frame of a chord; black all over where no tone sounds.
pub open spec fn chord_frame(freqs: Seq<u64>, rate: int, height: int) -> Seq<Color> {
    if freqs.len() == 0 {
        flat_frame(black(), height)
    } else {
        Seq::new(height as nat, |y: int| shade(chord_intensity(y, freqs, rate) as u8))
    }
}

/// The brightness of a row of a cosine wave: `127.5 * (1 + amplitude) + dither`
/// rounded to the nearest integer and brought into `[0, 255]`. Both arguments
/// are in millionths.
pub open spec fn cosine_intensity(amplitude: int, dither: int) -> int {
    let doubled = 255 * (1_000_000 + amplitude) + 2 * dither;
    if doubled <= 0 {
        0
    } else if round_div(doubled, 2_000_000) >= 255 {
        255
    } else {
        round_div(doubled, 2_000_000)
    }
}

/// The frame of a cosine wave, from one sample for every row; rows without a
/// sample stay black.
pub open spec fn cosine_frame(samples: Seq<CosineSample>, height: int) -> Seq<Color> {
    Seq::new(
        height as nat,
        |y: int|
            if y < samples.len() {
                shade(cosine_intensity(samples[y].amplitude as int, samples[y].dither as int) as u8)
            } else {
                black()
            },
    )
}

/// Whether the program goes on, whether it is paused, and what it shows.
pub struct Console {
    pub display: Screen,
    pub running: bool,
    pub paused: bool,
}

/// The event blanks the picture: the window lost or gained the focus or came
/// into view, or a key paused the program.
pub open spec fn blanks(e: Event, paused: bool) -> bool {
    match e {
        Event::FocusLost | Event::FocusGained | Event::Shown | Event::Exposed => true,
        Event::KeyDown(Key::P) | Event::KeyDown(Key::Space) => !paused,
        _ => false,
    }
}

/// The event ends the program.
pub open spec fn quits(e: Event) -> bool {
    e == Event::Quit || e == Event::WindowClosed || e == Event::KeyDown(Key::Q)
}

/// The console after one event.
pub open spec fn react(c: Console, e: Event) -> Console {
    Console {
        display: if blanks(e, c.paused) {
            c.display.cleared(black())
        } else {
            c.display
        },
        running: c.running && !quits(e),
        paused: match e {
            Event::FocusLost => true,
            Event::KeyDown(Key::P) | Event::KeyDown(Key::Space) => !c.paused,
            _ => c.paused,
        },
    }
}

/// The console after a batch of events, taken in order.
pub open spec fn react_all(c: Console, events: Seq<Event>) -> Console
    decreases events.len(),
{
    if events.len() == 0 {
        c
    } else {
        react(react_all(c, events.drop_last()), events.last())
    }
}

/// The picture of a window.
pub struct Gui {
    horiz_refresh_rate: u64,
    res_x: i32,
    res_y: i32,
    rows: Vec<Color>,
    presents: u64,
}

impl View for Gui {
    type V = Screen;

    closed spec fn view(&self) -> Screen {
        Screen {
            rate: self.horiz_refresh_rate as int,
            width: self.res_x as int,
            height: self.res_y as int,
            rows: self.rows@,
            presents: self.presents as int,
        }
    }
}

impl Gui {
    #[verifier::type_invariant]
    spec fn well_formed(self) -> bool {
        &&& self.horiz_refresh_rate > 0
        &&& self.res_x >= 0
        &&& self.res_y >= 0
        &&& self.rows@.len() == self.res_y
    }

    /// The picture of a window of the given size on a display that draws
    /// `horiz_refresh_rate / 1_000_000` rows a second. It begins grey. There
    /// is none where the rate is zero or a side is longer than `i32::MAX`.
    pub fn create(horiz_refresh_rate: u64, res_x: u32, res_y: u32) -> (gui: Option<Gui>)
        ensures
            gui is Some <==> horiz_refresh_rate > 0 && res_x <= i32::MAX && res_y <= i32::MAX,
            gui matches Some(g) ==> g@ == (Screen {
                rate: horiz_refresh_rate as int,
                width: res_x as int,
                height: res_y as int,
                rows: flat_frame(gray(), res_y as int),
                presents: 1,
            }),
    {
        if horiz_refresh_rate == 0 || res_x > i32::MAX as u32 || res_y > i32::MAX as u32 {
            return None;
        }
        let rows = flat_rows(Color::gray(), res_y as usize);
        Some(
            Gui { horiz_refresh_rate, res_x: res_x as i32, res_y: res_y as i32, rows, presents: 1 },
        )
    }

    /// Rows drawn per second, in millionths.
    pub fn horiz_refresh_rate(&self) -> (rate: u64)
        ensures
            rate == self@.rate,
            rate > 0,
    {
        proof {
            use_type_invariant(self);
        }
        self.horiz_refresh_rate
    }

    /// Width in pixels.
    pub fn res_x(&self) -> (width: i32)
        ensures
            width == self@.width,
            width >= 0,
    {
        proof {
            use_type_invariant(self);
        }
        self.res_x
    }

    /// Height in rows.
    pub fn res_y(&self) -> (height: i32)
        ensures
            height == self@.height,
            height >= 0,
    {
        proof {
            use_type_invariant(self);
        }
        self.res_y
    }

    /// The colour of every row, from the top.
    pub fn rows(&self) -> (rows: &Vec<Color>)
        ensures
            rows@ == self@.rows,
            rows@.len() == self@.height,
    {
        proof {
            use_type_invariant(self);
        }
        &self.rows
    }

    /// Frames presented so far.
    pub fn presents(&self) -> (count: u64)
        ensures
            count == self@.presents,
    {
        self.presents
    }

    /// Presents a frame.
    fn present(&mut self, rows: Vec<Color>)
        requires
            rows@.len() == old(self)@.height,
        ensures
            final(self)@ == old(self)@.show(rows@),
    {
        proof {
            use_type_invariant(&*self);
        }
        self.rows = rows;
        self.presents = if self.presents == u64::MAX {
            0
        } else {
            self.presents + 1
        };
    }

    /// Fills the picture with one colour and presents it.
    pub fn clear_and_present(&mut self, clear_color: Color)
        ensures
            final(self)@ == old(self)@.cleared(clear_color),
    {
        proof {
            use_type_invariant(&*self);
        }
        let rows = flat_rows(clear_color, self.res_y as usize);
        self.present(rows);
    }

    /// Draws one square tone and presents it: row `y` is white where
    /// `floor(2 * (y / rate) * note_freq)` is even, and black elsewhere.
    pub fn draw_single_square_wave(&mut self, note_freq: u64)
        ensures
            final(self)@ == old(self)@.show(
                square_frame(note_freq as int, old(self)@.rate, old(self)@.height),
            ),
    {
        proof {
            use_type_invariant(&*self);
        }
        let height: usize = self.res_y as usize;
        let rate: u64 = self.horiz_refresh_rate;
        let mut rows: Vec<Color> = Vec::new();
        let mut y: usize = 0;
        while y < height
            invariant
                y <= height <= i32::MAX,
                rate > 0,
                rows@.len() == y,
                forall|k: int|
                    0 <= k < y ==> #[trigger] rows@[k] == if square_on(
                        k,
                        note_freq as int,
                        rate as int,
                    ) {
                        white()
                    } else {
                        black()
                    },
            decreases height - y,
        {
            let color = if row_is_on(y as u32, note_freq, rate) {
                Color::white()
            } else {
                Color::black()
            };
            rows.push(color);
            y += 1;
        }
        assert(rows@ =~= square_frame(note_freq as int, rate as int, height as int));
        self.present(rows);
    }

    /// Where every row falls within a period of a tone: row `y` is
    /// `phases[y] / rate` of the way through one, which is what the cosine of
    /// the row is to be taken of.
    pub fn cosine_phases(&self, note_freq: u64) -> (phases: Vec<u64>)
        ensures
            phases@.len() == self@.height,
            forall|y: int|
                0 <= y < phases@.len() ==> #[trigger] phases@[y] == phase(
                    y,
                    note_freq as int,
                    self@.rate,
                ),
    {
        proof {
            use_type_invariant(self);
        }
        let height: usize = self.res_y as usize;
        let rate: u64 = self.horiz_refresh_rate;
        let mut phases: Vec<u64> = Vec::new();
        let mut y: usize = 0;
        while y < height
            invariant
                y <= height <= i32::MAX,
                rate > 0,
                phases@.len() == y,
                forall|k: int|
                    0 <= k < y ==> #[trigger] phases@[k] == phase(k, note_freq as int, rate as int),
            decreases height - y,
        {
            phases.push(row_phase(y as u32, note_freq, rate));
            y += 1;
        }
        phases
    }

    /// Draws a cosine wave from one sample for every row and presents it:
    /// the brightness of a row is `127.5 * (1 + amplitude) + dither`, rounded
    /// and kept within a byte. A row without a sample stays black.
    pub fn draw_single_cosine_wave(&mut self, samples: &Vec<CosineSample>)
        ensures
            final(self)@ == old(self)@.show(cosine_frame(samples@, old(self)@.height)),
    {
        proof {
            use_type_invariant(&*self);
        }
        let height: usize = self.res_y as usize;
        let mut rows: Vec<Color> = Vec::new();
        let mut y: usize = 0;
        while y < height
            invariant
                y <= height <= i32::MAX,
                rows@.len() == y,
                forall|k: int|
                    0 <= k < y ==> #[trigger] rows@[k] == if k < samples@.len() {
                        shade(
                            cosine_intensity(
                                samples@[k].amplitude as int,
                                samples@[k].dither as int,
                            ) as u8,
                        )
                    } else {
                        black()
                    },
            decreases height - y,
        {
            let color = if y < samples.len() {
                Color::gray_level(cosine_level(samples[y]))
            } else {
                Color::black()
            };
            rows.push(color);
            y += 1;
        }
        assert(rows@ =~= cosine_frame(samples@, height as int));
        self.present(rows);
    }

    /// Draws a chord of square tones and presents it: the brightness of a row
    /// is the share of the tones that are on there. Without a tone the frame
    /// is black.
    pub fn draw_square_waves(&mut self, freqs: &[u64])
        ensures
            final(self)@ == old(self)@.show(
                chord_frame(freqs@, old(self)@.rate, old(self)@.height),
            ),
    {
        proof {
            use_type_invariant(&*self);
        }
        if freqs.len() == 0 {
            self.clear_and_present(Color::black());
            return ;
        }
        let height: usize = self.res_y as usize;
        let rate: u64 = self.horiz_refresh_rate;
        let mut rows: Vec<Color> = Vec::new();
        let mut y: usize = 0;
        while y < height
            invariant
                y <= height <= i32::MAX,
                rate > 0,
                freqs@.len() > 0,
                rows@.len() == y,
                forall|k: int|
                    0 <= k < y ==> #[trigger] rows@[k] == shade(
                        chord_intensity(k, freqs@, rate as int) as u8,
                    ),
            decreases height - y,
        {
            rows.push(Color::gray_level(chord_level(y as u32, freqs, rate)));
            y += 1;
        }
        assert(rows@ =~= chord_frame(freqs@, rate as int, height as int));
        self.present(rows);
    }

    /// Takes in what the window reported, in order. Closing the window, a
    /// quit request and `Q` stop the program. `P` and the space bar pause it
    /// or let it go on. Losing the focus pauses it. The picture goes black
    /// when the program is paused and when the window gains the focus or
    /// comes into view.
    pub fn handle_events(&mut self, events: &Vec<Event>, running: &mut bool, paused: &mut bool)
        ensures
            (Console { display: final(self)@, running: *final(running), paused: *final(paused) })
                == react_all(
                (Console { display: old(self)@, running: *old(running), paused: *old(paused) }),
                events@,
            ),
    {
        let ghost start = Console { display: self@, running: *running, paused: *paused };
        let mut i: usize = 0;
        while i < events.len()
            invariant
                i <= events.len(),
                (Console { display: self@, running: *running, paused: *paused }) == react_all(
                    start,
                    events@.subrange(0, i as int),
                ),
            decreases events.len() - i,
        {
            let ghost before = Console { display: self@, running: *running, paused: *paused };
            assert(events@.subrange(0, i + 1).drop_last() =~= events@.subrange(0, i as int));
            match events[i] {
                Event::Quit | Event::WindowClosed | Event::KeyDown(Key::Q) => {
                    *running = false;
                },
                Event::FocusLost => {
                    self.clear_and_present(Color::black());
                    *paused = true;
                },
                Event::FocusGained | Event::Shown | Event::Exposed => {
                    self.clear_and_present(Color::black());
                },
                Event::KeyDown(Key::P) | Event::KeyDown(Key::Space) => {
                    if !*paused {
                        self.clear_and_present(Color::black());
                        *paused = true;
                    } else {
                        *paused = false;
                    }
                },
                _ => {},
            }
            assert((Console { display: self@, running: *running, paused: *paused }) == react(
                before,
                events@[i as int],
            ));
            i += 1;
        }
        assert(events@.subrange(0, i as int) =~= events@);
    }
}

/// As many rows of one colour as the frame is high.
fn flat_rows(color: Color, height: usize) -> (rows: Vec<Color>)
    ensures
        rows@ == flat_frame(color, height as int),
{
    let mut rows: Vec<Color> = Vec::new();
    let mut y: usize = 0;
    while y < height
        invariant
            y <= height,
            rows@.len() == y,
            forall|k: int| 0 <= k < y ==> #[trigger] rows@[k] == color,
        decreases height - y,
    {
        rows.push(color);
        y += 1;
    }
    rows
}

/// Whether a square tone is on at row `y`.
pub fn row_is_on(y: u32, freq: u64, rate: u64) -> (on: bool)
    requires
        rate > 0,
    ensures
        on == square_on(y as int, freq as int, rate as int),
{
    let doubled: u128 = 2 * (y as u128);
    assert(doubled * freq <= 0x2_0000_0000 * 0x1_0000_0000_0000_0000) by (nonlinear_arith)
        requires
            0 <= doubled <= 0x2_0000_0000,
            0 <= freq <= 0x1_0000_0000_0000_0000,
    ;
    assert(doubled * freq == 2 * y * freq) by (nonlinear_arith)
        requires
            doubled == 2 * y,
    ;
    let half_periods: u128 = (doubled * (freq as u128)) / (rate as u128);
    half_periods % 2 == 0
}

/// Where row `y` falls within a period of a tone, as a share of `rate`.
pub fn row_phase(y: u32, freq: u64, rate: u64) -> (within: u64)
    requires
        rate > 0,
    ensures
        within == phase(y as int, freq as int, rate as int),
        within < rate,
{
    assert(y * freq <= 0x1_0000_0000 * 0x1_0000_0000_0000_0000) by (nonlinear_arith)
        requires
            0 <= y <= 0x1_0000_0000,
            0 <= freq <= 0x1_0000_0000_0000_0000,
    ;
    ((y as u128 * freq as u128) % (rate as u128)) as u64
}

/// The brightness of a chord at row `y`.
fn chord_level(y: u32, freqs: &[u64], rate: u64) -> (intensity: u8)
    requires
        rate > 0,
        freqs@.len() > 0,
    ensures
        intensity == chord_intensity(y as int, freqs@, rate as int),
{
    let n: usize = freqs.len();
    let mut on: usize = 0;
    let mut j: usize = 0;
    while j < n
        invariant
            j <= n,
            n == freqs@.len(),
            rate > 0,
            on <= j,
            level(y as int, freqs@.subrange(0, j as int), rate as int) == 2 * on - j,
        decreases n - j,
    {
        assert(freqs@.subrange(0, j + 1).drop_last() =~= freqs@.subrange(0, j as int));
        if row_is_on(y, freqs[j], rate) {
            on += 1;
        }
        j += 1;
    }
    assert(freqs@.subrange(0, n as int) =~= freqs@);
    // level + n == 2 * on
    let a: u128 = 255 * (2 * (on as u128));
    let b: u128 = 2 * (n as u128);
    let q: u128 = round_div_u128(a, b);
    proof {
        lemma_chord_intensity_is_byte(2 * on as int, n as int);
    }
    q as u8
}

/// A brightness computed from a level that lies within `[0, 2n]` fits a byte.
pub proof fn lemma_chord_intensity_is_byte(raised: int, n: int)
    requires
        n > 0,
        0 <= raised <= 2 * n,
    ensures
        0 <= round_div(255 * raised, 2 * n) <= 255,
{
    lemma_round_div_nonnegative(255 * raised, 2 * n);
    let q = round_div(255 * raised, 2 * n);
    lemma_fundamental_div_mod(2 * (255 * raised) + 2 * n, 2 * (2 * n));
    lemma_mod_bound(2 * (255 * raised) + 2 * n, 2 * (2 * n));
    if q >= 256 {
        assert((2 * (2 * n)) * q >= (2 * (2 * n)) * 256) by (nonlinear_arith)
            requires
                q >= 256,
                n > 0,
        ;
    }
}

/// The brightness of a row of a cosine wave.
pub fn cosine_level(sample: CosineSample) -> (intensity: u8)
    ensures
        intensity == cosine_intensity(sample.amplitude as int, sample.dither as int),
{
    let doubled: i64 = 255 * (1_000_000 + sample.amplitude as i64) + 2 * (sample.dither as i64);
    if doubled <= 0 {
        0
    } else {
        let q: u128 = round_div_u128(doubled as u128, 2_000_000);
        if q >= 255 {
            255
        } else {
            q as u8
        }
    }
}

/// The cosine of a tone is positive at row `y`: the row falls into the first
/// or the last quarter of a period.
pub open spec fn cosine_positive(y: int, freq: int, rate: int) -> bool {
    4 * phase(y, freq, rate) < rate || 4 * phase(y, freq, rate) > 3 * rate
}

/// The cosine of a tone is zero at row `y`: the row falls on the end of the
/// first or of the third quarter of a period.
pub open spec fn cosine_zero(y: int, freq: int, rate: int) -> bool {
    4 * phase(y, freq, rate) == rate || 4 * phase(y, freq, rate) == 3 * rate
}

/// A square tone is on in the first half of each of its periods, and off in
/// the second.
pub proof fn lemma_square_on_first_half(y: int, freq: int, rate: int)
    requires
        y >= 0,
        freq >= 0,
        rate > 0,
    ensures
        0 <= phase(y, freq, rate) < rate,
        square_on(y, freq, rate) <==> 2 * phase(y, freq, rate) < rate,
{
    let x = y * freq;
    let q = x / rate;
    let p = x % rate;
    lemma_fundamental_div_mod(x, rate);
    lemma_mod_bound(x, rate);
    assert(2 * y * freq == 2 * x) by (nonlinear_arith)
        requires
            x == y * freq,
    ;
    assert(2 * x == rate * (2 * q) + 2 * p) by (nonlinear_arith)
        requires
            x == rate * q + p,
    ;
    if 2 * p < rate {
        lemma_fundamental_div_mod_converse(2 * x, rate, 2 * q, 2 * p);
    } else {
        assert(2 * x == rate * (2 * q + 1) + (2 * p - rate)) by (nonlinear_arith)
            requires
                2 * x == rate * (2 * q) + 2 * p,
        ;
        lemma_fundamental_div_mod_converse(2 * x, rate, 2 * q + 1, 2 * p - rate);
    }
}

/// In the first and in the third quarter of a period a square tone is on
/// exactly where the cosine of the tone is positive. (In the second quarter
/// the square tone is on and the cosine negative; in the fourth it is the
/// other way round.)
pub proof fn lemma_square_agrees_with_cosine(y: int, freq: int, rate: int)
    requires
        y >= 0,
        freq >= 0,
        rate > 0,
        !cosine_zero(y, freq, rate),
        4 * phase(y, freq, rate) < rate || 2 * rate <= 4 * phase(y, freq, rate) < 3 * rate,
    ensures
        square_on(y, freq, rate) <==> cosine_positive(y, freq, rate),
{
    lemma_square_on_first_half(y, freq, rate);
}

/// A rest looks the same whatever was shown before it, and drawing it a second
/// time changes no row.
pub proof fn lemma_rest_is_idempotent(before: Screen, other: Screen)
    requires
        before.height == other.height,
    ensures
        before.cleared(black()).rows == flat_frame(black(), before.height),
        before.cleared(black()).rows == other.cleared(black()).rows,
        before.cleared(black()).cleared(black()).rows == before.cleared(black()).rows,
{
}

/// The level of a chord of `n` tones lies within `[-n, n]`, and differs from
/// `n` by an even number.
pub proof fn lemma_level_bounds(y: int, freqs: Seq<u64>, rate: int)
    ensures
        -freqs.len() <= level(y, freqs, rate) <= freqs.len(),
        (level(y, freqs, rate) + freqs.len()) % 2 == 0,
    decreases freqs.len(),
{
    if freqs.len() > 0 {
        lemma_level_bounds(y, freqs.drop_last(), rate);
    }
}

/// The brightness of a chord fits a byte.
pub proof fn lemma_chord_intensity_bounds(y: int, freqs: Seq<u64>, rate: int)
    requires
        freqs.len() > 0,
    ensures
        0 <= chord_intensity(y, freqs, rate) <= 255,
{
    lemma_level_bounds(y, freqs, rate);
    lemma_chord_intensity_is_byte(level(y, freqs, rate) + freqs.len(), freqs.len() as int);
}

/// Two tones give one of three levels at every row: both off, one on, or
/// both on. Brought into `[0, 1]` these are 0, 1/2 and 1, and the row is
/// black, of brightness 128, or white.
pub proof fn lemma_two_tone_levels(y: int, low: u64, high: u64, rate: int)
    ensures
        ({
            let l = level(y, seq![low, high], rate);
            let i = chord_intensity(y, seq![low, high], rate);
            ||| l == -2 && i == 0
            ||| l == 0 && i == 128
            ||| l == 2 && i == 255
        }),
{
    let both = seq![low, high];
    let one = seq![low];
    assert(both.drop_last() =~= one);
    assert(one.drop_last() =~= Seq::<u64>::empty());
    assert(level(y, Seq::<u64>::empty(), rate) == 0);
    assert(level(y, one, rate) == if square_on(y, low as int, rate) {
        1int
    } else {
        -1int
    });
    assert(level(y, both, rate) == level(y, one, rate) + if square_on(y, high as int, rate) {
        1int
    } else {
        -1int
    });
    assert(round_div(0, 4) == 0) by {
        lemma_fundamental_div_mod_converse(4, 8, 0, 4);
    }
    assert(round_div(510, 4) == 128) by {
        lemma_fundamental_div_mod_converse(1024, 8, 128, 0);
    }
    assert(round_div(1020, 4) == 255) by {
        lemma_fundamental_div_mod_converse(2044, 8, 255, 4);
    }
}

/// A chord of one tone is the square wave of that tone.
pub proof fn lemma_chord_of_one_tone(freq: u64, rate: int, height: int)
    ensures
        chord_frame(seq![freq], rate, height) == square_frame(freq as int, rate, height),
{
    let one = seq![freq];
    assert(one.drop_last() =~= Seq::<u64>::empty());
    assert(round_div(0, 2) == 0) by {
        lemma_floor_div_is(2, 4, 0, 2);
    }
    assert(round_div(510, 2) == 255) by {
        lemma_floor_div_is(1022, 4, 255, 2);
    }
    assert forall|y: int| 0 <= y < (height as nat) implies chord_frame(one, rate, height)[y]
        == square_frame(freq as int, rate, height)[y] by {
        assert(level(y, one, rate) == level(y, one.drop_last(), rate) + if square_on(
            y,
            freq as int,
            rate,
        ) {
            1int
        } else {
            -1int
        });
    }
    assert(chord_frame(one, rate, height) =~= square_frame(freq as int, rate, height));
}

/// Taking a tone out of a chord takes its share out of the level.
proof fn lemma_level_without(y: int, freqs: Seq<u64>, i: int, rate: int)
    requires
        0 <= i < freqs.len(),
    ensures
        level(y, freqs, rate) == level(y, freqs.remove(i), rate) + if square_on(
            y,
            freqs[i] as int,
            rate,
        ) {
            1int
        } else {
            -1int
        },
    decreases freqs.len(),
{
    if i == freqs.len() - 1 {
        assert(freqs.remove(i) =~= freqs.drop_last());
    } else {
        lemma_level_without(y, freqs.drop_last(), i, rate);
        assert(freqs.remove(i).drop_last() =~= freqs.drop_last().remove(i));
        assert(freqs.remove(i).last() == freqs.last());
    }
}

/// The level of a chord does not depend on the order in which its tones are
/// given.
pub proof fn lemma_level_ignores_order(y: int, one: Seq<u64>, other: Seq<u64>, rate: int)
    requires
        one.to_multiset() == other.to_multiset(),
    ensures
        one.len() == other.len(),
        level(y, one, rate) == level(y, other, rate),
        chord_intensity(y, one, rate) == chord_intensity(y, other, rate),
    decreases one.len(),
{
    one.to_multiset_ensures();
    other.to_multiset_ensures();
    if one.len() > 0 {
        let tone = one.last();
        assert(one.contains(tone));
        assert(one.to_multiset().count(tone) > 0);
        assert(other.to_multiset().count(tone) > 0);
        assert(other.contains(tone));
        let j = choose|j: int| 0 <= j < other.len() && other[j] == tone;
        assert(one.remove(one.len() - 1) =~= one.drop_last());
        to_multiset_remove(one, one.len() - 1);
        to_multiset_remove(other, j);
        lemma_level_ignores_order(y, one.drop_last(), other.remove(j), rate);
        lemma_level_without(y, other, j, rate);
    }
}

/// The frame of a chord does not depend on the order in which its tones are
/// given.
pub proof fn lemma_chord_ignores_order(one: Seq<u64>, other: Seq<u64>, rate: int, height: int)
    requires
        one.to_multiset() == other.to_multiset(),
    ensures
        chord_frame(one, rate, height) == chord_frame(other, rate, height),
{
    lemma_level_ignores_order(0, one, other, rate);
    assert forall|y: int| chord_intensity(y, one, rate) == chord_intensity(y, other, rate) by {
        lemma_level_ignores_order(y, one, other, rate);
    }
    assert(chord_frame(one, rate, height) =~= chord_frame(other, rate, height));
}

/// The first row of a square tone is white, so no tone looks like a rest.
pub proof fn lemma_tone_differs_from_rest(freq: int, rate: int, height: int)
    requires
        rate > 0,
        height > 0,
    ensures
        square_frame(freq, rate, height)[0] == white(),
        square_frame(freq, rate, height) != flat_frame(black(), height),
{
    assert(2 * 0 * freq == 0) by (nonlinear_arith);
    assert(flat_frame(black(), height)[0] == black());
}

/// Every tone of a chord is on in the first row.
proof fn lemma_level_at_top(freqs: Seq<u64>, rate: int)
    requires
        rate > 0,
    ensures
        level(0, freqs, rate) == freqs.len(),
    decreases freqs.len(),
{
    if freqs.len() > 0 {
        lemma_level_at_top(freqs.drop_last(), rate);
        assert(2 * 0 * (freqs.last() as int) == 0) by (nonlinear_arith);
    }
}

/// The first row of a chord is white, so no chord looks like a rest.
pub proof fn lemma_chord_differs_from_rest(freqs: Seq<u64>, rate: int, height: int)
    requires
        freqs.len() > 0,
        rate > 0,
        height > 0,
    ensures
        chord_frame(freqs, rate, height)[0] == white(),
        chord_frame(freqs, rate, height) != flat_frame(black(), height),
{
    lemma_level_at_top(freqs, rate);
    let n = freqs.len() as int;
    assert(round_div(255 * (n + n), 2 * n) == 255) by {
        lemma_fundamental_div_mod_converse(2 * (255 * (n + n)) + 2 * n, 4 * n, 255, 2 * n);
    }
}

/// No events leave the console as it is, and a batch of events is taken in
/// one after the other: what comes last is applied last.
pub proof fn lemma_react_all_in_order(c: Console, events: Seq<Event>, e: Event)
    ensures
        react_all(c, Seq::empty()) == c,
        react_all(c, events.push(e)) == react(react_all(c, events), e),
        react_all(c, seq![e]) == react(c, e),
{
    assert(events.push(e).drop_last() =~= events);
    assert(react_all(c, seq![e]) == react(react_all(c, seq![e].drop_last()), seq![e].last()));
}

/// A program that was told to stop is not set going again by any event, and
/// no event changes the size or the calibration of the display.
pub proof fn lemma_react_all_keeps_the_display(c: Console, events: Seq<Event>)
    ensures
        react_all(c, events).running ==> c.running,
        react_all(c, events).display.rate == c.display.rate,
        react_all(c, events).display.width == c.display.width,
        react_all(c, events).display.height == c.display.height,
    decreases events.len(),
{
    if events.len() > 0 {
        lemma_react_all_keeps_the_display(c, events.drop_last());
    }
}

} // verus!
