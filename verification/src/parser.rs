//! The text notation for scores.
//!
//! The first line of a score is its tempo in beats per minute, a positive
//! decimal number. Every later line holds note tokens separated by spaces. A
//! token is a note name (`a` to `g`, or `r` for a rest), for a note an optional
//! `#` and the octave digit, and an optional length letter: `w`, `h`, `q`, `e`,
//! `s` or `t` for a whole, half, quarter, eighth, sixteenth or thirty-second
//! note. Letters are read without regard to case, and what follows a complete
//! token is ignored.
//!
//! The grammar is ASCII, so the text is read byte by byte: a byte of a
//! character outside ASCII is never a letter, a digit or a separator.

use vstd::prelude::*;
use vstd::slice::slice_subrange;
use vstd::string::StringSliceAdditionalSpecFns;
use vstd::arithmetic::power::*;
use crate::pitch::{key_number, pitch_micro_hz, pitch_of};
use crate::rounding::{
    lemma_round_div_nearest,
    lemma_round_div_nonnegative,
    round_div,
    round_div_u128,
};

verus! {

/// Why a score was refused.
#[derive(Debug, Clone, Copy, PartialEq, Eq, Structural)]
pub enum ParseErrorKind {
    /// The tempo line is missing, is no decimal number, is not positive, or
    /// does not fit in 64 bits.
    FormatError,
    /// A token begins with something other than `a` to `g` or `r`.
    UnknownNoteName,
    /// A note ends before its octave digit.
    MissingOctave,
    /// Something other than a digit stands where the octave is expected.
    InvalidOctave,
    /// The length letter is none of `w`, `h`, `q`, `e`, `s`, `t`.
    UnknownDuration,
}

/// A refusal, with the place in the text where the offending line or token
/// begins, counted in bytes from the start.
#[derive(Debug, Clone, Copy, PartialEq, Eq, Structural)]
pub struct ParseError {
    pub kind: ParseErrorKind,
    pub offset: usize,
}

/// One note of a score.
#[derive(Debug, Clone, Copy, PartialEq, Eq)]
pub struct Note {
    /// Frequency in micro-hertz; `None` is a rest.
    pub freq: Option<u64>,
    /// Length in milliseconds.
    pub duration: u64,
}

/// A tempo as a fraction: `num / den` beats per minute.
pub struct Tempo {
    pub num: int,
    pub den: int,
}

/// A tempo in beats per minute, held as a fraction of two positive numbers.
#[derive(Debug, Clone, Copy)]
pub struct Bpm {
    num: u64,
    den: u64,
}

impl View for Bpm {
    type V = Tempo;

    closed spec fn view(&self) -> Tempo {
        Tempo { num: self.num as int, den: self.den as int }
    }
}

impl Bpm {
    #[verifier::type_invariant]
    spec fn positive(self) -> bool {
        self.num > 0 && self.den > 0
    }

    /// The tempo `num / den`, unless one of the two is zero.
    pub fn new(num: u64, den: u64) -> (bpm: Option<Bpm>)
        ensures
            bpm is Some <==> num > 0 && den > 0,
            bpm matches Some(t) ==> t@ == (Tempo { num: num as int, den: den as int }),
    {
        if num > 0 && den > 0 {
            Some(Bpm { num, den })
        } else {
            None
        }
    }

    /// A tempo of a whole number of beats per minute, unless that is zero.
    pub fn whole(beats: u64) -> (bpm: Option<Bpm>)
        ensures
            bpm is Some <==> beats > 0,
            bpm matches Some(t) ==> t@ == (Tempo { num: beats as int, den: 1 }),
    {
        Bpm::new(beats, 1)
    }

    /// The length in milliseconds of a note of `eighths / 8` quarter notes.
    pub fn note_millis(self, eighths: u8) -> (ms: u64)
        ensures
            ms == duration_ms(self@, eighths as int),
    {
        proof {
            use_type_invariant(self);
        }
        let per_minute: u128 = (eighths as u128) * 60000;
        assert(per_minute * self.den <= 15_300_000 * 0xffff_ffff_ffff_ffff) by (nonlinear_arith)
            requires
                0 <= per_minute <= 15_300_000,
                0 <= self.den <= 0xffff_ffff_ffff_ffff,
        ;
        let a: u128 = per_minute * (self.den as u128);
        let b: u128 = 8 * (self.num as u128);
        let q = round_div_u128(a, b);
        if q > u64::MAX as u128 {
            u64::MAX
        } else {
            q as u64
        }
    }
}

/// The byte is a decimal digit.
pub open spec fn is_digit(b: u8) -> bool {
    48 <= b <= 57
}

/// Semitones from A to the natural note that a letter names, within the octave
/// that runs from C up to B. `Ok(None)` is the rest.
pub open spec fn semitone_offset(name: char) -> Result<Option<i8>, ParseErrorKind> {
    if name == 'r' || name == 'R' {
        Ok(None)
    } else if name == 'b' || name == 'B' {
        Ok(Some(2i8))
    } else if name == 'a' || name == 'A' {
        Ok(Some(0i8))
    } else if name == 'g' || name == 'G' {
        Ok(Some(-2i8))
    } else if name == 'f' || name == 'F' {
        Ok(Some(-4i8))
    } else if name == 'e' || name == 'E' {
        Ok(Some(-5i8))
    } else if name == 'd' || name == 'D' {
        Ok(Some(-7i8))
    } else if name == 'c' || name == 'C' {
        Ok(Some(-9i8))
    } else {
        Err(ParseErrorKind::UnknownNoteName)
    }
}

/// Length of a note in eighths of a quarter note, from its length letter.
pub open spec fn duration_factor(letter: char) -> Result<u8, ParseErrorKind> {
    if letter == 'w' || letter == 'W' {
        Ok(32u8)
    } else if letter == 'h' || letter == 'H' {
        Ok(16u8)
    } else if letter == 'q' || letter == 'Q' {
        Ok(8u8)
    } else if letter == 'e' || letter == 'E' {
        Ok(4u8)
    } else if letter == 's' || letter == 'S' {
        Ok(2u8)
    } else if letter == 't' || letter == 'T' {
        Ok(1u8)
    } else {
        Err(ParseErrorKind::UnknownDuration)
    }
}

/// Milliseconds that `eighths / 8` quarter notes last at a tempo:
/// `eighths / 8 * 60000 / bpm`, rounded to the nearest integer, and `u64::MAX`
/// where that is larger.
pub open spec fn duration_ms(tempo: Tempo, eighths: int) -> u64 {
    let exact = round_div(eighths * 60000 * tempo.den, 8 * tempo.num);
    if exact <= u64::MAX {
        exact as u64
    } else {
        u64::MAX
    }
}

/// The length that a token states from byte `at` on: that of its length
/// letter, or a quarter note where the token ends there.
pub open spec fn stated_length(tempo: Tempo, token: Seq<u8>, at: int) -> Result<
    u64,
    ParseErrorKind,
> {
    let factor = if at < token.len() {
        duration_factor(token[at] as char)
    } else {
        Ok(8u8)
    };
    match factor {
        Ok(eighths) => Ok(duration_ms(tempo, eighths as int)),
        Err(e) => Err(e),
    }
}

/// What a token means at a tempo.
pub open spec fn note_of(tempo: Tempo, token: Seq<u8>) -> Result<Note, ParseErrorKind> {
    if token.len() == 0 {
        Err(ParseErrorKind::UnknownNoteName)
    } else {
        match semitone_offset(token[0] as char) {
            Err(e) => Err(e),
            Ok(None) => match stated_length(tempo, token, 1) {
                Ok(duration) => Ok(Note { freq: None, duration }),
                Err(e) => Err(e),
            },
            Ok(Some(offset)) => {
                let sharp: int = if token.len() > 1 && token[1] == 35 {
                    1
                } else {
                    0
                };
                let at = 1 + sharp;
                if token.len() <= at {
                    Err(ParseErrorKind::MissingOctave)
                } else if !is_digit(token[at]) {
                    Err(ParseErrorKind::InvalidOctave)
                } else {
                    let key = key_number(token[at] - 48, offset + sharp);
                    match stated_length(tempo, token, at + 1) {
                        Ok(duration) => Ok(Note { freq: Some(pitch_of(key) as u64), duration }),
                        Err(e) => Err(e),
                    }
                }
            },
        }
    }
}

/// Semitones from A to the note that a letter names: C is nine below, B two
/// above. `Ok(None)` is the rest, `r`.
pub fn semitone_offset_from_la(note_name: char) -> (r: Result<Option<i8>, ParseErrorKind>)
    ensures
        r == semitone_offset(note_name),
{
    match note_name {
        'r' | 'R' => Ok(None),
        'b' | 'B' => Ok(Some(2)),
        'a' | 'A' => Ok(Some(0)),
        'g' | 'G' => Ok(Some(-2)),
        'f' | 'F' => Ok(Some(-4)),
        'e' | 'E' => Ok(Some(-5)),
        'd' | 'D' => Ok(Some(-7)),
        'c' | 'C' => Ok(Some(-9)),
        _ => Err(ParseErrorKind::UnknownNoteName),
    }
}

/// Length of a note in eighths of a quarter note: 32 for a whole note down to
/// 1 for a thirty-second.
pub fn duration_factor_from_quarter(note_dur: char) -> (r: Result<u8, ParseErrorKind>)
    ensures
        r == duration_factor(note_dur),
{
    match note_dur {
        'w' | 'W' => Ok(32),
        'h' | 'H' => Ok(16),
        'q' | 'Q' => Ok(8),
        'e' | 'E' => Ok(4),
        's' | 'S' => Ok(2),
        't' | 'T' => Ok(1),
        _ => Err(ParseErrorKind::UnknownDuration),
    }
}

/// Reads the length of a note from byte `at` of its token.
fn parse_length(bpm: Bpm, token: &[u8], at: usize) -> (r: Result<u64, ParseErrorKind>)
    ensures
        r == stated_length(bpm@, token@, at as int),
{
    let eighths: u8 = if at < token.len() {
        match duration_factor_from_quarter(token[at] as char) {
            Ok(eighths) => eighths,
            Err(e) => {
                return Err(e);
            },
        }
    } else {
        8
    };
    Ok(bpm.note_millis(eighths))
}

/// Reads one token, given as bytes.
pub fn parse_note_bytes(bpm: Bpm, token: &[u8]) -> (r: Result<Note, ParseErrorKind>)
    ensures
        r == note_of(bpm@, token@),
{
    if token.len() == 0 {
        return Err(ParseErrorKind::UnknownNoteName);
    }
    let offset: i8 = match semitone_offset_from_la(token[0] as char) {
        Err(e) => {
            return Err(e);
        },
        Ok(None) => {
            return match parse_length(bpm, token, 1) {
                Ok(duration) => Ok(Note { freq: None, duration }),
                Err(e) => Err(e),
            };
        },
        Ok(Some(offset)) => offset,
    };
    let sharp: bool = token.len() > 1 && token[1] == 35;
    let at: usize = if sharp {
        2
    } else {
        1
    };
    let semitone: i8 = if sharp {
        offset + 1
    } else {
        offset
    };
    if token.len() <= at {
        return Err(ParseErrorKind::MissingOctave);
    }
    let digit: u8 = token[at];
    if digit < 48 || digit > 57 {
        return Err(ParseErrorKind::InvalidOctave);
    }
    let freq: u64 = pitch_micro_hz(digit - 48, semitone);
    match parse_length(bpm, token, at + 1) {
        Ok(duration) => Ok(Note { freq: Some(freq), duration }),
        Err(e) => Err(e),
    }
}

/// Reads one token: the note it names and how long it lasts at the tempo.
pub fn parse_note(bpm: Bpm, note: &str) -> (r: Result<Note, ParseErrorKind>)
    ensures
        r == note_of(bpm@, note.spec_bytes()),
{
    parse_note_bytes(bpm, note.as_bytes())
}

/// What a digit stands for; a byte that is no digit counts as zero.
pub open spec fn digit_value(b: u8) -> nat {
    if is_digit(b) {
        (b - 48) as nat
    } else {
        0
    }
}

/// The number that a run of digits writes.
pub open spec fn digits_value(s: Seq<u8>) -> nat
    decreases s.len(),
{
    if s.len() == 0 {
        0
    } else {
        digits_value(s.drop_last()) * 10 + digit_value(s.last())
    }
}

/// Every byte is a digit.
pub open spec fn all_digits(s: Seq<u8>) -> bool {
    forall|i: int| 0 <= i < s.len() ==> is_digit(#[trigger] s[i])
}

/// What stands before the first point of a number's text.
pub open spec fn whole_part(s: Seq<u8>) -> Seq<u8> {
    match s.index_of_first(46u8) {
        Some(p) => s.subrange(0, p),
        None => s,
    }
}

/// What stands after the first point of a number's text.
pub open spec fn fraction_part(s: Seq<u8>) -> Seq<u8> {
    match s.index_of_first(46u8) {
        Some(p) => s.subrange(p + 1, s.len() as int),
        None => Seq::empty(),
    }
}

/// The text is a decimal number: digits, with at most one point among, before
/// or after them.
pub open spec fn is_decimal(s: Seq<u8>) -> bool {
    &&& all_digits(whole_part(s))
    &&& all_digits(fraction_part(s))
    &&& whole_part(s).len() + fraction_part(s).len() > 0
}

/// The tempo that a text states: its digits over the power of ten that its
/// fraction calls for. `None` where the text is no decimal number, where the
/// number is zero, or where one of the two does not fit in 64 bits.
pub open spec fn tempo_of(s: Seq<u8>) -> Option<Tempo> {
    let num = digits_value(whole_part(s) + fraction_part(s)) as int;
    let den = pow(10, fraction_part(s).len());
    if is_decimal(s) && 0 < num <= u64::MAX && den <= u64::MAX {
        Some(Tempo { num, den })
    } else {
        None
    }
}

/// Byte `i` of a score parts two tokens: a space, a line feed, or a carriage
/// return directly before a line feed.
pub open spec fn is_separator(b: Seq<u8>, i: int) -> bool {
    b[i] == 32 || b[i] == 10 || (b[i] == 13 && i + 1 < b.len() && b[i + 1] == 10)
}

/// Where the token that begins at `i` ends: at the next separator, or with
/// the text.
pub open spec fn token_end(b: Seq<u8>, i: int) -> int
    decreases b.len() - i,
{
    if i >= b.len() || is_separator(b, i) {
        i
    } else {
        token_end(b, i + 1)
    }
}

/// The first line of a score without its line ending.
pub open spec fn tempo_line(b: Seq<u8>) -> Seq<u8> {
    match b.index_of_first(10u8) {
        Some(end) => if end > 0 && b[end - 1] == 13 {
            b.subrange(0, end - 1)
        } else {
            b.subrange(0, end)
        },
        None => b,
    }
}

/// Where the second line of a score begins; the end of the text where it has
/// one line only.
pub open spec fn notes_start(b: Seq<u8>) -> int {
    match b.index_of_first(10u8) {
        Some(end) => end + 1,
        None => b.len() as int,
    }
}

/// A token is a run of bytes that are no separators, as long as it can be:
/// it never ends before it begins, it holds no separator, and it ends at a
/// separator or with the text.
pub proof fn lemma_token_end_bounds(b: Seq<u8>, i: int)
    requires
        0 <= i <= b.len(),
    ensures
        i <= token_end(b, i) <= b.len(),
        i < b.len() && !is_separator(b, i) ==> i < token_end(b, i),
        forall|j: int| i <= j < token_end(b, i) ==> !is_separator(b, j),
        token_end(b, i) == b.len() || is_separator(b, token_end(b, i)),
    decreases b.len() - i,
{
    if i < b.len() && !is_separator(b, i) {
        lemma_token_end_bounds(b, i + 1);
    }
}

/// The notes of the tokens that begin at byte `i` or later, in the order of
/// the text; the first token that is no note refuses them all.
pub open spec fn notes_from(tempo: Tempo, b: Seq<u8>, i: int) -> Result<Seq<Note>, ParseError>
    decreases b.len() - i,
{
    if i < 0 || i >= b.len() {
        Ok(Seq::empty())
    } else if is_separator(b, i) {
        notes_from(tempo, b, i + 1)
    } else {
        proof {
            lemma_token_end_bounds(b, i);
        }
        let end = token_end(b, i);
        match note_of(tempo, b.subrange(i, end)) {
            Err(kind) => Err(ParseError { kind, offset: i as usize }),
            Ok(note) => match notes_from(tempo, b, end) {
                Ok(rest) => Ok(seq![note] + rest),
                Err(e) => Err(e),
            },
        }
    }
}

/// What a score means: its notes at the tempo of its first line.
pub open spec fn score_of(b: Seq<u8>) -> Result<Seq<Note>, ParseError> {
    match tempo_of(tempo_line(b)) {
        None => Err(ParseError { kind: ParseErrorKind::FormatError, offset: 0 }),
        Some(tempo) => notes_from(tempo, b, notes_start(b)),
    }
}

/// Where the length letter of a token stands: after the name of a rest, and
/// after the octave of a note, which follows the name or the sharp.
pub open spec fn length_letter_at(token: Seq<u8>) -> int {
    if semitone_offset(token[0] as char) == Ok::<Option<i8>, ParseErrorKind>(None) {
        1
    } else if token.len() > 1 && token[1] == 35 {
        3
    } else {
        2
    }
}

/// The length that a token states, in eighths of a quarter note: that of its
/// length letter, or 8 where it has none.
pub open spec fn length_in_eighths(token: Seq<u8>) -> int {
    let at = length_letter_at(token);
    if at >= token.len() {
        8
    } else {
        match duration_factor(token[at] as char) {
            Ok(eighths) => eighths as int,
            Err(_) => 0,
        }
    }
}

/// Every token that is a note or a rest lasts 4, 2, 1, 1/2, 1/4 or 1/8 quarter
/// notes as its length letter says, and its length in milliseconds is that
/// many times `60000 / bpm`, rounded.
pub proof fn lemma_every_note_has_its_rounded_length(tempo: Tempo, token: Seq<u8>)
    requires
        note_of(tempo, token) is Ok,
    ensures
        ({
            let eighths = length_in_eighths(token);
            &&& eighths == 32 || eighths == 16 || eighths == 8 || eighths == 4 || eighths == 2
                || eighths == 1
            &&& note_of(tempo, token)->Ok_0.duration == duration_ms(tempo, eighths)
        }),
{
}

/// The length of a note is the nearest whole number of milliseconds to
/// `eighths / 8 * 60000 / (num / den)`, the upper one where two are equally
/// near, as far as that fits in 64 bits.
pub proof fn lemma_duration_is_nearest_millisecond(tempo: Tempo, eighths: int)
    requires
        tempo.num > 0,
        tempo.den > 0,
        eighths >= 0,
        round_div(eighths * 60000 * tempo.den, 8 * tempo.num) <= u64::MAX,
    ensures
        ({
            let millis = duration_ms(tempo, eighths) as int;
            let exact_num = eighths * 60000 * tempo.den;
            let exact_den = 8 * tempo.num;
            2 * exact_den * millis - exact_den <= 2 * exact_num < 2 * exact_den * millis
                + exact_den
        }),
{
    let exact_num = eighths * 60000 * tempo.den;
    let exact_den = 8 * tempo.num;
    assert(exact_num >= 0) by (nonlinear_arith)
        requires
            exact_num == eighths * 60000 * tempo.den,
            eighths >= 0,
            tempo.den > 0,
    ;
    lemma_round_div_nonnegative(exact_num, exact_den);
    lemma_round_div_nearest(exact_num, exact_den, round_div(exact_num, exact_den));
}

/// Digits keep their place: a run of digits followed by another writes the
/// first number times ten to the length of the second, plus the second.
pub proof fn lemma_digits_value_concat(s: Seq<u8>, t: Seq<u8>)
    ensures
        digits_value(s + t) == digits_value(s) * pow(10, t.len()) + digits_value(t),
    decreases t.len(),
{
    let head = digits_value(s) as int;
    let place = pow(10, t.len());
    if t.len() == 0 {
        lemma_pow0(10);
        assert(head * place == head) by (nonlinear_arith)
            requires
                place == 1,
        ;
    } else {
        let front = t.drop_last();
        let before = pow(10, front.len());
        lemma_digits_value_concat(s, front);
        assert(s + t =~= (s + front).push(t.last()));
        lemma_digits_value_push(s + front, t.last());
        assert(place == 10 * before) by {
            reveal(pow);
        }
        assert((head * before + digits_value(front)) * 10 == head * place + digits_value(front)
            * 10) by (nonlinear_arith)
            requires
                place == 10 * before,
        ;
    }
}

/// One more digit at the end of a run.
proof fn lemma_digits_value_push(s: Seq<u8>, c: u8)
    ensures
        digits_value(s.push(c)) == digits_value(s) * 10 + digit_value(c),
{
    assert(s.push(c).drop_last() =~= s);
}

/// A run of digits writes no smaller number than any of its beginnings.
proof fn lemma_digits_value_prefix(s: Seq<u8>, t: Seq<u8>)
    ensures
        digits_value(s) <= digits_value(s + t),
    decreases t.len(),
{
    if t.len() == 0 {
    } else {
        lemma_digits_value_prefix(s, t.drop_last());
        assert(s + t =~= (s + t.drop_last()).push(t.last()));
        lemma_digits_value_push(s + t.drop_last(), t.last());
    }
}

/// Finds the first byte equal to `needle`.
fn find_byte(s: &[u8], needle: u8) -> (at: Option<usize>)
    ensures
        s@.index_of_first(needle) == match at {
            Some(i) => Some(i as int),
            None => None::<int>,
        },
        at matches Some(i) ==> i < s.len(),
{
    let mut i: usize = 0;
    while i < s.len()
        invariant
            i <= s.len(),
            forall|j: int| 0 <= j < i ==> s@[j] != needle,
        decreases s.len() - i,
    {
        if s[i] == needle {
            proof {
                s@.index_of_first_ensures(needle);
            }
            return Some(i);
        }
        i += 1;
    }
    proof {
        s@.index_of_first_ensures(needle);
    }
    None
}

/// The number that is written with one more digit at its end; `None` where it
/// does not fit in 64 bits.
fn append_digit(num: u64, digit: u8) -> (longer: Option<u64>)
    requires
        is_digit(digit),
    ensures
        match longer {
            Some(n) => n == num * 10 + digit_value(digit),
            None => num * 10 + digit_value(digit) > u64::MAX,
        },
{
    match num.checked_mul(10) {
        Some(tens) => tens.checked_add((digit - 48) as u64),
        None => None,
    }
}

impl Bpm {
    /// Reads a tempo from the text of a decimal number.
    pub fn parse(text: &[u8]) -> (bpm: Option<Bpm>)
        ensures
            match tempo_of(text@) {
                Some(tempo) => bpm matches Some(t) && t@ == tempo,
                None => bpm is None,
            },
    {
        let n: usize = text.len();
        let point: usize = match find_byte(text, 46) {
            Some(p) => p,
            None => n,
        };
        let ghost whole = whole_part(text@);
        let ghost frac = fraction_part(text@);
        let mut num: u64 = 0;
        let mut i: usize = 0;
        while i < point
            invariant
                i <= point <= n,
                n == text.len(),
                whole == whole_part(text@),
                frac == fraction_part(text@),
                whole == text@.subrange(0, point as int),
                all_digits(text@.subrange(0, i as int)),
                num == digits_value(text@.subrange(0, i as int)),
            decreases point - i,
        {
            let c: u8 = text[i];
            if c < 48 || c > 57 {
                assert(!is_digit(whole[i as int]));
                return None;
            }
            let ghost seen = text@.subrange(0, i as int);
            let ghost next = text@.subrange(0, i + 1);
            proof {
                assert(next =~= seen.push(c));
                lemma_digits_value_push(seen, c);
                assert(whole + frac =~= next + (whole.subrange(i + 1, point as int) + frac));
                lemma_digits_value_prefix(next, whole.subrange(i + 1, point as int) + frac);
            }
            num = match append_digit(num, c) {
                Some(longer) => longer,
                None => {
                    return None;
                },
            };
            i += 1;
        }
        let mut den: u64 = 1;
        proof {
            lemma_pow0(10);
        }
        if point < n {
            i = point + 1;
            while i < n
                invariant
                    point < i <= n,
                    n == text.len(),
                    whole == whole_part(text@),
                    frac == fraction_part(text@),
                    frac == text@.subrange(point + 1, n as int),
                    all_digits(text@.subrange(point + 1, i as int)),
                    num == digits_value(whole + text@.subrange(point + 1, i as int)),
                    den == pow(10, (i - point - 1) as nat),
                decreases n - i,
            {
                let c: u8 = text[i];
                if c < 48 || c > 57 {
                    assert(!is_digit(frac[i - point - 1]));
                    return None;
                }
                let ghost seen = text@.subrange(point + 1, i as int);
                let ghost next = text@.subrange(point + 1, i + 1);
                proof {
                    assert(whole + next =~= (whole + seen).push(c));
                    lemma_digits_value_push(whole + seen, c);
                    assert(whole + frac =~= (whole + next) + frac.subrange(
                        i - point,
                        frac.len() as int,
                    ));
                    lemma_digits_value_prefix(
                        whole + next,
                        frac.subrange(i - point, frac.len() as int),
                    );
                    reveal(pow);
                    lemma_pow_increases(10, (i - point) as nat, frac.len());
                }
                num = match append_digit(num, c) {
                    Some(longer) => longer,
                    None => {
                        return None;
                    },
                };
                den = match den.checked_mul(10) {
                    Some(tens) => tens,
                    None => {
                        return None;
                    },
                };
                i += 1;
            }
        }
        let digits: usize = if point < n {
            n - 1
        } else {
            n
        };
        if digits == 0 || num == 0 {
            return None;
        }
        proof {
            lemma_pow_positive(10, frac.len());
        }
        Some(Bpm { num, den })
    }
}

/// Reads a score: the tempo of the first line, then the notes of every token
/// of the lines after it, in the order of the text. The first token that is
/// no note refuses the whole score.
pub fn parse_file_contents(file_contents: &str) -> (r: Result<Vec<Note>, ParseError>)
    ensures
        match score_of(file_contents.spec_bytes()) {
            Ok(notes) => r matches Ok(v) && v@ == notes,
            Err(e) => r == Err::<Vec<Note>, ParseError>(e),
        },
{
    let b: &[u8] = file_contents.as_bytes();
    let n: usize = b.len();
    let line_end: Option<usize> = find_byte(b, 10);
    let (tempo_end, start): (usize, usize) = match line_end {
        Some(end) => if end > 0 && b[end - 1] == 13 {
            (end - 1, end + 1)
        } else {
            (end, end + 1)
        },
        None => (n, n),
    };
    let line: &[u8] = slice_subrange(b, 0, tempo_end);
    assert(line@ == tempo_line(b@));
    let bpm: Bpm = match Bpm::parse(line) {
        Some(bpm) => bpm,
        None => {
            return Err(ParseError { kind: ParseErrorKind::FormatError, offset: 0 });
        },
    };
    let mut notes: Vec<Note> = Vec::new();
    let mut i: usize = start;
    while i < n
        invariant
            start <= i <= n,
            n == b@.len(),
            b@ == file_contents.spec_bytes(),
            score_of(b@) == notes_from(bpm@, b@, start as int),
            notes_from(bpm@, b@, start as int) == match notes_from(bpm@, b@, i as int) {
                Ok(rest) => Ok::<Seq<Note>, ParseError>(notes@ + rest),
                Err(e) => Err(e),
            },
        decreases n - i,
    {
        let c: u8 = b[i];
        if c == 32 || c == 10 || (c == 13 && i + 1 < n && b[i + 1] == 10) {
            i += 1;
        } else {
            let mut end: usize = i + 1;
            while end < n && !(b[end] == 32 || b[end] == 10 || (b[end] == 13 && end + 1 < n && b[end
                + 1] == 10))
                invariant
                    i < end <= n,
                    n == b@.len(),
                    token_end(b@, i as int) == token_end(b@, end as int),
                decreases n - end,
            {
                end += 1;
            }
            let token: &[u8] = slice_subrange(b, i, end);
            match parse_note_bytes(bpm, token) {
                Err(kind) => {
                    return Err(ParseError { kind, offset: i });
                },
                Ok(note) => {
                    proof {
                        let rest = notes_from(bpm@, b@, end as int);
                        if rest is Ok {
                            assert(notes@.push(note) + rest->Ok_0 =~= notes@ + (seq![note]
                                + rest->Ok_0));
                        }
                    }
                    notes.push(note);
                },
            }
            i = end;
        }
    }
    Ok(notes)
}

} // verus!
