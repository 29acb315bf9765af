//! From a frequency in hertz to the period of a pulse-width timer, and the
//! table of note frequencies that melodies are written in.

use vstd::prelude::*;
use vstd::arithmetic::div_mod::lemma_div_denominator;
use vstd::arithmetic::div_mod::lemma_fundamental_div_mod;
use vstd::arithmetic::div_mod::lemma_remainder;

verus! {

/// The crystal that clocks the timer, in hertz.
pub const REFERENCE_CLOCK_HZ: u32 = 12_000_000;

/// The clock divider that the melodies are played with.
pub const TIMER_DIVIDER: u8 = 40;

/// How many octaves the note table spans.
pub const OCTAVES: u8 = 8;

/// The board's crystal frequency, `rp_pico::XOSC_CRYSTAL_FREQ`: a constant of
/// the board support crate, twelve megahertz.
#[verifier::external_body]
fn crystal_hz() -> (hz: u32)
    ensures
        hz == REFERENCE_CLOCK_HZ,
{
    rp_pico::XOSC_CRYSTAL_FREQ
}

/// The period ("top") that makes a timer clocked at `REFERENCE_CLOCK_HZ`
/// through the divider `div_int` cycle `freq` times a second.
///
/// A frequency of zero is a rest and has the period zero. Otherwise the period
/// is the clock divided by the divider and then by the frequency, rounded
/// down, and held at `u16::MAX` where it would not fit; with a divider of
/// zero the quotient has no bound, so the period is `u16::MAX` as well.
pub open spec fn top_for(div_int: u8, freq: u32) -> int {
    if freq == 0 {
        0
    } else if div_int == 0 {
        u16::MAX as int
    } else {
        let exact = REFERENCE_CLOCK_HZ as int / div_int as int / freq as int;
        if exact > u16::MAX {
            u16::MAX as int
        } else {
            exact
        }
    }
}

/// Converts frequencies to timer periods for one setting of the clock divider.
#[derive(Clone, Copy, Debug, PartialEq, Eq, Structural)]
pub struct FreqPWM {
    div_int: u8,
}

impl FreqPWM {
    /// The clock divider this converter was made for.
    pub closed spec fn divider(&self) -> u8 {
        self.div_int
    }

    /// A converter for a timer whose clock is divided by `div_int`.
    pub fn new(div_int: u8) -> (gen: FreqPWM)
        ensures
            gen.divider() == div_int,
    {
        FreqPWM { div_int }
    }

    /// The divider, as `new` was given it.
    pub fn div_int(&self) -> (div_int: u8)
        ensures
            div_int == self.divider(),
    {
        self.div_int
    }

    /// The timer period for `freq` hertz; zero for a rest.
    pub fn freq_to_top(&self, freq: u32) -> (top: u16)
        ensures
            top == top_for(self.divider(), freq),
    {
        if freq == 0 {
            return 0;
        }
        if self.div_int == 0 {
            return u16::MAX;
        }
        let exact: u32 = crystal_hz() / (self.div_int as u32) / freq;
        if exact > u16::MAX as u32 {
            u16::MAX
        } else {
            exact as u16
        }
    }
}

/// Dividing by the divider and then by the frequency is dividing by their
/// product: below saturation, the period is the largest whole number of
/// timer ticks whose cycle is no shorter than the note's.
pub proof fn lemma_top_brackets_clock(div_int: u8, freq: u32)
    requires
        div_int > 0,
        freq > 0,
        top_for(div_int, freq) < u16::MAX,
    ensures
        top_for(div_int, freq) == REFERENCE_CLOCK_HZ as int / (div_int as int * freq as int),
        top_for(div_int, freq) * (div_int as int * freq as int) <= REFERENCE_CLOCK_HZ,
        REFERENCE_CLOCK_HZ < (top_for(div_int, freq) + 1) * (div_int as int * freq as int),
{
    let clock = REFERENCE_CLOCK_HZ as int;
    let cycle = div_int as int * freq as int;
    assert(cycle > 0) by (nonlinear_arith)
        requires
            cycle == div_int as int * freq as int,
            div_int > 0,
            freq > 0,
    ;
    lemma_div_denominator(clock, div_int as int, freq as int);
    lemma_fundamental_div_mod(clock, cycle);
    lemma_remainder(clock, cycle);
    let top = clock / cycle;
    assert(cycle * top + cycle == (top + 1) * cycle) by (nonlinear_arith);
    assert(cycle * top == top * cycle) by (nonlinear_arith);
}

/// A period of zero means silence: a rest, or a frequency above what the
/// divided clock can count.
pub proof fn lemma_top_zero(div_int: u8, freq: u32)
    ensures
        top_for(div_int, freq) == 0 <==> (freq == 0 || (div_int > 0 && freq as int
            > REFERENCE_CLOCK_HZ as int / div_int as int)),
{
    if freq > 0 && div_int > 0 {
        let clock = REFERENCE_CLOCK_HZ as int;
        let d = div_int as int;
        let f = freq as int;
        let scaled = clock / d;
        lemma_fundamental_div_mod(clock, d);
        lemma_remainder(clock, d);
        assert(0 <= scaled) by (nonlinear_arith)
            requires
                clock == d * scaled + clock % d,
                0 <= clock % d < d,
                clock >= 0,
        ;
        lemma_fundamental_div_mod(scaled, f);
        lemma_remainder(scaled, f);
        let top = scaled / f;
        let rest = scaled % f;
        assert(top == 0 <==> f > scaled) by (nonlinear_arith)
            requires
                scaled == f * top + rest,
                0 <= rest < f,
                0 <= scaled,
        ;
    }
}

/// The eight notes that the table knows in each octave.
#[derive(Clone, Copy, Debug, PartialEq, Eq, Structural)]
pub enum NoteName {
    C,
    D,
    E,
    F,
    G,
    A,
    ASharp,
    B,
}

/// The frequencies of C, in hertz, from the lowest octave up.
pub const C_HZ: [u16; 8] = [16, 33, 65, 131, 262, 523, 1046, 2093];

/// The frequencies of D.
pub const D_HZ: [u16; 8] = [18, 37, 73, 147, 294, 587, 1174, 2349];

/// The frequencies of E.
pub const E_HZ: [u16; 8] = [21, 41, 82, 165, 330, 660, 1318, 2637];

/// The frequencies of F.
pub const F_HZ: [u16; 8] = [22, 44, 87, 175, 350, 700, 1396, 2793];

/// The frequencies of G.
pub const G_HZ: [u16; 8] = [25, 49, 98, 196, 392, 784, 1567, 3135];

/// The frequencies of A.
pub const A_HZ: [u16; 8] = [27, 55, 110, 220, 440, 880, 1760, 3520];

/// The frequencies of A sharp.
pub const A_SHARP_HZ: [u16; 8] = [29, 58, 116, 233, 466, 932, 1864, 3729];

/// The frequencies of B.
pub const B_HZ: [u16; 8] = [31, 62, 123, 247, 494, 988, 1975, 3951];

/// The frequencies of one note, in hertz, from the lowest octave up.
pub open spec fn octaves_of(name: NoteName) -> Seq<u16> {
    match name {
        NoteName::C => C_HZ@,
        NoteName::D => D_HZ@,
        NoteName::E => E_HZ@,
        NoteName::F => F_HZ@,
        NoteName::G => G_HZ@,
        NoteName::A => A_HZ@,
        NoteName::ASharp => A_SHARP_HZ@,
        NoteName::B => B_HZ@,
    }
}

/// The table entry for a note in an octave; `octave` counts from zero.
pub open spec fn note_hz(name: NoteName, octave: int) -> u16
    recommends
        0 <= octave < OCTAVES,
{
    octaves_of(name)[octave]
}

/// Looks a note up in the table: its frequency in hertz, or `None` for an
/// octave that the table does not reach.
pub fn note_frequency(name: NoteName, octave: u8) -> (hz: Option<u16>)
    ensures
        hz == (if octave < OCTAVES {
            Some(note_hz(name, octave as int))
        } else {
            None
        }),
{
    if octave >= OCTAVES {
        return None;
    }
    let row: [u16; 8] = match name {
        NoteName::C => C_HZ,
        NoteName::D => D_HZ,
        NoteName::E => E_HZ,
        NoteName::F => F_HZ,
        NoteName::G => G_HZ,
        NoteName::A => A_HZ,
        NoteName::ASharp => A_SHARP_HZ,
        NoteName::B => B_HZ,
    };
    Some(row[octave as usize])
}

/// Every entry of the table is a frequency that sounds: none is the rest
/// marker, and with the melodies' divider each has a period that fits the
/// timer and is the clock over the note's cycle, rounded down.
pub proof fn lemma_table_periods_exact(name: NoteName, octave: int)
    requires
        0 <= octave < OCTAVES,
    ensures
        note_hz(name, octave) > 0,
        0 < top_for(TIMER_DIVIDER, note_hz(name, octave) as u32) < u16::MAX,
        top_for(TIMER_DIVIDER, note_hz(name, octave) as u32) * (TIMER_DIVIDER * note_hz(
            name,
            octave,
        )) <= REFERENCE_CLOCK_HZ,
        REFERENCE_CLOCK_HZ < (top_for(TIMER_DIVIDER, note_hz(name, octave) as u32) + 1) * (
        TIMER_DIVIDER * note_hz(name, octave)),
{
    let hz = note_hz(name, octave);
    assert(16 <= hz <= 3951);
    let scaled = REFERENCE_CLOCK_HZ as int / TIMER_DIVIDER as int;
    assert(scaled == 300_000);
    lemma_fundamental_div_mod(scaled, hz as int);
    lemma_remainder(scaled, hz as int);
    let top = scaled / hz as int;
    let rest = scaled % hz as int;
    assert(0 < top < 65535) by (nonlinear_arith)
        requires
            300_000 == hz as int * top + rest,
            0 <= rest < hz as int,
            16 <= hz <= 3951,
    ;
    lemma_top_brackets_clock(TIMER_DIVIDER, hz as u32);
}

} // verus!
