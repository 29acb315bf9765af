//! A melody to play, written in the notes of the frequency table.

use vstd::prelude::*;
use crate::sequencer::Score;
use crate::sequencer::Stage;
use crate::sequencer::ToneSequencer;
use crate::tone::note_frequency;
use crate::tone::note_hz;
use crate::tone::FreqPWM;
use crate::tone::NoteName;
use crate::tone::OCTAVES;

verus! {

/// How many entries the melody has.
pub const MARIO_MAIN_LEN: usize = 78;

/// The melody, entry by entry: a frequency from the table, or zero for a
/// rest.
pub open spec fn mario_main_notes() -> Seq<u32> {
    let e4 = note_hz(NoteName::E, 4) as u32;
    let g4 = note_hz(NoteName::G, 4) as u32;
    let a4 = note_hz(NoteName::A, 4) as u32;
    let as4 = note_hz(NoteName::ASharp, 4) as u32;
    let b4 = note_hz(NoteName::B, 4) as u32;
    let c5 = note_hz(NoteName::C, 5) as u32;
    let d5 = note_hz(NoteName::D, 5) as u32;
    let e5 = note_hz(NoteName::E, 5) as u32;
    let f5 = note_hz(NoteName::F, 5) as u32;
    let g5 = note_hz(NoteName::G, 5) as u32;
    let a5 = note_hz(NoteName::A, 5) as u32;
    let b5 = note_hz(NoteName::B, 5) as u32;
    seq![
        e5, e5, 0, e5,
        0, c5, e5, 0,
        g5, 0, 0, 0,
        g4, 0, 0, 0,
        c5, 0, 0, g4,
        0, 0, e4, 0,
        0, a4, 0, b4,
        0, as4, a4, 0,
        g4, e5, g5,
        a5, 0, f5, g5,
        0, e5, 0, c5,
        d5, b4, 0, 0,
        c5, 0, 0, g5,
        0, 0, e4, 0,
        0, a4, 0, b4,
        0, as4, a4, 0,
        g4, e5, g5,
        a5, 0, f5, g5,
        0, e5, 0, c5,
        d5, b5, 0, 0,
    ]
}

/// The tempo ratio of the melody's entry at `index`: a twelfth of the tempo
/// base, but a ninth for the two triplets.
pub open spec fn mario_main_ratio(index: int) -> u32 {
    if 32 <= index < 35 || 63 <= index < 66 {
        9
    } else {
        12
    }
}

/// The melody's tempo ratios, one for each entry.
pub open spec fn mario_main_ratios() -> Seq<u32> {
    Seq::new(MARIO_MAIN_LEN as nat, |index: int| mario_main_ratio(index))
}

/// The table's frequency for a note that it holds.
fn hz(name: NoteName, octave: u8) -> (hz: u32)
    requires
        octave < OCTAVES,
    ensures
        hz == note_hz(name, octave as int),
{
    let found = note_frequency(name, octave);
    found.unwrap() as u32
}

/// A sequencer that awaits its gating input to play the melody, on a timer
/// behind `timer`'s divider and at `tempo_base_ms` milliseconds to the whole
/// note.
pub fn mario_main(timer: FreqPWM, tempo_base_ms: u32) -> (player: ToneSequencer)
    ensures
        player.score() == (Score {
            divider: timer.divider(),
            tempo_base_ms,
            song: mario_main_notes(),
            ratios: mario_main_ratios(),
        }),
        player.current() == Stage::AwaitingGate,
{
    let e4 = hz(NoteName::E, 4);
    let g4 = hz(NoteName::G, 4);
    let a4 = hz(NoteName::A, 4);
    let as4 = hz(NoteName::ASharp, 4);
    let b4 = hz(NoteName::B, 4);
    let c5 = hz(NoteName::C, 5);
    let d5 = hz(NoteName::D, 5);
    let e5 = hz(NoteName::E, 5);
    let f5 = hz(NoteName::F, 5);
    let g5 = hz(NoteName::G, 5);
    let a5 = hz(NoteName::A, 5);
    let b5 = hz(NoteName::B, 5);
    let song: Vec<u32> = vec![
        e5, e5, 0, e5,
        0, c5, e5, 0,
        g5, 0, 0, 0,
        g4, 0, 0, 0,
        c5, 0, 0, g4,
        0, 0, e4, 0,
        0, a4, 0, b4,
        0, as4, a4, 0,
        g4, e5, g5,
        a5, 0, f5, g5,
        0, e5, 0, c5,
        d5, b4, 0, 0,
        c5, 0, 0, g5,
        0, 0, e4, 0,
        0, a4, 0, b4,
        0, as4, a4, 0,
        g4, e5, g5,
        a5, 0, f5, g5,
        0, e5, 0, c5,
        d5, b5, 0, 0,
    ];
    assert(song@ =~= mario_main_notes());
    let mut ratios: Vec<u32> = Vec::new();
    let mut index: usize = 0;
    while index < MARIO_MAIN_LEN
        invariant
            index <= MARIO_MAIN_LEN,
            ratios@.len() == index,
            forall|i: int| 0 <= i < index ==> ratios@[i] == mario_main_ratio(i),
        decreases MARIO_MAIN_LEN - index,
    {
        let triplet = (32 <= index && index < 35) || (63 <= index && index < 66);
        ratios.push(if triplet { 9 } else { 12 });
        index += 1;
    }
    assert(ratios@ =~= mario_main_ratios());
    let made = ToneSequencer::new(timer, tempo_base_ms, song, ratios);
    made.unwrap()
}

} // verus!
