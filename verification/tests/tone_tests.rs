use pico_patterns::tone::note_frequency;
use pico_patterns::tone::FreqPWM;
use pico_patterns::tone::NoteName;
use pico_patterns::tone::OCTAVES;
use pico_patterns::tone::REFERENCE_CLOCK_HZ;
use pico_patterns::tone::TIMER_DIVIDER;

const NAMES: [NoteName; 8] = [
    NoteName::C,
    NoteName::D,
    NoteName::E,
    NoteName::F,
    NoteName::G,
    NoteName::A,
    NoteName::ASharp,
    NoteName::B,
];

#[test]
fn a_rest_has_period_zero() {
    assert_eq!(FreqPWM::new(40).freq_to_top(0), 0);
    assert_eq!(FreqPWM::new(1).freq_to_top(0), 0);
    assert_eq!(FreqPWM::new(0).freq_to_top(0), 0);
}

#[test]
fn periods_of_known_notes() {
    let timer = FreqPWM::new(40);
    assert_eq!(timer.freq_to_top(660), 454);
    assert_eq!(timer.freq_to_top(523), 573);
    assert_eq!(timer.freq_to_top(440), 681);
    assert_eq!(timer.freq_to_top(16), 18750);
    assert_eq!(timer.freq_to_top(3951), 75);
}

#[test]
fn period_is_rounded_down() {
    let timer = FreqPWM::new(40);
    assert_eq!(timer.freq_to_top(300_000), 1);
    assert_eq!(timer.freq_to_top(150_001), 1);
    assert_eq!(timer.freq_to_top(150_000), 2);
    assert_eq!(timer.freq_to_top(7), 42857);
}

#[test]
fn a_frequency_above_the_divided_clock_is_silent() {
    let timer = FreqPWM::new(40);
    assert_eq!(timer.freq_to_top(300_001), 0);
    assert_eq!(timer.freq_to_top(u32::MAX), 0);
}

#[test]
fn period_saturates() {
    assert_eq!(FreqPWM::new(1).freq_to_top(1), u16::MAX);
    assert_eq!(FreqPWM::new(40).freq_to_top(4), u16::MAX);
    assert_eq!(FreqPWM::new(40).freq_to_top(5), 60000);
    assert_eq!(FreqPWM::new(255).freq_to_top(1), 47058);
}

#[test]
fn a_zero_divider_saturates() {
    assert_eq!(FreqPWM::new(0).freq_to_top(1), u16::MAX);
    assert_eq!(FreqPWM::new(0).freq_to_top(440), u16::MAX);
    assert_eq!(FreqPWM::new(0).freq_to_top(u32::MAX), u16::MAX);
}

#[test]
fn the_divider_is_kept() {
    assert_eq!(FreqPWM::new(40).div_int(), 40);
    assert_eq!(FreqPWM::new(0).div_int(), 0);
}

#[test]
fn the_clock_is_twelve_megahertz() {
    assert_eq!(REFERENCE_CLOCK_HZ, 12_000_000);
    assert_eq!(TIMER_DIVIDER, 40);
    // With divider 1 and a frequency that leaves the quotient below the
    // ceiling, the period shows the clock itself.
    assert_eq!(FreqPWM::new(1).freq_to_top(1000), 12_000);
}

#[test]
fn table_lookups() {
    assert_eq!(note_frequency(NoteName::C, 0), Some(16));
    assert_eq!(note_frequency(NoteName::A, 4), Some(440));
    assert_eq!(note_frequency(NoteName::ASharp, 4), Some(466));
    assert_eq!(note_frequency(NoteName::E, 5), Some(660));
    assert_eq!(note_frequency(NoteName::G, 5), Some(784));
    assert_eq!(note_frequency(NoteName::B, 7), Some(3951));
    assert_eq!(note_frequency(NoteName::D, 3), Some(147));
    assert_eq!(note_frequency(NoteName::F, 6), Some(1396));
}

#[test]
fn the_table_ends_after_eight_octaves() {
    assert_eq!(OCTAVES, 8);
    for name in NAMES {
        assert!(note_frequency(name, 7).is_some());
        assert_eq!(note_frequency(name, 8), None);
        assert_eq!(note_frequency(name, 255), None);
    }
}

#[test]
fn table_frequencies_are_positive_and_rise_with_the_octave() {
    for name in NAMES {
        let mut last = 0;
        for octave in 0..OCTAVES {
            let hz = note_frequency(name, octave).unwrap();
            assert!(hz > last);
            last = hz;
        }
    }
}

#[test]
fn table_periods_match_the_formula() {
    let timer = FreqPWM::new(TIMER_DIVIDER);
    for name in NAMES {
        for octave in 0..OCTAVES {
            let hz = note_frequency(name, octave).unwrap() as u64;
            let top = timer.freq_to_top(hz as u32) as u64;
            let cycle = TIMER_DIVIDER as u64 * hz;
            assert!(top > 0 && top < u16::MAX as u64);
            let clock = REFERENCE_CLOCK_HZ as u64;
            assert!(top * cycle <= clock);
            assert!(clock < (top + 1) * cycle);
            let real = REFERENCE_CLOCK_HZ as f64 / TIMER_DIVIDER as f64 / hz as f64;
            assert!((real - top as f64).abs() < 1.0);
            assert_eq!(real.floor() as u64, top);
        }
    }
}
