use pico_patterns::sequencer::gap_after;
use pico_patterns::sequencer::Action;
use pico_patterns::sequencer::Event;
use pico_patterns::sequencer::SongError;
use pico_patterns::sequencer::Stage;
use pico_patterns::sequencer::ToneSequencer;
use pico_patterns::tone::FreqPWM;

const LOW: Event = Event::Gate { high: false };
const HIGH: Event = Event::Gate { high: true };

fn sequencer(song: Vec<u32>, ratios: Vec<u32>) -> ToneSequencer {
    ToneSequencer::new(FreqPWM::new(40), 1000, song, ratios).unwrap()
}

fn sound(freq: u32, hold_ms: u32) -> Action {
    let top = FreqPWM::new(40).freq_to_top(freq);
    Action::Sound { top, duty: top / 2, hold_ms }
}

#[test]
fn sequencer_timing() {
    let f = 660;
    let mut player = sequencer(vec![f, 0, f], vec![12, 9, 12]);
    assert_eq!(player.start(), Action::PollGate);
    assert_eq!(player.step(LOW), Action::Sound { top: 454, duty: 227, hold_ms: 83 });
    assert_eq!(player.step(Event::Elapsed), Action::Silence { hold_ms: 108 });
    assert_eq!(player.step(Event::Elapsed), Action::Silence { hold_ms: 111 });
    assert_eq!(player.step(Event::Elapsed), Action::Sound { top: 454, duty: 227, hold_ms: 83 });
    assert_eq!(player.step(Event::Elapsed), Action::Silence { hold_ms: 108 });
    assert_eq!(player.step(Event::Elapsed), Action::Return);
}

#[test]
fn gap_is_thirteen_tenths_to_the_nearest() {
    assert_eq!(gap_after(83), 108);
    assert_eq!(gap_after(111), 144);
    assert_eq!(gap_after(0), 0);
    assert_eq!(gap_after(1), 1);
    assert_eq!(gap_after(2), 3);
    assert_eq!(gap_after(10), 13);
    assert_eq!(gap_after(1000), 1300);
    assert_eq!(gap_after(5), 7);
}

#[test]
fn gap_saturates() {
    assert_eq!(gap_after(u32::MAX), u32::MAX);
    assert_eq!(gap_after(3_303_820_997), u32::MAX);
    assert_eq!(gap_after(3_303_820_996), 4_294_967_295);
    assert_eq!(gap_after(3_303_820_995), 4_294_967_294);
}

#[test]
fn nothing_plays_while_gate_is_open() {
    let mut player = sequencer(vec![440, 0], vec![12, 12]);
    assert_eq!(player.start(), Action::PollGate);
    for _ in 0..100 {
        assert_eq!(player.step(HIGH), Action::PollGate);
        assert_eq!(player.stage(), Stage::AwaitingGate);
    }
    assert_eq!(player.step(Event::Elapsed), Action::PollGate);
    assert_eq!(player.stage(), Stage::AwaitingGate);
    assert_eq!(player.step(LOW), sound(440, 83));
    assert_eq!(player.stage(), Stage::Sounding(0));
}

#[test]
fn a_new_sequencer_awaits_its_gate() {
    let mut player = sequencer(vec![440], vec![4]);
    assert_eq!(player.stage(), Stage::AwaitingGate);
    assert_eq!(player.len(), 1);
    assert_eq!(player.step(HIGH), Action::PollGate);
    assert_eq!(player.step(LOW), sound(440, 250));
}

#[test]
fn gate_is_not_looked_at_during_the_melody() {
    let mut player = sequencer(vec![440, 523], vec![10, 10]);
    assert_eq!(player.step(LOW), sound(440, 100));
    assert_eq!(player.step(HIGH), Action::Silence { hold_ms: 130 });
    assert_eq!(player.stage(), Stage::Silent(0));
    assert_eq!(player.step(LOW), sound(523, 100));
    assert_eq!(player.stage(), Stage::Sounding(1));
    assert_eq!(player.step(LOW), Action::Silence { hold_ms: 130 });
    assert_eq!(player.step(HIGH), Action::Return);
    assert_eq!(player.stage(), Stage::AwaitingGate);
}

#[test]
fn the_melody_returns_and_can_be_played_again() {
    let mut player = sequencer(vec![0, 440], vec![9, 12]);
    for _ in 0..3 {
        assert_eq!(player.start(), Action::PollGate);
        assert_eq!(player.step(HIGH), Action::PollGate);
        assert_eq!(player.step(LOW), Action::Silence { hold_ms: 111 });
        assert_eq!(player.step(Event::Elapsed), sound(440, 83));
        assert_eq!(player.step(Event::Elapsed), Action::Silence { hold_ms: 108 });
        assert_eq!(player.step(Event::Elapsed), Action::Return);
        assert_eq!(player.stage(), Stage::AwaitingGate);
    }
    // Without a new start the player polls again as well.
    assert_eq!(player.step(HIGH), Action::PollGate);
    assert_eq!(player.step(LOW), Action::Silence { hold_ms: 111 });
}

#[test]
fn start_abandons_a_melody_under_way() {
    let mut player = sequencer(vec![440, 523, 660], vec![12, 12, 12]);
    assert_eq!(player.step(LOW), sound(440, 83));
    assert_eq!(player.step(Event::Elapsed), Action::Silence { hold_ms: 108 });
    assert_eq!(player.step(Event::Elapsed), sound(523, 83));
    assert_eq!(player.start(), Action::PollGate);
    assert_eq!(player.stage(), Stage::AwaitingGate);
    assert_eq!(player.step(LOW), sound(440, 83));
}

#[test]
fn an_empty_melody_returns_at_once() {
    let mut player = sequencer(vec![], vec![]);
    assert_eq!(player.len(), 0);
    assert_eq!(player.start(), Action::PollGate);
    assert_eq!(player.step(HIGH), Action::PollGate);
    assert_eq!(player.step(LOW), Action::Return);
    assert_eq!(player.stage(), Stage::AwaitingGate);
}

#[test]
fn a_frequency_too_high_for_the_timer_is_a_rest() {
    let mut player = sequencer(vec![300_001, 300_000], vec![2, 2]);
    assert_eq!(player.step(LOW), Action::Silence { hold_ms: 500 });
    assert_eq!(player.step(Event::Elapsed), Action::Sound { top: 1, duty: 0, hold_ms: 500 });
    assert_eq!(player.step(Event::Elapsed), Action::Silence { hold_ms: 650 });
    assert_eq!(player.step(Event::Elapsed), Action::Return);
}

#[test]
fn a_ratio_above_the_tempo_base_gives_no_time() {
    let mut player = sequencer(vec![440], vec![1001]);
    assert_eq!(player.step(LOW), sound(440, 0));
    assert_eq!(player.step(Event::Elapsed), Action::Silence { hold_ms: 0 });
    assert_eq!(player.step(Event::Elapsed), Action::Return);
}

#[test]
fn the_divider_sets_the_period() {
    let mut player = ToneSequencer::new(FreqPWM::new(20), 600, vec![440], vec![3]).unwrap();
    assert_eq!(player.step(LOW), Action::Sound { top: 1363, duty: 681, hold_ms: 200 });
    assert_eq!(player.step(Event::Elapsed), Action::Silence { hold_ms: 260 });
}

#[test]
fn unequal_lengths_are_turned_down() {
    let made = ToneSequencer::new(FreqPWM::new(40), 1000, vec![440, 0], vec![12]);
    assert_eq!(made.err(), Some(SongError::LengthMismatch));
    let made = ToneSequencer::new(FreqPWM::new(40), 1000, vec![], vec![12]);
    assert_eq!(made.err(), Some(SongError::LengthMismatch));
}

#[test]
fn a_zero_ratio_is_turned_down() {
    let made = ToneSequencer::new(FreqPWM::new(40), 1000, vec![440, 0, 440], vec![12, 0, 0]);
    assert_eq!(made.err(), Some(SongError::ZeroRatio { index: 1 }));
    let made = ToneSequencer::new(FreqPWM::new(40), 1000, vec![440], vec![0]);
    assert_eq!(made.err(), Some(SongError::ZeroRatio { index: 0 }));
}

#[test]
fn the_length_is_checked_before_the_ratios() {
    let made = ToneSequencer::new(FreqPWM::new(40), 1000, vec![440], vec![0, 0]);
    assert_eq!(made.err(), Some(SongError::LengthMismatch));
}
