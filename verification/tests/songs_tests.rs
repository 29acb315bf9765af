use pico_patterns::sequencer::Action;
use pico_patterns::sequencer::Event;
use pico_patterns::sequencer::Stage;
use pico_patterns::songs::mario_main;
use pico_patterns::songs::MARIO_MAIN_LEN;
use pico_patterns::tone::FreqPWM;

const C: [u32; 8] = [16, 33, 65, 131, 262, 523, 1046, 2093];
const D: [u32; 8] = [18, 37, 73, 147, 294, 587, 1174, 2349];
const E: [u32; 8] = [21, 41, 82, 165, 330, 660, 1318, 2637];
const F: [u32; 8] = [22, 44, 87, 175, 350, 700, 1396, 2793];
const G: [u32; 8] = [25, 49, 98, 196, 392, 784, 1567, 3135];
const A_S: [u32; 8] = [29, 58, 116, 233, 466, 932, 1864, 3729];
const A: [u32; 8] = [27, 55, 110, 220, 440, 880, 1760, 3520];
const B: [u32; 8] = [31, 62, 123, 247, 494, 988, 1975, 3951];

fn melody() -> Vec<u32> {
    vec![
        E[5], E[5], 0, E[5],
        0, C[5], E[5], 0,
        G[5], 0, 0, 0,
        G[4], 0, 0, 0,

        C[5], 0, 0, G[4],
        0, 0, E[4], 0,
        0, A[4], 0, B[4],
        0, A_S[4], A[4], 0,

        G[4], E[5], G[5],
        A[5], 0, F[5], G[5],
        0, E[5], 0, C[5],
        D[5], B[4], 0, 0,

        C[5], 0, 0, G[5],
        0, 0, E[4], 0,
        0, A[4], 0, B[4],
        0, A_S[4], A[4], 0,

        G[4], E[5], G[5],
        A[5], 0, F[5], G[5],
        0, E[5], 0, C[5],
        D[5], B[5], 0, 0,
    ]
}

fn tempo() -> Vec<u32> {
    vec![
        12, 12, 12, 12, 12, 12, 12, 12, 12, 12, 12, 12, 12, 12, 12, 12, 12, 12, 12, 12, 12, 12, 12,
        12, 12, 12, 12, 12, 12, 12, 12, 12, 9, 9, 9, 12, 12, 12, 12, 12, 12, 12, 12, 12, 12, 12,
        12, 12, 12, 12, 12, 12, 12, 12, 12, 12, 12, 12, 12, 12, 12, 12, 12, 9, 9, 9, 12, 12, 12,
        12, 12, 12, 12, 12, 12, 12, 12, 12,
    ]
}

#[test]
fn the_melody_has_an_entry_for_every_ratio() {
    assert_eq!(melody().len(), MARIO_MAIN_LEN);
    assert_eq!(tempo().len(), MARIO_MAIN_LEN);
    assert_eq!(mario_main(FreqPWM::new(40), 1000).len(), MARIO_MAIN_LEN);
    assert_eq!(mario_main(FreqPWM::new(40), 1000).stage(), Stage::AwaitingGate);
}

#[test]
fn the_melody_plays_entry_by_entry() {
    let mut player = mario_main(FreqPWM::new(40), 1000);
    assert_eq!(player.start(), Action::PollGate);
    assert_eq!(player.step(Event::Gate { high: true }), Action::PollGate);
    let mut action = player.step(Event::Gate { high: false });
    for (index, (freq, ratio)) in melody().into_iter().zip(tempo()).enumerate() {
        let hold_ms = 1000 / ratio;
        if freq == 0 {
            assert_eq!(action, Action::Silence { hold_ms });
            assert_eq!(player.stage(), Stage::Silent(index));
        } else {
            let top = (12_000_000.0_f64 / 40.0 / freq as f64) as u16;
            assert_eq!(action, Action::Sound { top, duty: top / 2, hold_ms });
            assert_eq!(player.stage(), Stage::Sounding(index));
            action = player.step(Event::Elapsed);
            let gap = if hold_ms == 83 { 108 } else { 144 };
            assert_eq!(action, Action::Silence { hold_ms: gap });
            assert_eq!(player.stage(), Stage::Silent(index));
        }
        action = player.step(Event::Elapsed);
    }
    assert_eq!(action, Action::Return);
    assert_eq!(player.stage(), Stage::AwaitingGate);
}

#[test]
fn the_melody_opens_with_three_e_and_a_rest_between() {
    let mut player = mario_main(FreqPWM::new(40), 1000);
    let e5 = Action::Sound { top: 454, duty: 227, hold_ms: 83 };
    assert_eq!(player.step(Event::Gate { high: false }), e5);
    assert_eq!(player.step(Event::Elapsed), Action::Silence { hold_ms: 108 });
    assert_eq!(player.step(Event::Elapsed), e5);
    assert_eq!(player.step(Event::Elapsed), Action::Silence { hold_ms: 108 });
    assert_eq!(player.step(Event::Elapsed), Action::Silence { hold_ms: 83 });
    assert_eq!(player.step(Event::Elapsed), e5);
}

#[test]
fn the_tempo_base_scales_the_melody() {
    let mut player = mario_main(FreqPWM::new(40), 2400);
    assert_eq!(
        player.step(Event::Gate { high: false }),
        Action::Sound { top: 454, duty: 227, hold_ms: 200 }
    );
    assert_eq!(player.step(Event::Elapsed), Action::Silence { hold_ms: 260 });
}
