//! A melody player that is driven from outside.
//!
//! The sequencer decides; its driver acts. The driver performs the action it
//! is handed (read the gating input, sound a tone for a while, keep silent
//! for a while), reports what happened as an event, and is handed the next
//! action. A playback begins when that input is seen closed, runs through the
//! melody once without looking at it again, and ends by telling the driver to
//! return.

use vstd::prelude::*;
use crate::tone::FreqPWM;
use crate::tone::top_for;

verus! {

/// What the driver is asked to do next.
#[derive(Clone, Copy, Debug, PartialEq, Eq, Structural)]
pub enum Action {
    /// Read the gating input and report its level.
    PollGate,
    /// Set the timer's period to `top`, restart its counter, set the duty to
    /// `duty`, switch the output on and hold it for `hold_ms` milliseconds.
    Sound { top: u16, duty: u16, hold_ms: u32 },
    /// Switch the output off and keep it off for `hold_ms` milliseconds.
    Silence { hold_ms: u32 },
    /// The melody is over: hand control back.
    Return,
}

/// What the driver reports after an action.
#[derive(Clone, Copy, Debug, PartialEq, Eq, Structural)]
pub enum Event {
    /// The gating input was read. It is active-low: `high` means open (not
    /// pressed), low means closed.
    Gate { high: bool },
    /// The hold time of a `Sound` or a `Silence` has passed.
    Elapsed,
}

/// Where a playback stands, named by the action that is under way.
#[derive(Clone, Copy, Debug, PartialEq, Eq, Structural)]
pub enum Stage {
    /// Nothing plays; the gating input is being polled.
    AwaitingGate,
    /// The note at this position of the melody sounds.
    Sounding(usize),
    /// The output is off: the entry at this position is a rest, or its note
    /// has sounded and the gap behind it runs.
    Silent(usize),
}

/// Why a melody was turned down.
#[derive(Clone, Copy, Debug, PartialEq, Eq, Structural)]
pub enum SongError {
    /// The melody and the tempo ratios differ in length.
    LengthMismatch,
    /// The tempo ratio at `index`, the first such, is zero.
    ZeroRatio { index: usize },
}

/// Everything about a sequencer that playing does not change.
pub struct Score {
    /// The timer's clock divider.
    pub divider: u8,
    /// The duration that the tempo ratios divide, in milliseconds.
    pub tempo_base_ms: u32,
    /// The melody: frequencies in hertz, zero for a rest.
    pub song: Seq<u32>,
    /// For each entry of the melody, what to divide the tempo base by.
    pub ratios: Seq<u32>,
}

impl Score {
    /// Every entry has a ratio, no ratio is zero, and positions fit `usize`.
    pub open spec fn valid(self) -> bool {
        &&& self.song.len() == self.ratios.len()
        &&& self.song.len() <= usize::MAX
        &&& forall|i: int| 0 <= i < self.ratios.len() ==> self.ratios[i] > 0
    }

    /// How long the entry at `index` lasts: the tempo base over its ratio.
    pub open spec fn hold_ms(self, index: int) -> u32
        recommends
            0 <= index < self.ratios.len(),
            self.ratios[index] > 0,
    {
        (self.tempo_base_ms / self.ratios[index]) as u32
    }

    /// The timer period of the entry at `index`.
    pub open spec fn top(self, index: int) -> u16
        recommends
            0 <= index < self.song.len(),
    {
        top_for(self.divider, self.song[index]) as u16
    }

    /// Starting the entry at `index`: a period of zero is a rest, and is
    /// silence for the entry's duration; any other period sounds, at half
    /// duty, for that duration. Behind the last entry the melody is over.
    pub open spec fn enter(self, index: int) -> (Stage, Action) {
        if index >= self.song.len() {
            (Stage::AwaitingGate, Action::Return)
        } else if self.top(index) == 0 {
            (Stage::Silent(index as usize), Action::Silence { hold_ms: self.hold_ms(index) })
        } else {
            (
                Stage::Sounding(index as usize),
                Action::Sound {
                    top: self.top(index),
                    duty: self.top(index) / 2,
                    hold_ms: self.hold_ms(index),
                },
            )
        }
    }

    /// One step of the player. While it awaits its gating input, only a
    /// reading of closed starts the melody; anything else asks for another
    /// reading. While the melody plays, every event means that the action
    /// under way is done: a note is followed by its gap, a silence by the
    /// next entry.
    pub open spec fn next(self, stage: Stage, event: Event) -> (Stage, Action) {
        match stage {
            Stage::AwaitingGate => if event == (Event::Gate { high: false }) {
                self.enter(0)
            } else {
                (Stage::AwaitingGate, Action::PollGate)
            },
            Stage::Sounding(index) => (
                Stage::Silent(index),
                Action::Silence { hold_ms: gap_ms(self.hold_ms(index as int)) },
            ),
            Stage::Silent(index) => self.enter(index + 1),
        }
    }

    /// A stage that the player can be in: its position lies in the melody.
    pub open spec fn holds(self, stage: Stage) -> bool {
        match stage {
            Stage::AwaitingGate => true,
            Stage::Sounding(index) => index < self.song.len(),
            Stage::Silent(index) => index < self.song.len(),
        }
    }
}

/// The gap behind a note that sounded for `duration_ms`: thirteen tenths of
/// the duration, to the nearest millisecond, and no more than `u32::MAX`.
pub open spec fn gap_ms(duration_ms: u32) -> u32 {
    let gap = (13 * duration_ms + 5) / 10;
    if gap > u32::MAX {
        u32::MAX
    } else {
        gap as u32
    }
}

/// The gap to keep behind a note that sounded for `duration_ms`.
pub fn gap_after(duration_ms: u32) -> (gap: u32)
    ensures
        gap == gap_ms(duration_ms),
{
    let tenths: u64 = 13 * (duration_ms as u64) + 5;
    let gap: u64 = tenths / 10;
    if gap > u32::MAX as u64 {
        u32::MAX
    } else {
        gap as u32
    }
}

/// A melody, its tempo, and how far its playback has come.
pub struct ToneSequencer {
    timer: FreqPWM,
    tempo_base_ms: u32,
    song: Vec<u32>,
    tempo_ratios: Vec<u32>,
    stage: Stage,
}

impl ToneSequencer {
    #[verifier::type_invariant]
    spec fn well_formed(&self) -> bool {
        &&& self.score().valid()
        &&& self.score().holds(self.stage)
    }

    /// The melody and tempo that this sequencer plays.
    pub closed spec fn score(&self) -> Score {
        Score {
            divider: self.timer.divider(),
            tempo_base_ms: self.tempo_base_ms,
            song: self.song@,
            ratios: self.tempo_ratios@,
        }
    }

    /// Where the playback stands.
    pub closed spec fn current(&self) -> Stage {
        self.stage
    }

    /// A sequencer for `song`, whose entry `i` lasts `tempo_base_ms` over
    /// `tempo_ratios[i]` milliseconds, on a timer behind `timer`'s divider.
    /// It awaits its gating input.
    ///
    /// The two sequences must be equally long and no ratio may be zero;
    /// the length is checked first, and of several zero ratios the first is
    /// reported.
    pub fn new(timer: FreqPWM, tempo_base_ms: u32, song: Vec<u32>, tempo_ratios: Vec<u32>) -> (made:
        Result<ToneSequencer, SongError>)
        ensures
            made is Ok <==> (Score {
                divider: timer.divider(),
                tempo_base_ms,
                song: song@,
                ratios: tempo_ratios@,
            }).valid(),
            made == Err::<ToneSequencer, SongError>(SongError::LengthMismatch) <==> song@.len()
                != tempo_ratios@.len(),
            match made {
                Ok(sequencer) => {
                    &&& sequencer.score() == (Score {
                        divider: timer.divider(),
                        tempo_base_ms,
                        song: song@,
                        ratios: tempo_ratios@,
                    })
                    &&& sequencer.current() == Stage::AwaitingGate
                },
                Err(SongError::LengthMismatch) => song@.len() != tempo_ratios@.len(),
                Err(SongError::ZeroRatio { index }) => {
                    &&& song@.len() == tempo_ratios@.len()
                    &&& index < tempo_ratios@.len()
                    &&& tempo_ratios@[index as int] == 0
                    &&& forall|i: int| 0 <= i < index ==> tempo_ratios@[i] > 0
                },
            },
    {
        if song.len() != tempo_ratios.len() {
            return Err(SongError::LengthMismatch);
        }
        let mut index: usize = 0;
        while index < tempo_ratios.len()
            invariant
                song@.len() == tempo_ratios@.len(),
                index <= tempo_ratios@.len(),
                forall|i: int| 0 <= i < index ==> tempo_ratios@[i] > 0,
            decreases tempo_ratios@.len() - index,
        {
            if tempo_ratios[index] == 0 {
                return Err(SongError::ZeroRatio { index });
            }
            index += 1;
        }
        Ok(ToneSequencer { timer, tempo_base_ms, song, tempo_ratios, stage: Stage::AwaitingGate })
    }

    /// How many entries the melody has.
    pub fn len(&self) -> (len: usize)
        ensures
            len == self.score().song.len(),
    {
        self.song.len()
    }

    /// Where the playback stands.
    pub fn stage(&self) -> (stage: Stage)
        ensures
            stage == self.current(),
            self.score().valid(),
            self.score().holds(stage),
    {
        proof {
            use_type_invariant(self);
        }
        self.stage
    }

    /// Begins a playback from whatever stage the sequencer is in: the gating
    /// input is awaited, and the first thing to do is to read it.
    pub fn start(&mut self) -> (action: Action)
        ensures
            final(self).score() == old(self).score(),
            final(self).current() == Stage::AwaitingGate,
            action == Action::PollGate,
    {
        proof {
            use_type_invariant(&*self);
        }
        self.stage = Stage::AwaitingGate;
        Action::PollGate
    }

    /// Takes the driver's report of the last action and says what to do
    /// next.
    pub fn step(&mut self, event: Event) -> (action: Action)
        ensures
            final(self).score() == old(self).score(),
            (final(self).current(), action) == old(self).score().next(old(self).current(), event),
    {
        proof {
            use_type_invariant(&*self);
        }
        match self.stage {
            Stage::AwaitingGate => {
                match event {
                    Event::Gate { high: false } => self.begin_entry(0),
                    _ => Action::PollGate,
                }
            },
            Stage::Sounding(index) => {
                let hold_ms = self.tempo_base_ms / self.tempo_ratios[index];
                self.stage = Stage::Silent(index);
                Action::Silence { hold_ms: gap_after(hold_ms) }
            },
            Stage::Silent(index) => {
                let len = self.song.len();
                assert(index < len);
                self.begin_entry(index + 1)
            },
        }
    }

    /// Moves to the entry at `index`, or ends the playback behind the last.
    fn begin_entry(&mut self, index: usize) -> (action: Action)
        requires
            index <= old(self).score().song.len(),
        ensures
            final(self).score() == old(self).score(),
            (final(self).current(), action) == old(self).score().enter(index as int),
    {
        proof {
            use_type_invariant(&*self);
        }
        if index >= self.song.len() {
            self.stage = Stage::AwaitingGate;
            return Action::Return;
        }
        let top = self.timer.freq_to_top(self.song[index]);
        let hold_ms = self.tempo_base_ms / self.tempo_ratios[index];
        if top == 0 {
            self.stage = Stage::Silent(index);
            Action::Silence { hold_ms }
        } else {
            self.stage = Stage::Sounding(index);
            Action::Sound { top, duty: top / 2, hold_ms }
        }
    }
}

/// What a driver is handed, one action for each event it reports, from
/// `stage` on.
pub open spec fn actions_of(score: Score, stage: Stage, events: Seq<Event>) -> Seq<Action>
    decreases events.len(),
{
    if events.len() == 0 {
        Seq::empty()
    } else {
        let (reached, action) = score.next(stage, events.first());
        seq![action] + actions_of(score, reached, events.drop_first())
    }
}

/// The stage that the player is in after `events`, from `stage` on.
pub open spec fn stage_after(score: Score, stage: Stage, events: Seq<Event>) -> Stage
    decreases events.len(),
{
    if events.len() == 0 {
        stage
    } else {
        stage_after(score, score.next(stage, events.first()).0, events.drop_first())
    }
}

/// The melody from the entry at `from` to its end, as the driver performs it:
/// a rest is one silence, a note is its sound and the gap behind it.
pub open spec fn playback(score: Score, from: int) -> Seq<Action>
    decreases score.song.len() - from,
{
    if from < 0 || from >= score.song.len() {
        Seq::empty()
    } else if score.top(from) == 0 {
        seq![Action::Silence { hold_ms: score.hold_ms(from) }] + playback(score, from + 1)
    } else {
        seq![
            Action::Sound {
                top: score.top(from),
                duty: score.top(from) / 2,
                hold_ms: score.hold_ms(from),
            },
            Action::Silence { hold_ms: gap_ms(score.hold_ms(from)) },
        ] + playback(score, from + 1)
    }
}

/// As long as no reading shows a closed gate, nothing is played: whatever
/// else the driver reports, it is asked to read again.
pub proof fn lemma_nothing_plays_before_gate_closes(score: Score, events: Seq<Event>)
    requires
        forall|i: int| 0 <= i < events.len() ==> events[i] != (Event::Gate { high: false }),
    ensures
        stage_after(score, Stage::AwaitingGate, events) == Stage::AwaitingGate,
        actions_of(score, Stage::AwaitingGate, events).len() == events.len(),
        forall|i: int|
            0 <= i < events.len() ==> actions_of(score, Stage::AwaitingGate, events)[i]
                == Action::PollGate,
    decreases events.len(),
{
    if events.len() > 0 {
        let rest = events.drop_first();
        assert(events.first() == events[0]);
        assert forall|i: int| 0 <= i < rest.len() implies rest[i] != (Event::Gate {
            high: false,
        }) by {
            assert(rest[i] == events[i + 1]);
        }
        lemma_nothing_plays_before_gate_closes(score, rest);
    }
}

/// Once a reading shows a closed gate the melody is played from its first
/// entry to its last, once, whatever the driver reports meanwhile; then the
/// driver is told to return, and the player awaits its gating input again.
pub proof fn lemma_melody_plays_once_then_returns(score: Score, events: Seq<Event>)
    requires
        score.valid(),
        events.len() == playback(score, 0).len() + 1,
        events[0] == (Event::Gate { high: false }),
    ensures
        actions_of(score, Stage::AwaitingGate, events) == playback(score, 0).push(Action::Return),
        stage_after(score, Stage::AwaitingGate, events) == Stage::AwaitingGate,
{
    lemma_plays_from(score, Stage::AwaitingGate, events, 0);
}

/// The melody from `index` on, for a stage and an event that lead into the
/// entry at `index`.
proof fn lemma_plays_from(score: Score, stage: Stage, events: Seq<Event>, index: int)
    requires
        score.valid(),
        0 <= index <= score.song.len(),
        events.len() == playback(score, index).len() + 1,
        score.next(stage, events[0]) == score.enter(index),
    ensures
        actions_of(score, stage, events) == playback(score, index).push(Action::Return),
        stage_after(score, stage, events) == Stage::AwaitingGate,
    decreases score.song.len() - index,
{
    let (reached, action) = score.enter(index);
    let rest = events.drop_first();
    assert(events.first() == events[0]);
    if index >= score.song.len() {
        assert(rest.len() == 0);
        assert(actions_of(score, reached, rest) =~= Seq::<Action>::empty());
        assert(stage_after(score, reached, rest) == reached);
        assert(actions_of(score, stage, events) =~= playback(score, index).push(Action::Return));
    } else if score.top(index) == 0 {
        assert(reached == Stage::Silent(index as usize));
        assert(score.next(reached, rest[0]) == score.enter(index + 1));
        lemma_plays_from(score, reached, rest, index + 1);
        assert(actions_of(score, stage, events) =~= playback(score, index).push(Action::Return));
    } else {
        assert(reached == Stage::Sounding(index as usize));
        let silent = Stage::Silent(index as usize);
        let tail = rest.drop_first();
        assert(rest.first() == rest[0]);
        assert(score.next(reached, rest[0]).0 == silent);
        assert(score.next(silent, tail[0]) == score.enter(index + 1));
        lemma_plays_from(score, silent, tail, index + 1);
        assert(actions_of(score, reached, rest) =~= seq![
            Action::Silence { hold_ms: gap_ms(score.hold_ms(index)) },
        ] + actions_of(score, silent, tail));
        assert(stage_after(score, reached, rest) == stage_after(score, silent, tail));
        assert(actions_of(score, stage, events) =~= playback(score, index).push(Action::Return));
    }
}

} // verus!
