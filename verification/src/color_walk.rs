//! One pixel whose colour wanders: at each tick at most one channel moves a
//! step up or down, and a channel that would leave its range turns round.

use rand::rngs::SmallRng;
use rand::Rng;
use rand::SeedableRng;
use vstd::prelude::*;
use crate::pixel::Rgb;

verus! {

/// How far a channel moves in one step.
pub const STEP: i8 = 5;

/// The three channels, in the order in which they are offered a move.
#[derive(Clone, Copy, Debug, PartialEq, Eq, Structural)]
pub enum Channel {
    Red,
    Green,
    Blue,
}

impl Channel {
    /// The channel's place in the scanning order.
    pub open spec fn index(self) -> int {
        match self {
            Channel::Red => 0,
            Channel::Green => 1,
            Channel::Blue => 2,
        }
    }

    fn slot(self) -> (slot: usize)
        ensures
            slot == self.index(),
    {
        match self {
            Channel::Red => 0,
            Channel::Green => 1,
            Channel::Blue => 2,
        }
    }
}

/// One channel of the walk: its value and the sign of its next step.
pub struct Lane {
    pub value: int,
    pub direction: int,
}

impl Lane {
    /// The value is a channel's, and the direction is up (1) or down (-1).
    pub open spec fn valid(self) -> bool {
        &&& 0 <= self.value <= 255
        &&& (self.direction == 1 || self.direction == -1)
    }

    /// A step in the lane's direction would end outside the channel's range.
    pub open spec fn at_the_end(self) -> bool {
        let target = self.value + STEP * self.direction;
        target < 0 || target > 255
    }

    /// The lane after its move: a step in its direction or, where that would
    /// leave the range, a step the other way, which it then keeps to.
    pub open spec fn stepped(self) -> Lane {
        if self.at_the_end() {
            Lane { value: self.value - STEP * self.direction, direction: -self.direction }
        } else {
            Lane { value: self.value + STEP * self.direction, direction: self.direction }
        }
    }
}

/// The state of a walk: a lane for red, for green and for blue.
pub struct Walk {
    pub lanes: Seq<Lane>,
}

impl Walk {
    /// Where every walk begins: black, every channel heading up.
    pub open spec fn start() -> Walk {
        Walk { lanes: Seq::new(3, |i: int| Lane { value: 0, direction: 1 }) }
    }

    /// There are three lanes and each is valid.
    pub open spec fn valid(self) -> bool {
        &&& self.lanes.len() == 3
        &&& forall|i: int| 0 <= i < 3 ==> (#[trigger] self.lanes[i]).valid()
    }

    /// The walk after a tick in which `pick` moved, or nothing did.
    pub open spec fn moved(self, pick: Option<Channel>) -> Walk {
        match pick {
            None => self,
            Some(channel) => Walk {
                lanes: self.lanes.update(channel.index(), self.lanes[channel.index()].stepped()),
            },
        }
    }

    /// The colour that the walk shows.
    pub open spec fn frame(self) -> Rgb {
        Rgb {
            r: self.lanes[0].value as u8,
            g: self.lanes[1].value as u8,
            b: self.lanes[2].value as u8,
        }
    }

    /// The walk after one tick for each of `picks`, in their order.
    pub open spec fn after(self, picks: Seq<Option<Channel>>) -> Walk
        decreases picks.len(),
    {
        if picks.len() == 0 {
            self
        } else {
            self.moved(picks.first()).after(picks.drop_first())
        }
    }

    /// The colours shown at the ticks of `picks`, one for each.
    pub open spec fn frames(self, picks: Seq<Option<Channel>>) -> Seq<Rgb> {
        Seq::new(picks.len(), |tick: int| self.after(picks.take(tick + 1)).frame())
    }
}

/// The colour and the directions of a walk, without the source of its moves.
pub struct WalkState {
    color: [u8; 3],
    direction: [i8; 3],
}

impl View for WalkState {
    type V = Walk;

    closed spec fn view(&self) -> Walk {
        Walk {
            lanes: Seq::new(
                3,
                |i: int| Lane { value: self.color[i] as int, direction: self.direction[i] as int },
            ),
        }
    }
}

impl WalkState {
    #[verifier::type_invariant]
    spec fn well_formed(&self) -> bool {
        &&& self.direction[0] == 1 || self.direction[0] == -1
        &&& self.direction[1] == 1 || self.direction[1] == -1
        &&& self.direction[2] == 1 || self.direction[2] == -1
    }

    /// The state that every walk begins in.
    pub fn new() -> (state: WalkState)
        ensures
            state@ == Walk::start(),
    {
        let state = WalkState { color: [0, 0, 0], direction: [1, 1, 1] };
        assert(state@.lanes =~= Walk::start().lanes);
        state
    }

    /// A walk that stands at `color` with the given directions, red first.
    /// A direction is 1 or -1; with any other there is no such walk.
    pub fn from_parts(color: [u8; 3], direction: [i8; 3]) -> (made: Option<WalkState>)
        ensures
            made is Some <==> forall|i: int| 0 <= i < 3 ==> direction[i] == 1 || direction[i] == -1,
            made matches Some(state) ==> {
                &&& state@.valid()
                &&& forall|i: int|
                    0 <= i < 3 ==> state@.lanes[i] == (Lane {
                        value: color[i] as int,
                        direction: direction[i] as int,
                    })
            },
    {
        let mut i: usize = 0;
        while i < 3
            invariant
                i <= 3,
                forall|j: int| 0 <= j < i ==> direction[j] == 1 || direction[j] == -1,
            decreases 3 - i,
        {
            if direction[i] != 1 && direction[i] != -1 {
                return None;
            }
            i += 1;
        }
        Some(WalkState { color, direction })
    }

    /// The colour that the walk shows.
    pub fn color(&self) -> (color: Rgb)
        ensures
            color == self@.frame(),
            self@.valid(),
    {
        proof {
            use_type_invariant(self);
        }
        Rgb { r: self.color[0], g: self.color[1], b: self.color[2] }
    }

    /// The direction of `channel`: 1 for up, -1 for down.
    pub fn direction(&self, channel: Channel) -> (direction: i8)
        ensures
            direction == self@.lanes[channel.index()].direction,
            direction == 1 || direction == -1,
    {
        proof {
            use_type_invariant(self);
            assert(self@.lanes[channel.index()].valid());
        }
        self.direction[channel.slot()]
    }

    /// One tick. The channel `moved`, if there is one, takes a step in its
    /// direction; where that would take it out of its range it turns round
    /// and takes the step the other way. The other channels stay. Returns
    /// the colour to show.
    pub fn step(&mut self, moved: Option<Channel>) -> (frame: Rgb)
        ensures
            final(self)@ == old(self)@.moved(moved),
            final(self)@.valid(),
            frame == final(self)@.frame(),
    {
        proof {
            use_type_invariant(&*self);
        }
        if let Some(channel) = moved {
            let slot = channel.slot();
            assert(self@.lanes[slot as int].valid());
            let stride: i8 = STEP * self.direction[slot];
            match self.color[slot].checked_add_signed(stride) {
                Some(value) => {
                    self.color[slot] = value;
                },
                None => {
                    let back: i8 = -self.direction[slot];
                    self.direction[slot] = back;
                    self.color[slot] = self.color[slot].checked_add_signed(STEP * back).unwrap();
                },
            }
            assert(self@.lanes =~= old(self)@.moved(moved).lanes);
        }
        Rgb { r: self.color[0], g: self.color[1], b: self.color[2] }
    }
}

/// `rand::rngs::SmallRng`, the generator that the moves are drawn from. What
/// it holds is not looked into.
#[verifier::external_type_specification]
#[verifier::external_body]
pub struct ExSmallRng(rand::rngs::SmallRng);

/// A generator seeded through `SeedableRng::seed_from_u64`. Nothing is
/// claimed of it.
#[verifier::external_body]
fn seeded_rng(seed: u64) -> SmallRng {
    SmallRng::seed_from_u64(seed)
}

/// One draw of `Rng::gen_ratio` at one in two, which is true as often as not
/// and moves the generator on. Either answer can come.
#[verifier::external_body]
fn flip_coin(rng: &mut SmallRng) -> bool {
    rng.gen_ratio(1, 2)
}

/// The coins of one scan, in the order in which they were drawn: one for red,
/// then one for green, then one for blue, and none behind the first that
/// came up true.
pub open spec fn is_scan(coins: Seq<bool>) -> bool {
    &&& 1 <= coins.len() <= 3
    &&& forall|i: int| 0 <= i < coins.len() - 1 ==> !coins[i]
    &&& coins.len() < 3 ==> coins.last()
}

/// The channel that a scan picks: the first whose coin came up true, or none
/// if no coin did.
pub open spec fn picked(coins: Seq<bool>) -> Option<Channel> {
    if coins.len() > 0 && coins[0] {
        Some(Channel::Red)
    } else if coins.len() > 1 && coins[1] {
        Some(Channel::Green)
    } else if coins.len() > 2 && coins[2] {
        Some(Channel::Blue)
    } else {
        None
    }
}

/// Offers a move to red, then green, then blue, a coin for each; the first
/// whose coin comes up true is picked and the others are not asked. If no
/// coin does, nothing moves. Beside the pick it hands back, for the proofs,
/// the coins as they fell.
fn draw_channel(rng: &mut SmallRng) -> (drawn: (Option<Channel>, Ghost<Seq<bool>>))
    ensures
        is_scan(drawn.1@),
        drawn.0 == picked(drawn.1@),
{
    let red = flip_coin(rng);
    if red {
        let coins: Ghost<Seq<bool>> = Ghost(Seq::empty().push(red));
        return (Some(Channel::Red), coins);
    }
    let green = flip_coin(rng);
    if green {
        let coins: Ghost<Seq<bool>> = Ghost(Seq::empty().push(red).push(green));
        return (Some(Channel::Green), coins);
    }
    let blue = flip_coin(rng);
    let coins: Ghost<Seq<bool>> = Ghost(Seq::empty().push(red).push(green).push(blue));
    if blue {
        (Some(Channel::Blue), coins)
    } else {
        (None, coins)
    }
}

/// A walk together with the seeded generator that picks its moves.
pub struct ColorWalkGenerator {
    state: WalkState,
    rng: SmallRng,
}

impl ColorWalkGenerator {
    /// The colour and directions of the walk.
    pub closed spec fn walk(&self) -> Walk {
        self.state@
    }

    /// A walk at its start, its moves drawn from a generator seeded with
    /// `seed`.
    pub fn new(seed: u64) -> (generator: ColorWalkGenerator)
        ensures
            generator.walk() == Walk::start(),
    {
        ColorWalkGenerator { state: WalkState::new(), rng: seeded_rng(seed) }
    }

    /// The colour that the walk shows now.
    pub fn color(&self) -> (color: Rgb)
        ensures
            color == self.walk().frame(),
            self.walk().valid(),
    {
        self.state.color()
    }

    /// One tick: scans the channels with a coin each for the one that moves,
    /// moves it, and returns the colour to show.
    pub fn next_frame(&mut self) -> (frame: Rgb)
        ensures
            exists|coins: Seq<bool>|
                is_scan(coins) && final(self).walk() == old(self).walk().moved(
                    #[trigger] picked(coins),
                ),
            final(self).walk().valid(),
            frame == final(self).walk().frame(),
    {
        let (pick, Ghost(coins)) = draw_channel(&mut self.rng);
        let frame = self.state.step(pick);
        assert(self.walk() == old(self).walk().moved(picked(coins)));
        frame
    }
}

/// A valid lane is valid after its move: a step never takes a channel out of
/// its range, and the step back at an end lands inside it.
pub proof fn lemma_step_stays_in_range(lane: Lane)
    requires
        lane.valid(),
    ensures
        lane.stepped().valid(),
{
}

/// However many ticks pass and whichever channels are picked, every channel
/// stays within its range and every direction stays 1 or -1.
pub proof fn lemma_walk_stays_in_range(walk: Walk, picks: Seq<Option<Channel>>)
    requires
        walk.valid(),
    ensures
        walk.after(picks).valid(),
    decreases picks.len(),
{
    if picks.len() > 0 {
        let next = walk.moved(picks.first());
        match picks.first() {
            None => {},
            Some(channel) => {
                assert(walk.lanes[channel.index()].valid());
                lemma_step_stays_in_range(walk.lanes[channel.index()]);
                assert forall|i: int| 0 <= i < 3 implies (#[trigger] next.lanes[i]).valid() by {
                    if i != channel.index() {
                        assert(walk.lanes[i].valid());
                    }
                }
            },
        }
        lemma_walk_stays_in_range(next, picks.drop_first());
    }
}

/// A lane turns exactly where its step would leave the range: heading up from
/// above 250 it goes down by a step, heading down from below 5 it goes up by
/// a step, and its direction is the other one from then on. Anywhere else it
/// takes its step and keeps its direction.
pub proof fn lemma_turns_at_the_ends(lane: Lane)
    requires
        lane.valid(),
    ensures
        lane.at_the_end() <==> (lane.direction == 1 && lane.value > 255 - STEP) || (lane.direction
            == -1 && lane.value < STEP),
        lane.at_the_end() && lane.direction == 1 ==> lane.stepped() == (Lane {
            value: lane.value - STEP,
            direction: -1,
        }),
        lane.at_the_end() && lane.direction == -1 ==> lane.stepped() == (Lane {
            value: lane.value + STEP,
            direction: 1,
        }),
        !lane.at_the_end() ==> lane.stepped() == (Lane {
            value: lane.value + STEP * lane.direction,
            direction: lane.direction,
        }),
{
}

/// A tick changes the direction of a channel only if that channel was picked
/// and stood at an end; a channel that was not picked keeps its value too.
pub proof fn lemma_direction_kept_until_turn(walk: Walk, pick: Option<Channel>, channel: Channel)
    requires
        walk.valid(),
    ensures
        walk.moved(pick).lanes[channel.index()].direction != walk.lanes[channel.index()].direction
            <==> pick == Some(channel) && walk.lanes[channel.index()].at_the_end(),
        pick != Some(channel) ==> walk.moved(pick).lanes[channel.index()]
            == walk.lanes[channel.index()],
{
    assert(walk.lanes[channel.index()].valid());
}

/// What a walk shows is decided by where it stands and which channels are
/// picked, and by nothing else: two walks that agree in both show the same
/// colours tick by tick and stand alike at the end.
pub proof fn lemma_same_picks_same_frames(first: Walk, second: Walk, picks: Seq<Option<Channel>>)
    requires
        first == second,
    ensures
        first.frames(picks) == second.frames(picks),
        first.after(picks) == second.after(picks),
{
}

} // verus!
