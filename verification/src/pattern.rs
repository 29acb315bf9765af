//! A strip of pixels in a repeating blue, green, red pattern that moves one
//! slot per tick and is shown dimmed.

use vstd::prelude::*;
use vstd::arithmetic::div_mod::lemma_add_mod_noop;
use vstd::arithmetic::div_mod::lemma_basic_div;
use vstd::arithmetic::div_mod::lemma_mod_add_multiples_vanish;
use vstd::arithmetic::div_mod::lemma_mod_bound;
use vstd::arithmetic::div_mod::lemma_small_mod;
use vstd::seq_lib::lemma_seq_union_to_multiset_commutative;
use crate::pixel::Rgb;

verus! {

/// The time that the pattern takes to pass a pixel once round the strip, in
/// milliseconds.
pub const PERIOD_MS: u32 = 1200;

/// The colour that the pattern gives the pixel at `index`: blue, green and
/// red in turn, starting with blue.
pub open spec fn pattern_color(index: int) -> Rgb {
    if index % 3 == 0 {
        Rgb { r: 0, g: 0, b: 255 }
    } else if index % 3 == 1 {
        Rgb { r: 0, g: 255, b: 0 }
    } else if index % 3 == 2 {
        Rgb { r: 255, g: 0, b: 0 }
    } else {
        Rgb::black()
    }
}

/// The pattern on a strip of `len` pixels.
pub open spec fn pattern(len: nat) -> Seq<Rgb> {
    Seq::new(len, |index: int| pattern_color(index))
}

/// `frame` moved left by `by` slots, what leaves at the front coming back in
/// at the end.
pub open spec fn rotated<T>(frame: Seq<T>, by: nat) -> Seq<T> {
    Seq::new(frame.len(), |index: int| frame[(index + by) % (frame.len() as int)])
}

/// `frame` after `ticks` moves of one slot each.
pub open spec fn advanced<T>(frame: Seq<T>, ticks: nat) -> Seq<T>
    decreases ticks,
{
    if ticks == 0 {
        frame
    } else {
        rotated(advanced(frame, (ticks - 1) as nat), 1)
    }
}

/// The pattern on a strip as long as `frame`, moved by some number of slots.
pub open spec fn is_turned_pattern(frame: Seq<Rgb>) -> bool {
    exists|by: nat| frame == #[trigger] rotated(pattern(frame.len()), by)
}

/// A channel at `scale` parts in 255 of its brightness, rounded down.
pub open spec fn scaled_channel(channel: u8, scale: u8) -> u8 {
    (channel * scale / 255) as u8
}

/// A pixel with each channel at `scale` parts in 255 of its brightness.
pub open spec fn scaled(pixel: Rgb, scale: u8) -> Rgb {
    Rgb {
        r: scaled_channel(pixel.r, scale),
        g: scaled_channel(pixel.g, scale),
        b: scaled_channel(pixel.b, scale),
    }
}

/// A channel as `smart_leds::brightness` dims it: `level + 1` parts in 256,
/// rounded down.
pub open spec fn dimmed_channel(channel: u8, level: u8) -> u8 {
    (channel * (level + 1) / 256) as u8
}

/// A pixel as `smart_leds::brightness` dims it.
pub open spec fn dimmed(pixel: Rgb, level: u8) -> Rgb {
    Rgb {
        r: dimmed_channel(pixel.r, level),
        g: dimmed_channel(pixel.g, level),
        b: dimmed_channel(pixel.b, level),
    }
}

/// Runs a frame through `smart_leds::brightness`. That iterator adaptor hands
/// on as many pixels as it is given, in their order, each channel of each
/// multiplied by `level + 1` and divided by 256 in sixteen-bit arithmetic.
#[verifier::external_body]
fn dim(frame: &Vec<Rgb>, level: u8) -> (out: Vec<Rgb>)
    ensures
        out@.len() == frame@.len(),
        forall|i: int| 0 <= i < frame@.len() ==> out@[i] == dimmed(frame@[i], level),
{
    let pixels = frame.iter().map(|p| smart_leds::RGB8 { r: p.r, g: p.g, b: p.b });
    smart_leds::brightness(pixels, level).map(|p| Rgb { r: p.r, g: p.g, b: p.b }).collect()
}

/// Moves every pixel of `buffer` one slot to the left, in place; the first
/// comes back in at the end.
fn rotate_left_one(buffer: &mut Vec<Rgb>)
    requires
        old(buffer)@.len() > 0,
    ensures
        final(buffer)@ == old(buffer)@.subrange(1, old(buffer)@.len() as int).push(old(buffer)@[0]),
    no_unwind
{
    let len = buffer.len();
    let first = buffer[0];
    let mut slot: usize = 0;
    while slot + 1 < len
        invariant
            len == old(buffer)@.len(),
            buffer@.len() == len,
            slot < len,
            forall|j: int| 0 <= j < slot ==> buffer@[j] == old(buffer)@[j + 1],
            forall|j: int| slot <= j < len ==> buffer@[j] == old(buffer)@[j],
        decreases len - slot,
    {
        let next = buffer[slot + 1];
        buffer[slot] = next;
        slot += 1;
    }
    buffer[len - 1] = first;
    assert(buffer@ =~= old(buffer)@.subrange(1, len as int).push(old(buffer)@[0]));
}

/// A strip that shows the pattern, moved on by one slot at each tick.
pub struct PatternRotator {
    buffer: Vec<Rgb>,
    brightness_scale: u8,
}

impl View for PatternRotator {
    type V = Seq<Rgb>;

    /// The strip's colours at full brightness, first pixel first.
    closed spec fn view(&self) -> Seq<Rgb> {
        self.buffer@
    }
}

impl PatternRotator {
    #[verifier::type_invariant]
    spec fn well_formed(&self) -> bool {
        &&& self.buffer@.len() > 0
        &&& is_turned_pattern(self.buffer@)
    }

    /// How bright the strip is shown, in parts of 255.
    pub closed spec fn scale(&self) -> u8 {
        self.brightness_scale
    }

    /// A strip of `len` pixels that holds the pattern from its start and is
    /// shown at `brightness_scale` parts in 255. There is no strip without
    /// pixels.
    pub fn new(len: usize, brightness_scale: u8) -> (made: Option<PatternRotator>)
        ensures
            made is None <==> len == 0,
            made matches Some(rotator) ==> {
                &&& rotator@ == pattern(len as nat)
                &&& rotator@.len() == len
                &&& rotator.scale() == brightness_scale
            },
    {
        if len == 0 {
            return None;
        }
        let mut buffer: Vec<Rgb> = Vec::new();
        let mut index: usize = 0;
        while index < len
            invariant
                index <= len,
                buffer@ == pattern(index as nat),
            decreases len - index,
        {
            let color = match index % 3 {
                0 => Rgb { r: 0, g: 0, b: 255 },
                1 => Rgb { r: 0, g: 255, b: 0 },
                2 => Rgb { r: 255, g: 0, b: 0 },
                _ => Rgb { r: 0, g: 0, b: 0 },
            };
            buffer.push(color);
            index += 1;
            assert(buffer@ =~= pattern(index as nat));
        }
        proof {
            lemma_rotated_by_zero(pattern(len as nat));
        }
        Some(PatternRotator { buffer, brightness_scale })
    }

    /// The number of pixels.
    pub fn len(&self) -> (len: usize)
        ensures
            len == self@.len(),
            len > 0,
    {
        proof {
            use_type_invariant(self);
        }
        self.buffer.len()
    }

    /// How bright the strip is shown, in parts of 255.
    pub fn brightness_scale(&self) -> (scale: u8)
        ensures
            scale == self.scale(),
    {
        self.brightness_scale
    }

    /// The strip's colours at full brightness: the pattern, moved by as many
    /// slots as there were ticks.
    pub fn current_frame(&self) -> (frame: &Vec<Rgb>)
        ensures
            frame@ == self@,
            is_turned_pattern(frame@),
    {
        proof {
            use_type_invariant(self);
        }
        &self.buffer
    }

    /// The frame to send to the strip: the current frame with every channel
    /// scaled down to `scale` parts in 255. The stored colours stay as they
    /// are.
    pub fn scaled_frame(&self) -> (frame: Vec<Rgb>)
        ensures
            frame@.len() == self@.len(),
            forall|i: int| 0 <= i < self@.len() ==> frame@[i] == scaled(self@[i], self.scale()),
    {
        proof {
            use_type_invariant(self);
        }
        let frame = dim(&self.buffer, self.brightness_scale);
        proof {
            let by = choose|by: nat| self.buffer@ == #[trigger] rotated(
                pattern(self.buffer@.len()),
                by,
            );
            assert forall|i: int| 0 <= i < self@.len() implies frame@[i] == scaled(
                self@[i],
                self.scale(),
            ) by {
                lemma_mod_bound(i + by, self.buffer@.len() as int);
                lemma_dimmed_pattern_color((i + by) % (self.buffer@.len() as int), self.scale());
            }
        }
        frame
    }

    /// One tick: every pixel takes the colour of its right neighbour, and the
    /// last takes that of the first.
    pub fn advance(&mut self)
        ensures
            final(self)@.len() == old(self)@.len(),
            final(self)@ == old(self)@.subrange(1, old(self)@.len() as int).push(old(self)@[0]),
            final(self)@ == rotated(old(self)@, 1),
            final(self)@.to_multiset() == old(self)@.to_multiset(),
            final(self).scale() == old(self).scale(),
    {
        proof {
            use_type_invariant(&*self);
            let by = choose|by: nat| self.buffer@ == #[trigger] rotated(
                pattern(self.buffer@.len()),
                by,
            );
            lemma_rotated_twice(pattern(self.buffer@.len()), by, 1);
            lemma_rotation_keeps_colors(self.buffer@, 1);
            let turned = rotated(self.buffer@, 1);
            assert(turned == rotated(pattern(turned.len()), by + 1));
            assert(is_turned_pattern(turned));
            lemma_rotated_by_one(self.buffer@);
        }
        rotate_left_one(&mut self.buffer);
    }

    /// The time from one frame to the next, in milliseconds: the pattern's
    /// period shared out among the pixels, rounded down.
    pub fn tick_interval_ms(&self) -> (ms: u32)
        ensures
            ms == PERIOD_MS as int / self@.len() as int,
    {
        proof {
            use_type_invariant(self);
        }
        let len = self.buffer.len();
        if len > PERIOD_MS as usize {
            proof {
                lemma_basic_div(PERIOD_MS as int, len as int);
            }
            0
        } else {
            PERIOD_MS / (len as u32)
        }
    }
}

/// On the colours of the pattern, whose channels are full or off, the dimming
/// of `smart_leds::brightness` is the scaling in parts of 255.
pub proof fn lemma_dimmed_pattern_color(index: int, scale: u8)
    ensures
        dimmed(pattern_color(index), scale) == scaled(pattern_color(index), scale),
{
}

/// Moving by nothing changes nothing.
pub proof fn lemma_rotated_by_zero<T>(frame: Seq<T>)
    ensures
        rotated(frame, 0) == frame,
{
    assert forall|index: int| 0 <= index < frame.len() implies rotated(frame, 0)[index]
        == frame[index] by {
        lemma_small_mod(index as nat, frame.len());
    }
    assert(rotated(frame, 0) =~= frame);
}

/// Moving by one slot takes the first pixel off the front and puts it on
/// behind the last.
pub proof fn lemma_rotated_by_one<T>(frame: Seq<T>)
    requires
        frame.len() > 0,
    ensures
        rotated(frame, 1) == frame.subrange(1, frame.len() as int).push(frame[0]),
{
    let len = frame.len() as int;
    assert forall|index: int| 0 <= index < len implies rotated(frame, 1)[index] == frame.subrange(
        1,
        len,
    ).push(frame[0])[index] by {
        if index + 1 < len {
            lemma_small_mod((index + 1) as nat, len as nat);
        } else {
            lemma_mod_add_multiples_vanish(0, len);
            lemma_small_mod(0, len as nat);
        }
    }
    assert(rotated(frame, 1) =~= frame.subrange(1, len).push(frame[0]));
}

/// Moving by `first` slots and then by `second` is moving by their sum.
pub proof fn lemma_rotated_twice<T>(frame: Seq<T>, first: nat, second: nat)
    ensures
        rotated(rotated(frame, first), second) == rotated(frame, first + second),
{
    let len = frame.len() as int;
    assert forall|index: int| 0 <= index < len implies rotated(rotated(frame, first), second)[index]
        == rotated(frame, first + second)[index] by {
        let mid = (index + second) % len;
        lemma_mod_bound(index + second, len);
        lemma_add_mod_noop(index + second, first as int, len);
        lemma_add_mod_noop(mid, first as int, len);
        lemma_small_mod(mid as nat, len as nat);
    }
    assert(rotated(rotated(frame, first), second) =~= rotated(frame, first + second));
}

/// The count of slots wraps at the strip's length: moving by `by` is moving by
/// what is left of `by` over the length.
pub proof fn lemma_rotation_wraps<T>(frame: Seq<T>, by: nat)
    requires
        frame.len() > 0,
    ensures
        rotated(frame, by) == rotated(frame, by % frame.len()),
{
    let len = frame.len() as int;
    assert forall|index: int| 0 <= index < len implies rotated(frame, by)[index] == rotated(
        frame,
        by % frame.len(),
    )[index] by {
        lemma_add_mod_noop(index, by as int, len);
        lemma_add_mod_noop(index, by as int % len, len);
        lemma_mod_bound(by as int, len);
        lemma_small_mod((by as int % len) as nat, len as nat);
    }
    assert(rotated(frame, by) =~= rotated(frame, by % frame.len()));
}

/// Moving a frame keeps its colours, each as often as before.
pub proof fn lemma_rotation_keeps_colors<T>(frame: Seq<T>, by: nat)
    ensures
        rotated(frame, by).to_multiset() == frame.to_multiset(),
{
    if frame.len() > 0 {
        let len = frame.len() as int;
        let cut = by as int % len;
        lemma_mod_bound(by as int, len);
        lemma_rotation_wraps(frame, by);
        let front = frame.subrange(0, cut);
        let back = frame.subrange(cut, len);
        assert forall|index: int| 0 <= index < len implies rotated(frame, cut as nat)[index] == (back
            + front)[index] by {
            if index + cut < len {
                lemma_small_mod((index + cut) as nat, len as nat);
            } else {
                lemma_mod_add_multiples_vanish(index + cut - len, len);
                lemma_small_mod((index + cut - len) as nat, len as nat);
            }
        }
        assert(rotated(frame, cut as nat) =~= back + front);
        assert(frame =~= front + back);
        lemma_seq_union_to_multiset_commutative(front, back);
    } else {
        assert(rotated(frame, by) =~= frame);
    }
}

/// Ticks add up: `ticks` moves of one slot are one move of `ticks` slots.
pub proof fn lemma_advanced_is_rotated<T>(frame: Seq<T>, ticks: nat)
    ensures
        advanced(frame, ticks) == rotated(frame, ticks),
    decreases ticks,
{
    if ticks == 0 {
        lemma_rotated_by_zero(frame);
    } else {
        lemma_advanced_is_rotated(frame, (ticks - 1) as nat);
        lemma_rotated_twice(frame, (ticks - 1) as nat, 1);
    }
}

/// After as many ticks as the strip has pixels, every pixel is back where it
/// began.
pub proof fn lemma_full_turn_restores<T>(frame: Seq<T>)
    ensures
        advanced(frame, frame.len()) == frame,
{
    lemma_advanced_is_rotated(frame, frame.len());
    if frame.len() > 0 {
        lemma_rotation_wraps(frame, frame.len());
        assert(frame.len() as int % frame.len() as int == 0) by {
            lemma_mod_add_multiples_vanish(0, frame.len() as int);
            lemma_small_mod(0, frame.len());
        }
        lemma_rotated_by_zero(frame);
    } else {
        assert(rotated(frame, 0) =~= frame);
    }
}

} // verus!
