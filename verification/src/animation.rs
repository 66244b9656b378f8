//! Palette-indexed sprite animation.
//!
//! A frame is a 20 x 20 grid of palette indices rather than pixels, so one
//! frame costs 400 bytes plus a shared palette. Frames carry their own hold
//! time, so an animation can linger on a pose without padding the sequence
//! with duplicate frames.

use vstd::prelude::*;

verus! {

/// Cells per side.
pub const GRID: usize = 20;

/// Cells per frame.
pub const CELLS: usize = 400;

/// Colours available to a frame, index 0 being the background.
pub const PALETTE_LEN: usize = 10;

/// One frame: a palette index per cell, and how long it stays up.
pub struct Frame {
    pub cells: [u8; CELLS],
    pub hold_ms: u16,
}

/// A named sequence of frames sharing one palette.
pub struct Animation {
    pub name: &'static str,
    /// Red, green and blue, indexed by a frame's cell values.
    pub palette: [[u8; 3]; PALETTE_LEN],
    pub frames: &'static [Frame],
}

/// Walks an animation's frames, one at a time.
///
/// The player holds no timer of its own: the caller waits for [`Player::hold`]
/// and then calls [`Player::advance`], which keeps the animation on the same
/// event loop as everything else.
pub struct Player {
    animation: &'static Animation,
    frame: usize,
}

impl Player {
    /// The animation that is played.
    pub closed spec fn playing(self) -> Animation {
        *self.animation
    }

    /// Index of the current frame.
    pub closed spec fn position(self) -> nat {
        self.frame as nat
    }

    /// The current frame is one of the animation's.
    pub open spec fn wf(self) -> bool {
        self.position() == 0 || self.position() < self.playing().frames@.len()
    }

    /// The current frame.
    pub open spec fn current(self) -> Frame {
        self.playing().frames@[self.position() as int]
    }

    /// How long the current frame stays, in milliseconds.
    pub open spec fn held_ms(self) -> int {
        self.playing().frames@[self.position() as int].hold_ms as int
    }

    /// Start an animation at its first frame.
    pub fn new(animation: &'static Animation) -> (player: Self)
        ensures
            player.playing() == *animation,
            player.position() == 0,
            player.wf(),
    {
        Player { animation, frame: 0 }
    }

    /// The animation that is played.
    pub fn animation(&self) -> (animation: &'static Animation)
        ensures
            *animation == self.playing(),
    {
        self.animation
    }

    /// The current frame.
    pub fn frame(&self) -> (frame: &'static Frame)
        requires
            self.wf(),
            self.playing().frames@.len() > 0,
        ensures
            *frame == self.playing().frames@[self.position() as int],
            *frame == self.current(),
    {
        &self.animation.frames[self.frame]
    }

    /// How long the current frame should stay on screen, in milliseconds.
    pub fn hold(&self) -> (hold_ms: u64)
        requires
            self.wf(),
            self.playing().frames@.len() > 0,
        ensures
            hold_ms == self.playing().frames@[self.position() as int].hold_ms,
            hold_ms == self.held_ms(),
    {
        self.frame().hold_ms as u64
    }

    /// Step to the next frame, wrapping at the end.
    pub fn advance(&mut self)
        requires
            old(self).wf(),
            old(self).playing().frames@.len() > 0,
        ensures
            final(self).wf(),
            final(self).playing() == old(self).playing(),
            final(self).position() == successor(
                old(self).position(),
                old(self).playing().frames@.len(),
            ),
    {
        let count: usize = self.animation.frames.len();
        proof {
            if self.frame + 1 < count {
                vstd::arithmetic::div_mod::lemma_small_mod((self.frame + 1) as nat, count as nat);
            } else {
                vstd::arithmetic::div_mod::lemma_mod_self_0(count as int);
            }
        }
        self.frame = if self.frame + 1 == count {
            0
        } else {
            self.frame + 1
        };
    }

    /// Switch to another animation, restarting from its first frame.
    pub fn set_animation(&mut self, animation: &'static Animation)
        ensures
            final(self).playing() == *animation,
            final(self).position() == 0,
            final(self).wf(),
    {
        self.animation = animation;
        self.frame = 0;
    }
}

/// The frame after a frame.
pub open spec fn successor(position: nat, count: nat) -> nat {
    (position + 1) % count
}

/// The frame after some steps.
pub open spec fn advanced(position: nat, count: nat, steps: nat) -> nat
    decreases steps,
{
    if steps == 0 {
        position
    } else {
        successor(advanced(position, count, (steps - 1) as nat), count)
    }
}

proof fn lemma_advanced(position: nat, count: nat, steps: nat)
    requires
        position < count,
    ensures
        advanced(position, count, steps) == (position + steps) % count,
    decreases steps,
{
    if steps == 0 {
        vstd::arithmetic::div_mod::lemma_small_mod(position, count);
    } else {
        lemma_advanced(position, count, (steps - 1) as nat);
        vstd::arithmetic::div_mod::lemma_add_mod_noop_right(
            1,
            (position + steps - 1) as int,
            count as int,
        );
    }
}

/// An animation loops: as many steps as it has frames lead back to where it
/// was, and on the way every frame is shown.
pub proof fn law_animation_loops(position: nat, count: nat, other: nat)
    requires
        position < count,
        other < count,
    ensures
        advanced(position, count, count) == position,
        exists|steps: nat| steps < count && #[trigger] advanced(position, count, steps) == other,
{
    lemma_advanced(position, count, count);
    vstd::arithmetic::div_mod::lemma_mod_add_multiples_vanish(position as int, count as int);
    vstd::arithmetic::div_mod::lemma_small_mod(position, count);
    let steps: nat = if position <= other {
        (other - position) as nat
    } else {
        (other + count - position) as nat
    };
    lemma_advanced(position, count, steps);
    vstd::arithmetic::div_mod::lemma_small_mod(other, count);
    vstd::arithmetic::div_mod::lemma_mod_add_multiples_vanish(other as int, count as int);
    assert(advanced(position, count, steps) == other);
}

/// Each frame is shown in its turn and for its own time: players of one animation
/// at the same place show the same, and one that steps on from a frame shows the
/// next one, for as long as that says.
pub proof fn law_frames_are_held_their_own_time(player: Player, later: Player)
    requires
        player.wf(),
        later.wf(),
        player.playing() == later.playing(),
        player.playing().frames@.len() > 0,
    ensures
        later.position() == player.position() ==> later.current() == player.current(),
        player.held_ms() == player.current().hold_ms,
        later.position() == successor(player.position(), player.playing().frames@.len())
            ==> later.current() == player.playing().frames@[if player.position() + 1
            == player.playing().frames@.len() {
            0
        } else {
            player.position() + 1int
        }],
{
    let count = player.playing().frames@.len();
    let next = player.position() + 1;
    if next < count {
        vstd::arithmetic::div_mod::lemma_small_mod(next, count);
    } else {
        vstd::arithmetic::div_mod::lemma_mod_self_0(count as int);
    }
}

} // verus!
