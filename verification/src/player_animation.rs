//! Which picture of the player is shown: idling, planting or mailing.

use vstd::prelude::*;
use crate::player::{throws_view, ThrowSeedEvent, ThrowSeedView};
use crate::sound::{SoundEffect, SoundRequest};
use crate::timer::{fresh_timer, Timer, TimerMode};

verus! {

pub const IDLE_FRAME: usize = 0;

/// Time the idle picture is shown before it is set anew, in microseconds.
pub const IDLE_INTERVAL: u64 = 500_000;

pub const PLANTING_FRAME_RIGHT: usize = 2;

pub const PLANTING_FRAME_LEFT: usize = 1;

/// Time the planting picture is shown, in microseconds.
pub const PLANTING_INTERVAL: u64 = 500_000;

pub const MAILING_FRAME: usize = 1;

/// Time the mailing picture is shown, in microseconds.
pub const MAILING_INTERVAL: u64 = 250_000;

/// What the player is seen doing. Planting is to the left or to the right.
#[derive(Clone, Copy, Debug, PartialEq, Eq, Structural)]
pub enum PlayerAnimationState {
    Idling,
    Planting(bool),
    Mailing,
}

/// The picture of the player and the time it is shown for.
#[derive(Clone, Copy, Debug, PartialEq, Eq, Structural)]
pub struct PlayerAnimation {
    pub timer: Timer,
    pub frame: usize,
    pub state: PlayerAnimationState,
}

/// The animation as it starts out in `state`: the picture of the state,
/// and a fresh timer over the time the state is shown for.
pub open spec fn started(state: PlayerAnimationState) -> PlayerAnimation {
    match state {
        PlayerAnimationState::Idling => PlayerAnimation {
            timer: fresh_timer(IDLE_INTERVAL, TimerMode::Once),
            frame: IDLE_FRAME,
            state,
        },
        PlayerAnimationState::Planting(left) => PlayerAnimation {
            timer: fresh_timer(PLANTING_INTERVAL, TimerMode::Once),
            frame: if left {
                PLANTING_FRAME_LEFT
            } else {
                PLANTING_FRAME_RIGHT
            },
            state,
        },
        PlayerAnimationState::Mailing => PlayerAnimation {
            timer: fresh_timer(MAILING_INTERVAL, TimerMode::Once),
            frame: MAILING_FRAME,
            state,
        },
    }
}

impl PlayerAnimation {
    /// The animation once `state` was asked for: started anew where the
    /// state changes, left alone where it does not.
    pub open spec fn with_state(self, state: PlayerAnimationState) -> PlayerAnimation {
        if self.state != state {
            started(state)
        } else {
            self
        }
    }

    /// The animation after `delta` more microseconds: when the time of the
    /// picture is up, the player idles.
    pub open spec fn after_tick(self, delta: u64) -> PlayerAnimation {
        let ticked = PlayerAnimation { timer: self.timer.after_tick(delta), ..self };
        if ticked.timer.finished {
            ticked.with_state(PlayerAnimationState::Idling)
        } else {
            ticked
        }
    }

    /// The number of the picture to show.
    pub fn frame(&self) -> (f: usize)
        ensures
            f == self.frame,
    {
        self.frame
    }

    pub fn idling() -> (a: PlayerAnimation)
        ensures
            a == started(PlayerAnimationState::Idling),
    {
        PlayerAnimation {
            timer: Timer::new(IDLE_INTERVAL, TimerMode::Once),
            frame: IDLE_FRAME,
            state: PlayerAnimationState::Idling,
        }
    }

    pub fn planting(left: bool) -> (a: PlayerAnimation)
        ensures
            a == started(PlayerAnimationState::Planting(left)),
    {
        let frame = if left {
            PLANTING_FRAME_LEFT
        } else {
            PLANTING_FRAME_RIGHT
        };
        PlayerAnimation {
            timer: Timer::new(PLANTING_INTERVAL, TimerMode::Once),
            frame,
            state: PlayerAnimationState::Planting(left),
        }
    }

    pub fn mailing() -> (a: PlayerAnimation)
        ensures
            a == started(PlayerAnimationState::Mailing),
    {
        PlayerAnimation {
            timer: Timer::new(MAILING_INTERVAL, TimerMode::Once),
            frame: MAILING_FRAME,
            state: PlayerAnimationState::Mailing,
        }
    }

    /// The animation of a player who idles.
    pub fn new() -> (a: PlayerAnimation)
        ensures
            a == started(PlayerAnimationState::Idling),
    {
        PlayerAnimation::idling()
    }

    /// Advances the animation by `delta` microseconds.
    pub fn update_timer(&mut self, delta: u64)
        ensures
            *final(self) == old(self).after_tick(delta),
    {
        self.timer.tick(delta);
        if self.timer.finished() {
            self.update_state(PlayerAnimationState::Idling);
        }
    }

    /// Changes to `state`, unless the animation is in it already.
    pub fn update_state(&mut self, state: PlayerAnimationState)
        ensures
            *final(self) == old(self).with_state(state),
    {
        if self.state != state {
            match state {
                PlayerAnimationState::Idling => {
                    *self = PlayerAnimation::idling();
                },
                PlayerAnimationState::Planting(left) => {
                    *self = PlayerAnimation::planting(left);
                },
                PlayerAnimationState::Mailing => {
                    *self = PlayerAnimation::mailing();
                },
            }
        }
    }
}

/// The throw is one by the player, along a path that is not empty.
pub open spec fn is_player_throw(throw: ThrowSeedView) -> bool {
    throw.from_player && throw.path.len() > 0
}

/// The player throws to the left: the second point of the path lies left
/// of the first.
pub open spec fn throws_left(throw: ThrowSeedView) -> bool {
    throw.path.len() >= 2 && throw.path[0].x > throw.path[1].x
}

/// The animation after the first `count` throws were seen, in order: each
/// throw of the player shows the player planting, to the side of the throw.
pub open spec fn animation_after_throws(
    animation: PlayerAnimation,
    throws: Seq<ThrowSeedView>,
    count: nat,
) -> PlayerAnimation
    decreases count,
{
    if count == 0 {
        animation
    } else {
        let before = animation_after_throws(animation, throws, (count - 1) as nat);
        if is_player_throw(throws[count - 1]) {
            before.with_state(PlayerAnimationState::Planting(throws_left(throws[count - 1])))
        } else {
            before
        }
    }
}

/// The sounds of the first `count` throws: one for each throw of the
/// player, where the throw starts.
pub open spec fn throw_sounds(throws: Seq<ThrowSeedView>, count: nat) -> Seq<SoundRequest>
    decreases count,
{
    if count == 0 {
        Seq::empty()
    } else {
        let before = throw_sounds(throws, (count - 1) as nat);
        if is_player_throw(throws[count - 1]) {
            before.push(
                SoundRequest { sound: SoundEffect::Throw, position: throws[count - 1].path[0] },
            )
        } else {
            before
        }
    }
}

/// Shows the player planting for each of the player's throws, and asks
/// for the sound of each. Throws by a relay, and throws along an empty
/// path, are passed over.
pub fn animate_throw_seed(animation: &mut PlayerAnimation, throws: &Vec<ThrowSeedEvent>) -> (sounds:
    Vec<SoundRequest>)
    ensures
        *final(animation) == animation_after_throws(
            *old(animation),
            throws_view(throws@),
            throws@.len(),
        ),
        sounds@ == throw_sounds(throws_view(throws@), throws@.len()),
{
    let mut sounds: Vec<SoundRequest> = Vec::new();
    let mut i: usize = 0;
    while i < throws.len()
        invariant
            i <= throws@.len(),
            *animation == animation_after_throws(*old(animation), throws_view(throws@), i as nat),
            sounds@ == throw_sounds(throws_view(throws@), i as nat),
        decreases throws@.len() - i,
    {
        let throw = &throws[i];
        assert(throws_view(throws@)[i as int] == throw@);
        if throw.from_player && throw.path.len() > 0 {
            sounds.push(SoundRequest { sound: SoundEffect::Throw, position: throw.path[0] });
            let left = throw.path.len() >= 2 && throw.path[0].x > throw.path[1].x;
            animation.update_state(PlayerAnimationState::Planting(left));
        }
        i += 1;
    }
    sounds
}

} // verus!
