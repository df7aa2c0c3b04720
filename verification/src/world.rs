//! The entity registry: the one shared mutable store every system reads
//! and writes, with stable integer handles, and the side-effect requests
//! the systems hand back to the frame driver.

use crate::math::Vec2;
use crate::meteor::{meteor_wf, Meteor};
use crate::player::{laser_wf, player_wf, Fire, Laser, Player};
use vstd::prelude::*;

verus! {

/// Positions this library reasons about stay within this many milli-units
/// of the origin on each axis; the boundary policy keeps live entities far
/// inside it.
pub const POS_LIMIT: i64 = 10_000_000_000_000;

/// How far a single movement pass can carry an entity beyond `POS_LIMIT`,
/// in milli-units.
pub const MOVE_SLACK: i64 = 100_000_000_000;

/// The input snapshot the frame driver hands in once per frame: which
/// keys are held, and which saw their release edge this frame.
#[derive(Clone, Copy, PartialEq, Eq, Structural, Debug)]
pub struct FrameInput {
    pub rotate_left: bool,
    pub rotate_right: bool,
    pub thrust: bool,
    pub thrust_released: bool,
    pub fire_released: bool,
}

/// A fire-and-forget request handed to the external engine: a one-shot
/// sound, or an explosion sprite to show at a position.
#[derive(Clone, Copy, Debug)]
pub enum GameEvent {
    Sound { key: &'static str },
    Explosion { image: &'static str, pos: Vec2 },
}

/// All live simulation objects.  At most one player exists at a time, and
/// the exhaust effect exists exactly while the player does (it is the
/// player's child and is destroyed with it).
pub struct World {
    pub next_id: u64,
    pub player: Option<Player>,
    pub fire: Option<Fire>,
    pub meteors: Vec<Meteor>,
    pub lasers: Vec<Laser>,
}

/// Every meteor of `s` is well formed and carries a handle already issued.
pub open spec fn meteors_wf(s: Seq<Meteor>, next_id: int) -> bool {
    forall|i: int|
        0 <= i < s.len() ==> meteor_wf(#[trigger] s[i]) && s[i].id < next_id
}

/// Every laser of `s` is well formed and carries a handle already issued.
pub open spec fn lasers_wf(s: Seq<Laser>, next_id: int) -> bool {
    forall|i: int|
        0 <= i < s.len() ==> laser_wf(#[trigger] s[i]) && s[i].id < next_id
}

/// `p` lies within `b` milli-units of the origin on both axes.
pub open spec fn pos_ok(p: Vec2, b: int) -> bool {
    -b <= p.x <= b && -b <= p.y <= b
}

impl World {
    /// The registry's invariant: the exhaust effect lives exactly while
    /// the player does, and every entity is well formed with a handle
    /// below the allocation cursor.
    pub open spec fn wf(self) -> bool {
        &&& self.player.is_some() == self.fire.is_some()
        &&& (self.player matches Some(p) ==> player_wf(p) && p.id < self.next_id)
        &&& meteors_wf(self.meteors@, self.next_id as int)
        &&& lasers_wf(self.lasers@, self.next_id as int)
    }

    /// The player, if any, sits within `b` milli-units of the origin.
    pub open spec fn player_within(self, b: int) -> bool {
        self.player matches Some(p) ==> pos_ok(p.pos, b)
    }

    /// Every meteor sits within `b` milli-units of the origin.
    pub open spec fn meteors_within(self, b: int) -> bool {
        forall|i: int|
            0 <= i < self.meteors@.len() ==> pos_ok((#[trigger] self.meteors@[i]).pos, b)
    }

    /// Every laser sits within `b` milli-units of the origin.
    pub open spec fn lasers_within(self, b: int) -> bool {
        forall|i: int|
            0 <= i < self.lasers@.len() ==> pos_ok((#[trigger] self.lasers@[i]).pos, b)
    }

    /// Every live entity sits within `b` milli-units of the origin.
    pub open spec fn positions_within(self, b: int) -> bool {
        &&& self.player_within(b)
        &&& self.meteors_within(b)
        &&& self.lasers_within(b)
    }
}

/// A position bound loosens: what sits within `b1` sits within any larger
/// `b2`.
pub proof fn lemma_within_weaken(w: World, b1: int, b2: int)
    requires
        b1 <= b2,
        w.player_within(b1),
        w.meteors_within(b1),
        w.lasers_within(b1),
    ensures
        w.positions_within(b2),
{
}

/// An empty registry: no entities, no handles issued yet.
pub fn new_world() -> (w: World)
    ensures
        w.wf(),
        w.player.is_none(),
        w.fire.is_none(),
        w.meteors@.len() == 0,
        w.lasers@.len() == 0,
        w.next_id == 0,
        w.positions_within(POS_LIMIT as int),
{
    World { next_id: 0, player: None, fire: None, meteors: Vec::new(), lasers: Vec::new() }
}

/// The first index in `s` holding the meteor handle `id`, if any, looking
/// from `from` on.
pub open spec fn meteor_index_of(s: Seq<Meteor>, id: u64, from: int) -> Option<int>
    decreases s.len() - from,
{
    if from < 0 || from >= s.len() {
        None
    } else if s[from].id == id {
        Some(from)
    } else {
        meteor_index_of(s, id, from + 1)
    }
}

/// The first index in `s` holding the laser handle `id`, if any.
pub open spec fn laser_index_of(s: Seq<Laser>, id: u64, from: int) -> Option<int>
    decreases s.len() - from,
{
    if from < 0 || from >= s.len() {
        None
    } else if s[from].id == id {
        Some(from)
    } else {
        laser_index_of(s, id, from + 1)
    }
}

impl World {
    /// Destroy the meteor with the given handle.  Destroying an unknown or
    /// already-destroyed handle is a no-op, not an error.
    pub fn destroy_meteor(&mut self, id: u64)
        requires
            old(self).wf(),
        ensures
            final(self).wf(),
            match meteor_index_of(old(self).meteors@, id, 0) {
                Some(i) => final(self).meteors@ == old(self).meteors@.remove(i),
                None => final(self).meteors@ == old(self).meteors@,
            },
            final(self).player == old(self).player,
            final(self).fire == old(self).fire,
            final(self).lasers == old(self).lasers,
            final(self).next_id == old(self).next_id,
    {
        let ghost s = self.meteors@;
        let n = self.meteors.len();
        let mut i: usize = 0;
        while i < n
            invariant
                n == s.len(),
                0 <= i <= n,
                self.meteors@ == s,
                self.player == old(self).player,
                self.fire == old(self).fire,
                self.lasers == old(self).lasers,
                self.next_id == old(self).next_id,
                old(self).wf(),
                s == old(self).meteors@,
                meteor_index_of(s, id, 0) == meteor_index_of(s, id, i as int),
            decreases n - i,
        {
            if self.meteors[i].id == id {
                self.meteors.remove(i);
                proof {
                    assert(meteors_wf(s, old(self).next_id as int));
                    assert(self.next_id == old(self).next_id);
                    assert(self.meteors@ == s.subrange(0, i as int) + s.subrange(
                        i as int + 1,
                        s.len() as int,
                    ));
                    assert forall|j: int|
                        0 <= j < self.meteors@.len() implies meteor_wf(
                        #[trigger] self.meteors@[j],
                    ) && self.meteors@[j].id < self.next_id by {
                        if j < i as int {
                            assert(self.meteors@[j] == s.subrange(0, i as int)[j]);
                            assert(s.subrange(0, i as int)[j] == s[j]);
                        } else {
                            assert(self.meteors@[j] == s.subrange(
                                i as int + 1,
                                s.len() as int,
                            )[j - i as int]);
                            assert(s.subrange(i as int + 1, s.len() as int)[j - i as int] == s[j
                                + 1]);
                        }
                    }
                }
                return ;
            }
            i = i + 1;
        }
    }

    /// Destroy the laser with the given handle; a no-op on an unknown one.
    pub fn destroy_laser(&mut self, id: u64)
        requires
            old(self).wf(),
        ensures
            final(self).wf(),
            match laser_index_of(old(self).lasers@, id, 0) {
                Some(i) => final(self).lasers@ == old(self).lasers@.remove(i),
                None => final(self).lasers@ == old(self).lasers@,
            },
            final(self).player == old(self).player,
            final(self).fire == old(self).fire,
            final(self).meteors == old(self).meteors,
            final(self).next_id == old(self).next_id,
    {
        let ghost s = self.lasers@;
        let n = self.lasers.len();
        let mut i: usize = 0;
        while i < n
            invariant
                n == s.len(),
                0 <= i <= n,
                self.lasers@ == s,
                self.player == old(self).player,
                self.fire == old(self).fire,
                self.meteors == old(self).meteors,
                self.next_id == old(self).next_id,
                old(self).wf(),
                s == old(self).lasers@,
                laser_index_of(s, id, 0) == laser_index_of(s, id, i as int),
            decreases n - i,
        {
            if self.lasers[i].id == id {
                self.lasers.remove(i);
                proof {
                    assert(self.lasers@ == s.subrange(0, i as int) + s.subrange(
                        i as int + 1,
                        s.len() as int,
                    ));
                    assert forall|j: int|
                        0 <= j < self.lasers@.len() implies laser_wf(#[trigger] self.lasers@[j])
                        && self.lasers@[j].id < self.next_id by {
                        if j < i as int {
                            assert(self.lasers@[j] == s.subrange(0, i as int)[j]);
                            assert(s.subrange(0, i as int)[j] == s[j]);
                        } else {
                            assert(self.lasers@[j] == s.subrange(
                                i as int + 1,
                                s.len() as int,
                            )[j - i as int]);
                            assert(s.subrange(i as int + 1, s.len() as int)[j - i as int] == s[j
                                + 1]);
                        }
                    }
                }
                return ;
            }
            i = i + 1;
        }
    }

    /// Destroy the player.  The exhaust effect is its child and cascades
    /// with it; destroying an absent player is a no-op.
    pub fn destroy_player(&mut self)
        requires
            old(self).wf(),
        ensures
            final(self).wf(),
            final(self).player.is_none(),
            final(self).fire.is_none(),
            final(self).meteors == old(self).meteors,
            final(self).lasers == old(self).lasers,
            final(self).next_id == old(self).next_id,
    {
        self.player = None;
        self.fire = None;
    }
}

} // verus!
