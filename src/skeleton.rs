use vstd::prelude::*;

use crate::collision::Collision;
use crate::geometry::{within_limits, Rect};
use crate::player::{Player, THRESHOLD};
use crate::sprites::{AnimError, Blit, Sprites};

verus! {

/// A sound effect for the audio sink to play once.
#[derive(Clone, Copy, Debug, PartialEq, Eq, Structural)]
pub enum Sound {
    /// The barrier closing behind a trapped player.
    Gate,
    /// The skeleton dying, which opens the barrier.
    SkeletonDie,
}

/// Updates after which the skeleton's looks cycle back.
pub const LOOK_PERIOD: usize = 30;

/// The stationary enemy: while it holds the player trapped, its barrier blocks the way.
pub struct Skeleton {
    pub sprites: Sprites,
    pub position: Rect,
    pub hitbox: Rect,
    pub timer: usize,
    pub playerIsTrapped: bool,
    pub gateHitBox: Rect,
}

/// Where the barrier stands: one tile left of the trap threshold.
pub open spec fn gate_rect() -> Rect {
    Rect { x: (THRESHOLD - 50) as i32, y: 150, w: 50, h: 50 }
}

impl Skeleton {
    pub open spec fn wf(&self) -> bool {
        &&& self.sprites@.len() >= 4
        &&& self.timer < LOOK_PERIOD
        &&& within_limits(self.position)
        &&& self.position.w == 50
        &&& self.position.h == 50
        &&& within_limits(self.gateHitBox)
        &&& self.gateHitBox.w <= 50
    }

    /// While the player is trapped, `h` runs into the barrier.
    pub open spec fn gate_blocks(&self, h: Rect) -> bool {
        self.playerIsTrapped && self.gateHitBox.intersects(h)
    }

    /// A skeleton whose top half stands at `(x, y)`, drawn with `sprites`: top, bottom,
    /// bottom walking, barrier. Fewer than four sprites give `OutOfRange`.
    pub fn new(sprites: Sprites, x: i32, y: i32) -> (r: Result<Skeleton, AnimError>)
        requires
            -crate::geometry::COORD_LIMIT <= x <= crate::geometry::COORD_LIMIT,
            -crate::geometry::COORD_LIMIT <= y <= crate::geometry::COORD_LIMIT,
        ensures
            r is Ok <==> sprites@.len() >= 4,
            sprites@.len() < 4 <==> r == Err::<Skeleton, AnimError>(AnimError::OutOfRange),
            r is Ok ==> {
                let s = r->Ok_0;
                &&& s.wf()
                &&& s.sprites@ == sprites@
                &&& s.position == (Rect { x, y, w: 50, h: 50 })
                &&& s.hitbox == (Rect { x, y, w: 50, h: 100 })
                &&& s.gateHitBox == gate_rect()
                &&& s.timer == 0
                &&& !s.playerIsTrapped
            },
    {
        if sprites.len() < 4 {
            return Err(AnimError::OutOfRange);
        }
        let position = Rect::new(x, y, 50, 50);
        let hitbox = Rect::new(x, y, 50, 100);
        let gateHitBox = Rect::new(THRESHOLD - 50, 150, 50, 50);
        Ok(Skeleton { sprites, hitbox, position, timer: 0, playerIsTrapped: false, gateHitBox })
    }

    /// What drawing the skeleton sends to the renderer (see `draw`).
    pub open spec fn blits(&self) -> Seq<Blit> {
        let below = Rect { y: (self.position.y + 50) as i32, ..self.position };
        if self.playerIsTrapped {
            let state = self.timer / 15 + 1;
            self.sprites@[0].blits(self.position, false, false) + self.sprites@[state as int].blits(
                below,
                false,
                false,
            ) + self.sprites@[3].blits(self.gateHitBox, false, false)
        } else {
            self.sprites@[0].blits(self.position, false, false) + self.sprites@[1].blits(
                below,
                false,
                false,
            )
        }
    }

    /// Draws the top half, then the bottom half beneath it, and, while the player is
    /// trapped, the barrier; the bottom half then walks, switching look every 15 updates.
    pub fn draw(&self) -> (r: Vec<Blit>)
        requires
            self.wf(),
        ensures
            r@ == self.blits(),
    {
        let below = Rect::new(
            self.position.x,
            self.position.y + 50,
            self.position.w,
            self.position.h,
        );
        let mut out = self.sprites.sprites[0].draw(self.position, false, false);
        if self.playerIsTrapped {
            let state = self.timer / 15 + 1;
            let mut b = self.sprites.sprites[state].draw(below, false, false);
            out.append(&mut b);
            let mut g = self.sprites.sprites[3].draw(self.gateHitBox, false, false);
            out.append(&mut g);
        } else {
            let mut b = self.sprites.sprites[1].draw(below, false, false);
            out.append(&mut b);
        }
        out
    }

    /// Traps the player: the barrier closes, and its sound is to be played.
    pub fn trapPlayer(&mut self) -> (r: Sound)
        ensures
            *final(self) == (Skeleton { playerIsTrapped: true, ..*old(self) }),
            r == Sound::Gate,
    {
        self.playerIsTrapped = true;
        Sound::Gate
    }

    /// The skeleton after one update in which `player` attacks as it does now.
    pub open spec fn updated(&self, player: &Player) -> (Skeleton, Option<Sound>) {
        let released = self.playerIsTrapped && player.attack_hits(self.hitbox);
        let t = if self.timer + 1 >= LOOK_PERIOD {
            0
        } else {
            self.timer + 1
        };
        (
            Skeleton { playerIsTrapped: self.playerIsTrapped && !released, timer: t as usize, ..*self },
            if released {
                Some(Sound::SkeletonDie)
            } else {
                None
            },
        )
    }

    /// One update: while the player is trapped, a sword stroke of `player` that reaches
    /// the skeleton kills it and opens the barrier, and its death sound is to be played.
    /// The look timer advances either way.
    pub fn update(&mut self, player: &Player) -> (r: Option<Sound>)
        requires
            old(self).wf(),
            player.wf(),
        ensures
            final(self).wf(),
            (*final(self), r) == old(self).updated(player),
    {
        let mut sound: Option<Sound> = None;
        if self.playerIsTrapped && player.attackCollision(self.hitbox) {
            self.playerIsTrapped = false;
            sound = Some(Sound::SkeletonDie);
        }
        self.timer = self.timer + 1;
        if self.timer >= LOOK_PERIOD {
            self.timer = 0;
        }
        sound
    }
}

impl Collision for Skeleton {
    open spec fn inv(&self) -> bool {
        true
    }

    open spec fn admits(&self, hitbox: Rect) -> bool {
        true
    }

    open spec fn collides(&self, hitbox: Rect) -> bool {
        self.gate_blocks(hitbox)
    }

    /// Whether `hitbox` runs into the barrier; the barrier is open, and passable, unless the
    /// player is trapped.
    fn doesCollide(&self, hitbox: Rect) -> (r: bool) {
        if self.playerIsTrapped {
            return self.gateHitBox.has_intersection(hitbox);
        }
        false
    }
}

/// The way out of the trap: while the player is trapped, a stroke that reaches the
/// skeleton frees the player with one death sound, and the next update, freed, plays
/// none; while the player is not trapped, an update neither traps nor sounds.
pub proof fn lemma_release_once(s: Skeleton, player: Player)
    ensures
        s.playerIsTrapped && player.attack_hits(s.hitbox) ==> !s.updated(&player).0.playerIsTrapped
            && s.updated(&player).1 == Some(Sound::SkeletonDie),
        !s.playerIsTrapped ==> !s.updated(&player).0.playerIsTrapped && s.updated(&player).1
            is None,
        s.playerIsTrapped && player.attack_hits(s.hitbox) ==> s.updated(&player).0.updated(
            &player,
        ).1 is None,
{
}

} // verus!
