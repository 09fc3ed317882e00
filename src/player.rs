use vstd::prelude::*;

use crate::collision::Collision;
use crate::geometry::{shifted, within_limits, Rect, COORD_LIMIT};
use crate::map::{TileMap, MAX_SIDE, TILE_SIZE};
use crate::skeleton::{Skeleton, Sound};
use crate::sprites::{
    next_counter, AnimError, Animation, Animations, Blit, FlipAnimation, Sprites,
    StandardAnimation,
};

verus! {

/// Once the player's x reaches this, the trap springs.
pub const THRESHOLD: i32 = 450;

/// Steps per update along an axis while a direction key is held.
pub const SPEED: i32 = 3;

/// Updates that a sword stroke lasts.
pub const ATTACK_DURATION: u32 = 21;

/// The animation advances one frame when the frame timer passes this.
pub const FRAME_PERIOD: u32 = 20;

/// Where the sword is drawn, relative to the player's position: (dx, dy, w, h).
pub const SWORD_DOWN: (i32, i32, u32, u32) = (10, 43, 30, 30);
pub const SWORD_RIGHT: (i32, i32, u32, u32) = (30, 5, 30, 30);
pub const SWORD_LEFT: (i32, i32, u32, u32) = (-10, 5, 30, 30);
pub const SWORD_UP: (i32, i32, u32, u32) = (0, -10, 50, 50);

/// The part of the sword that hits, relative to the player's position: (dx, dy, w, h).
pub const SWORD_DOWN_COLLISION: (i32, i32, u32, u32) = (23, 43, 4, 16);
pub const SWORD_RIGHT_COLLISION: (i32, i32, u32, u32) = (43, 5, 4, 16);
pub const SWORD_LEFT_COLLISION: (i32, i32, u32, u32) = (3, 5, 4, 16);
pub const SWORD_UP_COLLISION: (i32, i32, u32, u32) = (27, -10, 6, 27);

/// The player's tracks: idle or walking facing down, right and up, a sword stroke in
/// each of those directions, then the mirrored right-facing ones for the left.
pub const TRACK_DOWN: usize = 0;
pub const TRACK_RIGHT: usize = 1;
pub const TRACK_UP: usize = 2;
pub const TRACK_ATTACK_DOWN: usize = 3;
pub const TRACK_ATTACK_RIGHT: usize = 4;
pub const TRACK_ATTACK_UP: usize = 5;
pub const TRACK_LEFT: usize = 6;
pub const TRACK_ATTACK_LEFT: usize = 7;

/// Sprite sets the player is built from, one for each standard track.
pub const STANDARD_TRACKS: usize = 6;

/// A velocity: signed steps per update along x and y.
#[derive(Clone, Copy, Debug, PartialEq, Eq, Structural)]
pub struct Vector(pub i32, pub i32);

#[derive(Clone, Copy, Debug, PartialEq, Eq, Structural)]
pub enum Direction {
    Up,
    Down,
    Left,
    Right,
}

/// One sample of the held action keys.
#[derive(Clone, Copy, Debug, PartialEq, Eq, Structural)]
pub struct Keys {
    pub up: bool,
    pub down: bool,
    pub left: bool,
    pub right: bool,
    pub attack: bool,
}

/// The track shown while facing `d` and not attacking.
pub open spec fn idle_track(d: Direction) -> usize {
    match d {
        Direction::Up => TRACK_UP,
        Direction::Down => TRACK_DOWN,
        Direction::Left => TRACK_LEFT,
        Direction::Right => TRACK_RIGHT,
    }
}

/// The track shown while attacking towards `d`.
pub open spec fn attack_track(d: Direction) -> usize {
    match d {
        Direction::Up => TRACK_ATTACK_UP,
        Direction::Down => TRACK_ATTACK_DOWN,
        Direction::Left => TRACK_ATTACK_LEFT,
        Direction::Right => TRACK_ATTACK_RIGHT,
    }
}

/// The velocity that keys `k` ask for: down beats up, right beats left, and the
/// attack key stops both axes.
pub open spec fn key_velocity(k: Keys) -> Vector {
    if k.attack {
        Vector(0, 0)
    } else {
        Vector(
            if k.right {
                SPEED
            } else if k.left {
                (-SPEED) as i32
            } else {
                0
            },
            if k.down {
                SPEED
            } else if k.up {
                (-SPEED) as i32
            } else {
                0
            },
        )
    }
}

/// The facing after keys `k`, from facing `d`: the vertical keys first, then the
/// horizontal ones.
pub open spec fn key_direction(d: Direction, k: Keys) -> Direction {
    let d1 = if k.down {
        Direction::Down
    } else if k.up {
        Direction::Up
    } else {
        d
    };
    if k.right {
        Direction::Right
    } else if k.left {
        Direction::Left
    } else {
        d1
    }
}

/// The active track after keys `k`, from track `active` and facing `d`.
pub open spec fn key_track(active: usize, d: Direction, k: Keys) -> usize {
    if k.attack {
        attack_track(key_direction(d, k))
    } else if k.up || k.down || k.left || k.right {
        idle_track(key_direction(d, k))
    } else {
        active
    }
}

/// A velocity component: standing still or moving at full speed either way.
pub open spec fn speed_ok(v: i32) -> bool {
    v == 0 || v == SPEED || v == -SPEED
}

/// The hitbox that belongs to a drawn position: inset by 2 on every side.
pub open spec fn inset(p: Rect) -> Rect {
    Rect { x: (p.x + 2) as i32, y: (p.y + 2) as i32, w: 46, h: 46 }
}

/// `(dx, dy, w, h)` placed relative to `p`.
pub open spec fn rel_rect(p: Rect, coords: (i32, i32, u32, u32)) -> Rect {
    Rect { x: (coords.0 + p.x) as i32, y: (coords.1 + p.y) as i32, w: coords.2, h: coords.3 }
}

/// The part of the sword that hits while attacking towards `d`.
pub open spec fn sword_hit_coords(d: Direction) -> (i32, i32, u32, u32) {
    match d {
        Direction::Down => SWORD_DOWN_COLLISION,
        Direction::Left => SWORD_LEFT_COLLISION,
        Direction::Right => SWORD_RIGHT_COLLISION,
        Direction::Up => SWORD_UP_COLLISION,
    }
}

/// Where the sword is drawn while attacking towards `d`.
pub open spec fn sword_draw_coords(d: Direction) -> (i32, i32, u32, u32) {
    match d {
        Direction::Down => SWORD_DOWN,
        Direction::Left => SWORD_LEFT,
        Direction::Right => SWORD_RIGHT,
        Direction::Up => SWORD_UP,
    }
}

/// `n` frames forward and back again, without repeating either end: for 3,
/// `[0, 1, 2, 1]`.
pub open spec fn ping_pong_seq(n: nat) -> Seq<usize> {
    if n <= 1 {
        seq![0usize]
    } else {
        Seq::new(
            (2 * n - 2) as nat,
            |i: int|
                if i < n {
                    i as usize
                } else {
                    (2 * n - 2 - i) as usize
                },
        )
    }
}

/// The frame sequence `ping_pong_seq(n)`.
pub fn ping_pong(n: usize) -> (r: Vec<usize>)
    requires
        1 <= n,
    ensures
        r@ == ping_pong_seq(n as nat),
{
    let mut r: Vec<usize> = Vec::new();
    let mut i: usize = 0;
    while i < n
        invariant
            i <= n,
            r@.len() == i,
            forall|k: int| 0 <= k < i ==> r@[k] == k,
        decreases n - i,
    {
        r.push(i);
        i = i + 1;
    }
    if n >= 2 {
        let mut j: usize = n - 2;
        while j >= 1
            invariant
                2 <= n,
                1 <= j + 1 <= n - 1,
                r@.len() == 2 * n - 2 - j,
                forall|k: int| 0 <= k < n ==> r@[k] == k,
                forall|k: int| n <= k < r@.len() ==> r@[k] == 2 * n - 2 - k,
            decreases j,
        {
            r.push(j);
            j = j - 1;
        }
        assert(r@ =~= ping_pong_seq(n as nat));
    } else {
        assert(r@ =~= ping_pong_seq(n as nat));
    }
    r
}

/// The player: a drawn square with an inset hitbox, moved by the direction keys and
/// striking with a sword.
pub struct Player {
    pub animations: Animations,
    pub sword: Sprites,
    pub timer: u32,
    pub position: Rect,
    pub hitbox: Rect,
    pub velocity: Vector,
    pub direction: Direction,
    pub attackTimer: u32,
    pub trapped: bool,
}

/// The player's tracks as built from `sets`: each set becomes a standard track that
/// runs forward and back, then come the left-facing flips of the right-facing idle and
/// attack tracks.
pub open spec fn tracks_from(tracks: Seq<Animation>, sets: Seq<Seq<crate::sprites::Sprite>>) -> bool {
    &&& tracks.len() == STANDARD_TRACKS + 2
    &&& forall|k: int|
        0 <= k < STANDARD_TRACKS ==> match #[trigger] tracks[k] {
            Animation::Standard(a) => a.sprites@ == sets[k] && a.frames@ == ping_pong_seq(
                sets[k].len(),
            ),
            Animation::Flip(_) => false,
        }
    &&& tracks[TRACK_LEFT as int] == Animation::Flip(FlipAnimation { source: TRACK_RIGHT })
    &&& tracks[TRACK_ATTACK_LEFT as int] == Animation::Flip(
        FlipAnimation { source: TRACK_ATTACK_RIGHT },
    )
}

impl Player {
    pub open spec fn wf(&self) -> bool {
        &&& self.animations.wf()
        &&& self.animations.animations@.len() == STANDARD_TRACKS + 2
        &&& self.sword@.len() >= 1
        &&& self.position.w == 50
        &&& self.position.h == 50
        &&& within_limits(self.position)
        &&& self.hitbox == inset(self.position)
        &&& self.timer <= FRAME_PERIOD
        &&& self.attackTimer <= ATTACK_DURATION
        &&& speed_ok(self.velocity.0)
        &&& speed_ok(self.velocity.1)
        &&& self.attackTimer > 0 ==> self.velocity == Vector(0, 0)
    }

    /// The player after reading keys `k`: ignored while a stroke lasts.
    pub open spec fn after_keys(self, k: Keys) -> Player {
        if self.attackTimer > 0 {
            self
        } else {
            Player {
                velocity: key_velocity(k),
                direction: key_direction(self.direction, k),
                attackTimer: if k.attack {
                    ATTACK_DURATION
                } else {
                    self.attackTimer
                },
                animations: Animations {
                    activeAnimation: key_track(
                        self.animations.activeAnimation,
                        self.direction,
                        k,
                    ),
                    ..self.animations
                },
                ..self
            }
        }
    }

    /// The player after trying to move by `(dx, dy)`: it stays put where the moved
    /// hitbox would leave the playfield or run into a blocking tile or the barrier.
    pub open spec fn after_step(self, dx: int, dy: int, map: TileMap, skeleton: Skeleton) -> Player {
        let pos = shifted(self.position, dx, dy);
        if map.in_grid(inset(pos)) && !map.hits(inset(pos)) && !skeleton.gate_blocks(inset(pos)) {
            Player { position: pos, hitbox: inset(pos), ..self }
        } else {
            self
        }
    }

    /// The player after moving along x, then along y, each axis on its own.
    pub open spec fn after_move(self, map: TileMap, skeleton: Skeleton) -> Player {
        let p = self.after_step(self.velocity.0 as int, 0, map, skeleton);
        p.after_step(0, p.velocity.1 as int, map, skeleton)
    }

    /// The trap springs on this update.
    pub open spec fn trap_fires(self) -> bool {
        !self.trapped && self.position.x >= THRESHOLD
    }

    /// The player after the frame timer advances, ticking the animation when it passes
    /// its period.
    pub open spec fn after_clock(self) -> Player {
        if self.timer + 1 > FRAME_PERIOD {
            Player {
                timer: 0,
                animations: Animations {
                    frameCounter: next_counter(self.animations.frameCounter),
                    ..self.animations
                },
                ..self
            }
        } else {
            Player { timer: (self.timer + 1) as u32, ..self }
        }
    }

    /// The player after a lasting stroke counts down; when it ends, the idle track of the
    /// facing comes back and the keys `current` are read at once.
    pub open spec fn after_attack_clock(self, current: Keys) -> Player {
        if self.attackTimer > 0 {
            if self.attackTimer == 1 {
                Player {
                    attackTimer: 0,
                    animations: Animations {
                        activeAnimation: idle_track(self.direction),
                        ..self.animations
                    },
                    ..self
                }.after_keys(current)
            } else {
                Player { attackTimer: (self.attackTimer - 1) as u32, ..self }
            }
        } else {
            self
        }
    }

    /// The player after one update (see `update`), and whether the trap sprang.
    pub open spec fn updated(
        self,
        input: Option<Keys>,
        current: Keys,
        map: TileMap,
        skeleton: Skeleton,
    ) -> (Player, bool) {
        let steered = match input {
            Some(k) => self.after_keys(k),
            None => self,
        };
        let moved = steered.after_move(map, skeleton);
        let fires = moved.trap_fires();
        let caught = if fires {
            Player { trapped: true, ..moved }
        } else {
            moved
        };
        (caught.after_clock().after_attack_clock(current), fires)
    }

    /// A player standing at `(x, y)`, facing down, built from six sprite sets (idle or
    /// walking down, right and up, then a stroke down, right and up) and the sword's.
    /// A wrong number of sets or an empty one gives `BadTrack`.
    #[verifier::loop_isolation(false)]
    pub fn new(tracks: Vec<Sprites>, sword: Sprites, x: i32, y: i32) -> (r: Result<Player, AnimError>)
        requires
            -COORD_LIMIT <= x <= COORD_LIMIT,
            -COORD_LIMIT <= y <= COORD_LIMIT,
        ensures
            r is Ok <==> tracks@.len() == STANDARD_TRACKS && sword@.len() >= 1 && forall|k: int|
                0 <= k < tracks@.len() ==> #[trigger] tracks@[k]@.len() >= 1,
            r is Err ==> r == Err::<Player, AnimError>(AnimError::BadTrack),
            r is Ok ==> {
                let p = r->Ok_0;
                &&& p.wf()
                &&& tracks_from(
                    p.animations.animations@,
                    Seq::new(tracks@.len(), |k: int| tracks@[k]@),
                )
                &&& p.animations.activeAnimation == TRACK_DOWN
                &&& p.animations.frameCounter == 0
                &&& p.sword@ == sword@
                &&& p.position == (Rect { x, y, w: 50, h: 50 })
                &&& p.velocity == Vector(0, 0)
                &&& p.direction == Direction::Down
                &&& p.timer == 0
                &&& p.attackTimer == 0
                &&& !p.trapped
            },
    {
        let ghost sets = Seq::new(tracks@.len(), |k: int| tracks@[k]@);
        let ghost given = tracks@;
        if tracks.len() != STANDARD_TRACKS || sword.len() < 1 {
            return Err(AnimError::BadTrack);
        }
        let mut tracks = tracks;
        let ghost orig = tracks@;
        let mut animations: Vec<Animation> = Vec::new();
        let mut i: usize = 0;
        while i < STANDARD_TRACKS
            invariant
                orig.len() == STANDARD_TRACKS,
                sets == Seq::new(orig.len(), |k: int| orig[k]@),
                i <= STANDARD_TRACKS,
                tracks@ == orig.subrange(i as int, STANDARD_TRACKS as int),
                animations@.len() == i,
                forall|k: int| 0 <= k < i ==> orig[k]@.len() >= 1,
                forall|k: int|
                    0 <= k < i ==> match #[trigger] animations@[k] {
                        Animation::Standard(a) => a.sprites@ == sets[k] && a.frames@
                            == ping_pong_seq(sets[k].len()) && a.wf(),
                        Animation::Flip(_) => false,
                    },
            decreases STANDARD_TRACKS - i,
        {
            let set = tracks.remove(0);
            assert(set == orig[i as int]);
            let n = set.len();
            if n < 1 {
                assert(!(given[i as int]@.len() >= 1));
                return Err(AnimError::BadTrack);
            }
            let idxs = ping_pong(n);
            assert(crate::sprites::frames_in_bounds(idxs@, n as nat));
            let track = match StandardAnimation::fromFiles(set, idxs.as_slice()) {
                Ok(t) => t,
                Err(_) => {
                    return vstd::pervasive::unreached();
                },
            };
            animations.push(Animation::Standard(track));
            i = i + 1;
        }
        animations.push(Animation::Flip(FlipAnimation::new(TRACK_RIGHT)));
        animations.push(Animation::Flip(FlipAnimation::new(TRACK_ATTACK_RIGHT)));
        let ghost built = animations@;
        assert(crate::sprites::tracks_ok(built)) by {
            assert forall|k: int| 0 <= k < built.len() implies crate::sprites::track_ok(built, k) by {
                if k < STANDARD_TRACKS as int {
                    assert(animations@[k] == built[k]);
                }
            }
        }
        let animations = match Animations::new(animations) {
            Ok(a) => a,
            Err(_) => {
                return vstd::pervasive::unreached();
            },
        };
        let position = Rect::new(x, y, 50, 50);
        let hitbox = Rect::new(x + 2, y + 2, 46, 46);
        let velocity = Vector(0, 0);
        Ok(
            Player {
                animations,
                sword,
                timer: 0,
                position,
                hitbox,
                velocity,
                direction: Direction::Down,
                attackTimer: 0,
                trapped: false,
            },
        )
    }
}

impl Player {
    /// While a stroke lasts, the sword's hitting part overlaps `target`.
    pub open spec fn attack_hits(&self, target: Rect) -> bool {
        self.attackTimer > 0 && rel_rect(self.position, sword_hit_coords(self.direction)).intersects(
            target,
        )
    }

    /// `coords` placed relative to the player's position.
    pub fn relTupleToRect(&self, coords: (i32, i32, u32, u32)) -> (r: Rect)
        requires
            self.wf(),
            -100 <= coords.0 <= 100,
            -100 <= coords.1 <= 100,
        ensures
            r == rel_rect(self.position, coords),
    {
        Rect::new(coords.0 + self.position.x, coords.1 + self.position.y, coords.2, coords.3)
    }

    /// Whether the sword, while a stroke lasts, reaches `hitbox`; never outside a stroke.
    pub fn attackCollision(&self, hitbox: Rect) -> (r: bool)
        requires
            self.wf(),
        ensures
            r == self.attack_hits(hitbox),
    {
        if self.attackTimer == 0 {
            return false;
        }
        let coords = match self.direction {
            Direction::Down => SWORD_DOWN_COLLISION,
            Direction::Left => SWORD_LEFT_COLLISION,
            Direction::Right => SWORD_RIGHT_COLLISION,
            Direction::Up => SWORD_UP_COLLISION,
        };
        let attackBox = self.relTupleToRect(coords);
        attackBox.has_intersection(hitbox)
    }

    /// Reads the held keys: ignored while a stroke lasts. Otherwise the vertical keys,
    /// then the horizontal ones, set the velocity, facing and track (down beats up, right
    /// beats left), and the attack key then stops the player and starts a stroke in the
    /// facing direction.
    pub fn checkKeyboardInput(&mut self, state: &Keys)
        requires
            old(self).wf(),
        ensures
            final(self).wf(),
            *final(self) == old(self).after_keys(*state),
    {
        if self.attackTimer > 0 {
            return ();
        }
        if state.down {
            self.velocity.1 = SPEED;
            self.set_track(TRACK_DOWN);
            self.direction = Direction::Down;
        } else if state.up {
            self.velocity.1 = -SPEED;
            self.set_track(TRACK_UP);
            self.direction = Direction::Up;
        } else {
            self.velocity.1 = 0;
        }
        if state.right {
            self.velocity.0 = SPEED;
            self.set_track(TRACK_RIGHT);
            self.direction = Direction::Right;
        } else if state.left {
            self.velocity.0 = -SPEED;
            self.set_track(TRACK_LEFT);
            self.direction = Direction::Left;
        } else {
            self.velocity.0 = 0;
        }
        if state.attack {
            self.velocity = Vector(0, 0);
            self.attackTimer = ATTACK_DURATION;
            let track = match self.direction {
                Direction::Up => TRACK_ATTACK_UP,
                Direction::Down => TRACK_ATTACK_DOWN,
                Direction::Left => TRACK_ATTACK_LEFT,
                Direction::Right => TRACK_ATTACK_RIGHT,
            };
            self.set_track(track);
        }
    }

    /// Makes `track`, one of the player's, the active one.
    fn set_track(&mut self, track: usize)
        requires
            track < STANDARD_TRACKS + 2,
            old(self).animations.wf(),
            old(self).animations.animations@.len() == STANDARD_TRACKS + 2,
        ensures
            *final(self) == (Player {
                animations: Animations { activeAnimation: track, ..old(self).animations },
                ..*old(self)
            }),
    {
        let _ = self.animations.changeAnimation(track);
    }

    /// Tries to move by `(dx, dy)`; stays put where the moved hitbox would leave the
    /// playfield or run into a blocking tile or the barrier.
    fn step(&mut self, dx: i32, dy: i32, map: &TileMap, skeleton: &Skeleton)
        requires
            old(self).wf(),
            map.wf(),
            -SPEED <= dx <= SPEED,
            -SPEED <= dy <= SPEED,
        ensures
            final(self).wf(),
            *final(self) == old(self).after_step(dx as int, dy as int, *map, *skeleton),
    {
        let x = self.position.x + dx;
        let y = self.position.y + dy;
        let moved = Rect::new(x + 2, y + 2, 46, 46);
        if !map.contains(moved) || map.doesCollide(moved) || skeleton.doesCollide(moved) {
            return ();
        }
        assert(TILE_SIZE * map.cols <= TILE_SIZE * MAX_SIDE) by (nonlinear_arith)
            requires
                map.cols <= MAX_SIDE,
        ;
        assert(TILE_SIZE * map.rows <= TILE_SIZE * MAX_SIDE) by (nonlinear_arith)
            requires
                map.rows <= MAX_SIDE,
        ;
        self.position = Rect::new(x, y, 50, 50);
        self.hitbox = moved;
    }

    /// One update. Reads the keys, if a fresh sample `input` came; moves along x, then
    /// along y, each axis stopped on its own by the map or the barrier; springs the trap,
    /// once, when x reaches the threshold, and then returns the barrier's sound; advances
    /// the frame timer; and counts a lasting stroke down, reading the held keys `current`
    /// again as soon as it ends.
    pub fn update(
        &mut self,
        input: Option<Keys>,
        current: Keys,
        map: &TileMap,
        skeleton: &mut Skeleton,
    ) -> (r: Option<Sound>)
        requires
            old(self).wf(),
            map.wf(),
        ensures
            final(self).wf(),
            (*final(self), r is Some) == old(self).updated(input, current, *map, *old(skeleton)),
            r is Some ==> r == Some(Sound::Gate),
            *final(skeleton) == if r is Some {
                Skeleton { playerIsTrapped: true, ..*old(skeleton) }
            } else {
                *old(skeleton)
            },
    {
        if let Some(state) = input {
            self.checkKeyboardInput(&state);
        }
        let vx = self.velocity.0;
        self.step(vx, 0, map, skeleton);
        let vy = self.velocity.1;
        self.step(0, vy, map, skeleton);
        let mut sound: Option<Sound> = None;
        if !self.trapped {
            if self.position.x >= THRESHOLD {
                sound = Some(skeleton.trapPlayer());
                self.trapped = true;
            }
        }
        self.timer = self.timer + 1;
        if self.timer > FRAME_PERIOD {
            self.timer = 0;
            self.animations.update();
        }
        if self.attackTimer > 0 {
            self.attackTimer = self.attackTimer - 1;
            if self.attackTimer == 0 {
                let track = match self.direction {
                    Direction::Up => TRACK_UP,
                    Direction::Down => TRACK_DOWN,
                    Direction::Left => TRACK_LEFT,
                    Direction::Right => TRACK_RIGHT,
                };
                self.set_track(track);
                self.checkKeyboardInput(&current);
            }
        }
        sound
    }

    /// What drawing the player sends to the renderer (see `draw`).
    pub open spec fn blits(&self) -> Seq<Blit> {
        let body = self.animations.current().0.blits(
            self.position,
            self.animations.current().1,
            false,
        );
        let sword = self.sword@[0].blits(
            rel_rect(self.position, sword_draw_coords(self.direction)),
            false,
            self.direction == Direction::Down,
        );
        if self.attackTimer > 0 {
            if self.direction == Direction::Down {
                body + sword
            } else {
                sword + body
            }
        } else {
            body
        }
    }

    /// Draws the current frame and, while a stroke lasts, the sword: in front of the
    /// player and upside down when striking down, behind it otherwise.
    pub fn draw(&self) -> (r: Vec<Blit>)
        requires
            self.wf(),
        ensures
            r@ == self.blits(),
    {
        let mut body = self.animations.drawNextFrame(self.position);
        if self.attackTimer > 0 {
            let coords = match self.direction {
                Direction::Down => SWORD_DOWN,
                Direction::Left => SWORD_LEFT,
                Direction::Right => SWORD_RIGHT,
                Direction::Up => SWORD_UP,
            };
            let quad = self.relTupleToRect(coords);
            match self.direction {
                Direction::Down => {
                    let mut sword = self.sword.sprites[0].draw(quad, false, true);
                    body.append(&mut sword);
                    body
                },
                _ => {
                    let mut sword = self.sword.sprites[0].draw(quad, false, false);
                    sword.append(&mut body);
                    sword
                },
            }
        } else {
            body
        }
    }
}

/// One step of the game as the player sees it: fresh keys if any, and the held keys.
pub type Step = (Option<Keys>, Keys);

impl Player {
    /// The player after the updates of `steps`, in order, with the barrier closing once the
    /// trap springs.
    pub open spec fn run(self, steps: Seq<Step>, map: TileMap, skeleton: Skeleton) -> Player
        decreases steps.len(),
    {
        if steps.len() == 0 {
            self
        } else {
            let (p, fires) = self.updated(steps[0].0, steps[0].1, map, skeleton);
            let sk = if fires {
                Skeleton { playerIsTrapped: true, ..skeleton }
            } else {
                skeleton
            };
            p.run(steps.drop_first(), map, sk)
        }
    }
}

/// While a stroke lasts, keys that are read change nothing.
pub proof fn lemma_attack_ignores_keys(p: Player, k: Keys)
    requires
        p.attackTimer > 0,
    ensures
        p.after_keys(k) == p,
{
}

/// A stroke with `t` updates left outlasts any `n < t` updates, whatever keys come: its
/// timer counts down by one per update, and facing, velocity and track stay as they were.
/// A well-formed player stands still while it strikes, so its position stays too.
pub proof fn lemma_stroke_lasts(p: Player, steps: Seq<Step>, map: TileMap, skeleton: Skeleton)
    requires
        steps.len() < p.attackTimer,
    ensures
        p.run(steps, map, skeleton).attackTimer == p.attackTimer - steps.len(),
        p.run(steps, map, skeleton).velocity == p.velocity,
        p.run(steps, map, skeleton).direction == p.direction,
        p.run(steps, map, skeleton).animations.activeAnimation == p.animations.activeAnimation,
        p.wf() ==> p.velocity == Vector(0, 0),
        p.velocity == Vector(0, 0) ==> p.run(steps, map, skeleton).position == p.position,
    decreases steps.len(),
{
    if steps.len() > 0 {
        let (q, fires) = p.updated(steps[0].0, steps[0].1, map, skeleton);
        let sk = if fires {
            Skeleton { playerIsTrapped: true, ..skeleton }
        } else {
            skeleton
        };
        assert(q.attackTimer == p.attackTimer - 1);
        lemma_stroke_lasts(q, steps.drop_first(), map, sk);
    }
}

/// On the update where a stroke's last count runs out, the timer reaches 0, and the
/// held keys `current` are read at once, from the idle track of the facing.
pub proof fn lemma_stroke_ends(
    p: Player,
    input: Option<Keys>,
    current: Keys,
    map: TileMap,
    skeleton: Skeleton,
)
    requires
        p.attackTimer == 1,
    ensures
        ({
            let q = p.updated(input, current, map, skeleton).0;
            &&& q.velocity == key_velocity(current)
            &&& q.direction == key_direction(p.direction, current)
            &&& q.attackTimer == if current.attack {
                ATTACK_DURATION
            } else {
                0
            }
            &&& q.animations.activeAnimation == key_track(idle_track(p.direction), p.direction, current)
        }),
{
}

/// A stroke with `t` updates left ends on the `t`-th update: its timer is then 0,
/// unless the held keys read at that moment start the next stroke.
pub proof fn lemma_stroke_ends_on_time(p: Player, steps: Seq<Step>, map: TileMap, skeleton: Skeleton)
    requires
        steps.len() >= 1,
        steps.len() == p.attackTimer,
    ensures
        p.run(steps, map, skeleton).attackTimer == 0 || steps.last().1.attack,
    decreases steps.len(),
{
    let (q, fires) = p.updated(steps[0].0, steps[0].1, map, skeleton);
    let sk = if fires {
        Skeleton { playerIsTrapped: true, ..skeleton }
    } else {
        skeleton
    };
    assert(p.run(steps, map, skeleton) == q.run(steps.drop_first(), map, sk));
    if steps.len() == 1 {
        lemma_stroke_ends(p, steps[0].0, steps[0].1, map, skeleton);
        assert(steps.drop_first().len() == 0);
        assert(q.run(steps.drop_first(), map, sk) == q);
        assert(steps.last() == steps[0]);
    } else {
        assert(q.attackTimer == p.attackTimer - 1);
        assert(steps.drop_first().last() == steps.last());
        lemma_stroke_ends_on_time(q, steps.drop_first(), map, sk);
    }
}

/// A stroke lasts `ATTACK_DURATION` updates, counted from the one that reads the attack
/// key: after each of the first `n < ATTACK_DURATION` of them it still runs, with
/// `ATTACK_DURATION - n` counts left, and after the last its timer is 0 (unless the keys
/// held then start a new one).
pub proof fn lemma_stroke_duration(p: Player, k: Keys, steps: Seq<Step>, map: TileMap, skeleton: Skeleton)
    requires
        p.attackTimer == 0,
        k.attack,
        steps.len() == ATTACK_DURATION,
        steps[0].0 == Some(k),
    ensures
        forall|n: int|
            1 <= n < ATTACK_DURATION ==> #[trigger] p.run(steps.take(n), map, skeleton).attackTimer
                == ATTACK_DURATION - n,
        p.run(steps, map, skeleton).attackTimer == 0 || steps.last().1.attack,
{
    let (q, fires) = p.updated(steps[0].0, steps[0].1, map, skeleton);
    let sk = if fires {
        Skeleton { playerIsTrapped: true, ..skeleton }
    } else {
        skeleton
    };
    assert(q.attackTimer == ATTACK_DURATION - 1);
    assert forall|n: int| 1 <= n < ATTACK_DURATION implies #[trigger] p.run(
        steps.take(n),
        map,
        skeleton,
    ).attackTimer == ATTACK_DURATION - n by {
        let t = steps.take(n);
        assert(t[0] == steps[0]);
        assert(t.drop_first() =~= steps.drop_first().take(n - 1));
        lemma_stroke_lasts(q, t.drop_first(), map, sk);
    }
    assert(steps.drop_first().last() == steps.last());
    lemma_stroke_ends_on_time(q, steps.drop_first(), map, sk);
}

/// Each axis is resolved on its own, x first: where the move along x is free and the
/// move along y from there is blocked, the player slides along x; where the move along
/// x is blocked and the one along y free, it slides along y.
pub proof fn lemma_axis_separated(p: Player, map: TileMap, skeleton: Skeleton)
    ensures
        ({
            let free = |r: Rect|
                map.in_grid(inset(r)) && !map.hits(inset(r)) && !skeleton.gate_blocks(inset(r));
            let vx = p.velocity.0 as int;
            let vy = p.velocity.1 as int;
            let x_moved = shifted(p.position, vx, 0);
            &&& free(x_moved) && !free(shifted(x_moved, 0, vy)) ==> p.after_move(map, skeleton).position
                == x_moved
            &&& !free(x_moved) && free(shifted(p.position, 0, vy)) ==> p.after_move(
                map,
                skeleton,
            ).position == shifted(p.position, 0, vy)
        }),
{
}

/// The trap springs at most once: after it has sprung, later updates never spring it
/// again and the player stays trapped.
pub proof fn lemma_trap_springs_once(
    p: Player,
    input: Option<Keys>,
    current: Keys,
    map: TileMap,
    skeleton: Skeleton,
)
    ensures
        p.updated(input, current, map, skeleton).1 ==> !p.trapped && p.updated(
            input,
            current,
            map,
            skeleton,
        ).0.trapped,
        p.trapped ==> !p.updated(input, current, map, skeleton).1 && p.updated(
            input,
            current,
            map,
            skeleton,
        ).0.trapped,
{
}

} // verus!
