use vstd::prelude::*;

use crate::geometry::Rect;
use vstd::string::StringSliceAdditionalSpecFns;

verus! {

/// The bytes that mark an image file as a mirror source: `__half`.
pub open spec fn mirror_pattern() -> Seq<u8> {
    seq![95u8, 95u8, 104u8, 97u8, 108u8, 102u8]
}

/// `pat` occurs in `s` as a contiguous run starting at `at`.
pub open spec fn occurs_at(s: Seq<u8>, pat: Seq<u8>, at: int) -> bool {
    0 <= at && at + pat.len() <= s.len() && s.subrange(at, at + pat.len()) == pat
}

/// `pat` occurs somewhere in `s` as a contiguous run.
pub open spec fn has_infix(s: Seq<u8>, pat: Seq<u8>) -> bool {
    exists|at: int| occurs_at(s, pat, at)
}

/// Whether an image name marks a mirror source, i.e. contains `__half`.
pub fn is_mirror_name(name: &str) -> (r: bool)
    ensures
        r == has_infix(name.spec_bytes(), mirror_pattern()),
{
    let pat: [u8; 6] = [95u8, 95u8, 104u8, 97u8, 108u8, 102u8];
    let bytes = name.as_bytes();
    assert(pat@ == mirror_pattern());
    if bytes.len() < 6 {
        assert forall|at: int| !occurs_at(bytes@, mirror_pattern(), at) by {}
        return false;
    }
    let last: usize = bytes.len() - 6;
    let mut at: usize = 0;
    while at <= last
        invariant
            bytes@ == name.spec_bytes(),
            pat@ == mirror_pattern(),
            last + 6 == bytes@.len(),
            bytes@.len() == bytes.len(),
            at <= last + 1,
            forall|k: int| 0 <= k < at ==> !occurs_at(bytes@, mirror_pattern(), k),
        decreases last + 1 - at,
    {
        let mut j: usize = 0;
        let mut same = true;
        while j < 6
            invariant
                bytes@ == name.spec_bytes(),
                pat@ == mirror_pattern(),
                last + 6 == bytes@.len(),
                bytes@.len() == bytes.len(),
                at <= last,
                j <= 6,
                same == (forall|m: int| 0 <= m < j ==> bytes@[at + m] == pat@[m]),
            decreases 6 - j,
        {
            if bytes[at + j] != pat[j] {
                same = false;
            }
            j = j + 1;
        }
        if same {
            assert(bytes@.subrange(at as int, at + 6) =~= mirror_pattern());
            assert(occurs_at(bytes@, mirror_pattern(), at as int));
            return true;
        }
        assert(!occurs_at(bytes@, mirror_pattern(), at as int)) by {
            if bytes@.subrange(at as int, at + 6) == mirror_pattern() {
                assert forall|m: int| 0 <= m < 6 implies bytes@[at + m] == pat@[m] by {
                    assert(bytes@.subrange(at as int, at + 6)[m] == bytes@[at + m]);
                }
            }
        }
        at = at + 1;
    }
    false
}

/// One textured quad for the renderer: which loaded image, where, and how it is flipped.
#[derive(Clone, Copy, Debug, PartialEq, Eq, Structural)]
pub struct Blit {
    pub texture: usize,
    pub dest: Rect,
    pub flip_h: bool,
    pub flip_v: bool,
}

/// A loaded image: the renderer's handle for it, and whether it is a mirror source
/// (drawn as two halves, the left one reflected).
#[derive(Clone, Copy, Debug, PartialEq, Eq, Structural)]
pub struct Sprite {
    pub texture: usize,
    pub mirror: bool,
}

/// The renderer can place the right half of a mirror source drawn into `quad`.
pub open spec fn drawable(quad: Rect) -> bool {
    quad.x + quad.w / 2 <= i32::MAX
}

impl Sprite {
    /// The sprite for the image loaded under `texture` from the file `name`.
    pub fn new(texture: usize, name: &str) -> (r: Sprite)
        ensures
            r.texture == texture,
            r.mirror == has_infix(name.spec_bytes(), mirror_pattern()),
    {
        Sprite { texture, mirror: is_mirror_name(name) }
    }

    /// What drawing this sprite into `quad` sends to the renderer.
    pub open spec fn blits(self, quad: Rect, flip_h: bool, flip_v: bool) -> Seq<Blit> {
        if self.mirror {
            let half = quad.w / 2;
            seq![
                Blit { texture: self.texture, dest: Rect { w: half, ..quad }, flip_h: true, flip_v: false },
                Blit {
                    texture: self.texture,
                    dest: Rect { x: (quad.x + half) as i32, w: half, ..quad },
                    flip_h: false,
                    flip_v: false,
                },
            ]
        } else {
            seq![Blit { texture: self.texture, dest: quad, flip_h, flip_v }]
        }
    }

    /// Draws the sprite into `quad`. A mirror source is split at its horizontal
    /// midpoint: the left half reflected, the right half plain, and the flips asked
    /// for are not applied.
    pub fn draw(&self, quad: Rect, flipHorizontal: bool, flipVertical: bool) -> (r: Vec<Blit>)
        requires
            self.mirror ==> drawable(quad),
        ensures
            r@ == self.blits(quad, flipHorizontal, flipVertical),
    {
        if self.mirror {
            let half = quad.w / 2;
            let left = Rect { w: half, ..quad };
            let right = Rect { x: quad.x + half as i32, w: half, ..quad };
            let r = vec![
                Blit { texture: self.texture, dest: left, flip_h: true, flip_v: false },
                Blit { texture: self.texture, dest: right, flip_h: false, flip_v: false },
            ];
            assert(r@ =~= self.blits(quad, flipHorizontal, flipVertical));
            r
        } else {
            let r = vec![
                Blit { texture: self.texture, dest: quad, flip_h: flipHorizontal, flip_v: flipVertical },
            ];
            assert(r@ =~= self.blits(quad, flipHorizontal, flipVertical));
            r
        }
    }
}

/// Why a sprite set, a track or a track list was refused.
#[derive(Clone, Copy, Debug, PartialEq, Eq, Structural)]
pub enum AnimError {
    /// An index past the end of a sprite set or a track list.
    OutOfRange,
    /// A frame sequence names a sprite that the track does not hold.
    FrameOutOfBounds,
    /// A frame sequence with no frames.
    EmptySequence,
    /// A track list with no tracks.
    NoTracks,
    /// A track that breaks its rules: a frame sequence that is empty or out of
    /// bounds, or a flip whose source is not a standard track of the list.
    BadTrack,
}

/// An ordered, index-addressable set of loaded images.
pub struct Sprites {
    pub sprites: Vec<Sprite>,
}

impl Sprites {
    pub open spec fn view(&self) -> Seq<Sprite> {
        self.sprites@
    }

    pub fn new(sprites: Vec<Sprite>) -> (r: Sprites)
        ensures
            r@ == sprites@,
    {
        Sprites { sprites }
    }

    pub fn len(&self) -> (r: usize)
        ensures
            r == self@.len(),
    {
        self.sprites.len()
    }

    /// The sprite at `idx`, or `OutOfRange` past the end.
    pub fn getSprite(&self, idx: usize) -> (r: Result<&Sprite, AnimError>)
        ensures
            idx < self@.len() ==> r == Ok::<&Sprite, AnimError>(&self@[idx as int]),
            idx >= self@.len() ==> r == Err::<&Sprite, AnimError>(AnimError::OutOfRange),
    {
        if idx < self.sprites.len() {
            Ok(&self.sprites[idx])
        } else {
            Err(AnimError::OutOfRange)
        }
    }
}

/// A track that draws another, standard, track of the same list, mirrored.
#[derive(Clone, Copy, Debug, PartialEq, Eq, Structural)]
pub struct FlipAnimation {
    pub source: usize,
}

impl FlipAnimation {
    pub fn new(source: usize) -> (r: FlipAnimation)
        ensures
            r.source == source,
    {
        FlipAnimation { source }
    }

    pub fn getIndex(&self) -> (r: usize)
        ensures
            r == self.source,
    {
        self.source
    }
}

/// A track with its own sprites, drawn in the order of a frame sequence.
pub struct StandardAnimation {
    pub sprites: Sprites,
    pub frames: Vec<usize>,
}

/// Every entry of `frames` names one of `n` sprites.
pub open spec fn frames_in_bounds(frames: Seq<usize>, n: nat) -> bool {
    forall|i: int| 0 <= i < frames.len() ==> frames[i] < n
}

impl StandardAnimation {
    /// The frame sequence is non-empty and names only sprites that the track holds.
    pub open spec fn wf(&self) -> bool {
        self.frames@.len() > 0 && frames_in_bounds(self.frames@, self.sprites@.len())
    }

    /// The sprite shown when the shared counter reads `counter`.
    pub open spec fn frame(&self, counter: int) -> Sprite {
        self.sprites@[self.frames@[counter % (self.frames@.len() as int)] as int]
    }

    /// A track over `sprites` that shows them in the order `positions` gives.
    pub fn fromFiles(sprites: Sprites, positions: &[usize]) -> (r: Result<StandardAnimation, AnimError>)
        ensures
            r is Ok <==> positions@.len() > 0 && frames_in_bounds(positions@, sprites@.len()),
            r is Ok ==> r->Ok_0.sprites@ == sprites@ && r->Ok_0.frames@ == positions@
                && r->Ok_0.wf(),
            r == Err::<StandardAnimation, AnimError>(AnimError::FrameOutOfBounds) <==> !frames_in_bounds(
                positions@,
                sprites@.len(),
            ),
            r == Err::<StandardAnimation, AnimError>(AnimError::EmptySequence) <==> positions@.len()
                == 0,
    {
        let length = sprites.len();
        let mut frames: Vec<usize> = Vec::new();
        let mut i: usize = 0;
        while i < positions.len()
            invariant
                length == sprites@.len(),
                i <= positions@.len(),
                frames@ == positions@.subrange(0, i as int),
                frames_in_bounds(frames@, length as nat),
            decreases positions@.len() - i,
        {
            let position = positions[i];
            if position < length {
                frames.push(position);
            } else {
                return Err(AnimError::FrameOutOfBounds);
            }
            i = i + 1;
            assert(frames@ =~= positions@.subrange(0, i as int));
        }
        assert(frames@ =~= positions@);
        if frames.len() == 0 {
            return Err(AnimError::EmptySequence);
        }
        Ok(StandardAnimation { sprites, frames })
    }

    /// Whether the track keeps its rules (see `wf`).
    pub fn is_valid(&self) -> (r: bool)
        ensures
            r == self.wf(),
    {
        let n = self.sprites.len();
        if self.frames.len() == 0 {
            return false;
        }
        let mut i: usize = 0;
        while i < self.frames.len()
            invariant
                n == self.sprites@.len(),
                i <= self.frames@.len(),
                frames_in_bounds(self.frames@.subrange(0, i as int), n as nat),
            decreases self.frames@.len() - i,
        {
            if self.frames[i] >= n {
                return false;
            }
            assert(self.frames@.subrange(0, i + 1) =~= self.frames@.subrange(0, i as int).push(self.frames@[i as int]));
            i = i + 1;
        }
        assert(self.frames@.subrange(0, i as int) =~= self.frames@);
        true
    }

    /// The sprite shown when the shared counter reads `counter`.
    pub fn getFrame(&self, counter: usize) -> (r: &Sprite)
        requires
            self.wf(),
        ensures
            *r == self.frame(counter as int),
    {
        let idx = self.frames[counter % self.frames.len()];
        &self.sprites.sprites[idx]
    }
}

impl std::ops::Deref for StandardAnimation {
    type Target = Sprites;

    fn deref(&self) -> (r: &Sprites)
        ensures
            r@ == self.sprites@,
    {
        &self.sprites
    }
}

pub enum Animation {
    Flip(FlipAnimation),
    Standard(StandardAnimation),
}

/// Track `i` of `tracks` keeps its rules: a standard track is well formed, and a flip
/// names a standard track of the list.
pub open spec fn track_ok(tracks: Seq<Animation>, i: int) -> bool {
    match tracks[i] {
        Animation::Standard(a) => a.wf(),
        Animation::Flip(f) => f.source < tracks.len() && tracks[f.source as int] is Standard,
    }
}

/// Every track of the list keeps its rules.
pub open spec fn tracks_ok(tracks: Seq<Animation>) -> bool {
    forall|i: int| 0 <= i < tracks.len() ==> track_ok(tracks, i)
}

/// The sprite that track `i` shows at counter `counter`, and whether it is mirrored.
pub open spec fn track_frame(tracks: Seq<Animation>, i: int, counter: int) -> (Sprite, bool) {
    match tracks[i] {
        Animation::Standard(a) => (a.frame(counter), false),
        Animation::Flip(f) => match tracks[f.source as int] {
            Animation::Standard(a) => (a.frame(counter), true),
            Animation::Flip(_) => arbitrary(),
        },
    }
}

/// The counter after one tick: it wraps at the largest `usize`.
pub open spec fn next_counter(c: usize) -> usize {
    ((c + 1) % (usize::MAX as int)) as usize
}

/// A list of tracks, the one that is active, and a frame counter shared by all of them.
pub struct Animations {
    pub animations: Vec<Animation>,
    pub activeAnimation: usize,
    pub frameCounter: usize,
}

impl Animations {
    pub open spec fn wf(&self) -> bool {
        &&& self.activeAnimation < self.animations@.len()
        &&& tracks_ok(self.animations@)
        &&& self.frameCounter < usize::MAX
    }

    /// The sprite on show and whether it is mirrored.
    pub open spec fn current(&self) -> (Sprite, bool) {
        track_frame(self.animations@, self.activeAnimation as int, self.frameCounter as int)
    }

    /// A track list with track 0 active and the counter at 0; refused when it is
    /// empty or a track breaks its rules.
    pub fn new(animations: Vec<Animation>) -> (r: Result<Animations, AnimError>)
        ensures
            r is Ok <==> animations@.len() > 0 && tracks_ok(animations@),
            r is Ok ==> r->Ok_0.animations@ == animations@ && r->Ok_0.activeAnimation == 0
                && r->Ok_0.frameCounter == 0 && r->Ok_0.wf(),
            r == Err::<Animations, AnimError>(AnimError::NoTracks) <==> animations@.len() == 0,
            r == Err::<Animations, AnimError>(AnimError::BadTrack) <==> animations@.len() > 0
                && !tracks_ok(animations@),
    {
        if animations.len() == 0 {
            return Err(AnimError::NoTracks);
        }
        let n = animations.len();
        let mut i: usize = 0;
        while i < n
            invariant
                n == animations@.len(),
                i <= n,
                forall|k: int| 0 <= k < i ==> track_ok(animations@, k),
            decreases n - i,
        {
            let ok = match &animations[i] {
                Animation::Standard(a) => a.is_valid(),
                Animation::Flip(f) => f.source < n && match &animations[f.source] {
                    Animation::Standard(_) => true,
                    Animation::Flip(_) => false,
                },
            };
            if !ok {
                assert(!track_ok(animations@, i as int));
                return Err(AnimError::BadTrack);
            }
            i = i + 1;
        }
        Ok(Animations { animations, activeAnimation: 0, frameCounter: 0 })
    }

    /// Advances the shared frame counter by one tick.
    pub fn update(&mut self)
        requires
            old(self).wf(),
        ensures
            final(self).wf(),
            *final(self) == (Animations {
                frameCounter: next_counter(old(self).frameCounter),
                ..*old(self)
            }),
    {
        let c = self.frameCounter;
        let n: usize = if c == usize::MAX - 1 {
            0
        } else {
            c + 1
        };
        assert(n == ((c + 1) % (usize::MAX as int)) as usize) by (nonlinear_arith)
            requires
                c < usize::MAX,
                n == if c == usize::MAX - 1 {
                    0
                } else {
                    c + 1
                },
        {}
        self.frameCounter = n;
    }

    /// The active track.
    pub fn getAnimation(&self) -> (r: &Animation)
        requires
            self.wf(),
        ensures
            *r == self.animations@[self.activeAnimation as int],
    {
        &self.animations[self.activeAnimation]
    }

    /// The sprite on show and whether it is mirrored.
    pub fn currentFrame(&self) -> (r: (&Sprite, bool))
        requires
            self.wf(),
        ensures
            (*r.0, r.1) == self.current(),
    {
        let (src, mirrored) = match &self.animations[self.activeAnimation] {
            Animation::Standard(_) => (self.activeAnimation, false),
            Animation::Flip(f) => (f.source, true),
        };
        assert(track_ok(self.animations@, self.activeAnimation as int));
        assert(track_ok(self.animations@, src as int));
        match &self.animations[src] {
            Animation::Standard(a) => (a.getFrame(self.frameCounter), mirrored),
            Animation::Flip(_) => vstd::pervasive::unreached(),
        }
    }

    /// What drawing the current frame into `position` sends to the renderer.
    pub fn drawNextFrame(&self, position: Rect) -> (r: Vec<Blit>)
        requires
            self.wf(),
            drawable(position),
        ensures
            r@ == self.current().0.blits(position, self.current().1, false),
    {
        let (sprite, mirrored) = self.currentFrame();
        sprite.draw(position, mirrored, false)
    }

    /// Makes track `idx` the active one; `OutOfRange`, with nothing changed, past the end.
    pub fn changeAnimation(&mut self, idx: usize) -> (r: Result<(), AnimError>)
        ensures
            idx < old(self).animations@.len() ==> r is Ok && *final(self) == (Animations {
                activeAnimation: idx,
                ..*old(self)
            }),
            idx >= old(self).animations@.len() ==> r == Err::<(), AnimError>(AnimError::OutOfRange)
                && *final(self) == *old(self),
    {
        if idx >= self.animations.len() {
            return Err(AnimError::OutOfRange);
        }
        self.activeAnimation = idx;
        Ok(())
    }
}

impl Animations {
    /// The state after `n` ticks.
    pub open spec fn ticked(self, n: nat) -> Animations
        decreases n,
    {
        if n == 0 {
            self
        } else {
            let a = self.ticked((n - 1) as nat);
            Animations { frameCounter: next_counter(a.frameCounter), ..a }
        }
    }

    /// The state after track `i` is made active.
    pub open spec fn with_active(self, i: usize) -> Animations {
        Animations { activeAnimation: i, ..self }
    }
}

/// Ticks move only the shared counter, and keep the counter below its wrap.
pub proof fn lemma_ticks_keep_tracks(a: Animations, n: nat)
    requires
        a.wf(),
    ensures
        a.ticked(n).wf(),
        a.ticked(n).animations == a.animations,
        a.ticked(n).activeAnimation == a.activeAnimation,
    decreases n,
{
    if n > 0 {
        lemma_ticks_keep_tracks(a, (n - 1) as nat);
        let b = a.ticked((n - 1) as nat);
        assert(next_counter(b.frameCounter) < usize::MAX) by {
            assert((b.frameCounter + 1) % (usize::MAX as int) < usize::MAX) by (nonlinear_arith);
        }
    }
}

/// After any number of ticks, making a valid track `i` active shows track `i`'s frame
/// for the shared counter as it stands.
pub proof fn lemma_change_shows_track(a: Animations, n: nat, i: usize)
    requires
        a.wf(),
        i < a.animations@.len(),
    ensures
        a.ticked(n).with_active(i).wf(),
        a.ticked(n).with_active(i).current() == track_frame(
            a.animations@,
            i as int,
            a.ticked(n).frameCounter as int,
        ),
        a.animations@[i as int] is Standard ==> a.ticked(n).with_active(i).current() == (
            a.animations@[i as int]->Standard_0.frame(a.ticked(n).frameCounter as int),
            false,
        ),
{
    lemma_ticks_keep_tracks(a, n);
}

/// While a flip track is active, what is shown is its source track's frame for the same
/// shared counter, mirrored, before a tick and after it alike.
pub proof fn lemma_flip_mirrors_source(a: Animations)
    requires
        a.wf(),
        a.animations@[a.activeAnimation as int] is Flip,
    ensures
        ({
            let src = a.animations@[a.activeAnimation as int]->Flip_0.source as int;
            &&& a.current() == (track_frame(a.animations@, src, a.frameCounter as int).0, true)
            &&& !track_frame(a.animations@, src, a.frameCounter as int).1
            &&& a.ticked(1).current() == (
                track_frame(a.animations@, src, a.ticked(1).frameCounter as int).0,
                true,
            )
            &&& a.current() == (
                a.animations@[src]->Standard_0.frame(a.frameCounter as int),
                true,
            )
            &&& a.ticked(1).current() == (
                a.animations@[src]->Standard_0.frame(a.ticked(1).frameCounter as int),
                true,
            )
        }),
{
    assert(track_ok(a.animations@, a.activeAnimation as int));
    lemma_ticks_keep_tracks(a, 1);
    assert(a.ticked(1).animations == a.animations);
}

} // verus!
