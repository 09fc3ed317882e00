use halloween::geometry::Rect;
use halloween::sprites::{
    is_mirror_name, AnimError, Animation, Animations, Blit, FlipAnimation, Sprite, Sprites,
    StandardAnimation,
};

fn plain_sprites(first: usize, n: usize) -> Sprites {
    let mut v = Vec::new();
    for i in 0..n {
        v.push(Sprite::new(first + i, "frame.png"));
    }
    Sprites::new(v)
}

fn standard(first: usize, n: usize, frames: &[usize]) -> Animation {
    Animation::Standard(StandardAnimation::fromFiles(plain_sprites(first, n), frames).unwrap())
}

#[test]
fn ping_pong_counters_map_to_sprites() {
    let mut a = Animations::new(vec![standard(0, 3, &[0, 1, 2, 1])]).unwrap();
    let mut seen = Vec::new();
    for _ in 0..6 {
        seen.push(a.currentFrame().0.texture);
        a.update();
    }
    assert_eq!(seen, vec![0, 1, 2, 1, 0, 1]);
}

#[test]
fn change_animation_in_range_keeps_counter_phase() {
    let mut a = Animations::new(vec![standard(0, 3, &[0, 1, 2]), standard(10, 2, &[1, 0])]).unwrap();
    a.update();
    a.update();
    a.update();
    assert_eq!(a.changeAnimation(1), Ok(()));
    assert_eq!(a.activeAnimation, 1);
    assert_eq!(a.frameCounter, 3);
    // counter 3 on [1, 0] is frame 1, sprite 10 + 0
    assert_eq!(a.currentFrame(), (&Sprite { texture: 10, mirror: false }, false));
    a.update();
    assert_eq!(a.currentFrame().0.texture, 11);
}

#[test]
fn change_animation_out_of_range_fails_and_keeps_state() {
    let mut a = Animations::new(vec![standard(0, 3, &[0, 1, 2])]).unwrap();
    a.update();
    assert_eq!(a.changeAnimation(1), Err(AnimError::OutOfRange));
    assert_eq!(a.changeAnimation(99), Err(AnimError::OutOfRange));
    assert_eq!(a.activeAnimation, 0);
    assert_eq!(a.frameCounter, 1);
}

#[test]
fn flip_track_shows_source_frame_mirrored() {
    let mut a = Animations::new(vec![
        standard(0, 3, &[0, 1, 2, 1]),
        Animation::Flip(FlipAnimation::new(0)),
    ])
    .unwrap();
    a.changeAnimation(1).unwrap();
    for c in 0..6usize {
        let expected = [0usize, 1, 2, 1][c % 4];
        assert_eq!(a.currentFrame(), (&Sprite { texture: expected, mirror: false }, true));
        a.update();
    }
}

#[test]
fn flip_track_draws_reflected() {
    let mut a = Animations::new(vec![
        standard(4, 1, &[0]),
        Animation::Flip(FlipAnimation::new(0)),
    ])
    .unwrap();
    let quad = Rect::new(10, 20, 50, 50);
    assert_eq!(
        a.drawNextFrame(quad),
        vec![Blit { texture: 4, dest: quad, flip_h: false, flip_v: false }]
    );
    a.changeAnimation(1).unwrap();
    assert_eq!(
        a.drawNextFrame(quad),
        vec![Blit { texture: 4, dest: quad, flip_h: true, flip_v: false }]
    );
}

#[test]
fn flip_accessors() {
    let f = FlipAnimation::new(4);
    assert_eq!(f.getIndex(), 4);
}

#[test]
fn flip_of_flip_is_refused() {
    let r = Animations::new(vec![
        Animation::Flip(FlipAnimation::new(1)),
        Animation::Flip(FlipAnimation::new(0)),
    ]);
    assert!(matches!(r, Err(AnimError::BadTrack)));
}

#[test]
fn flip_past_the_end_is_refused() {
    let r = Animations::new(vec![standard(0, 1, &[0]), Animation::Flip(FlipAnimation::new(2))]);
    assert!(matches!(r, Err(AnimError::BadTrack)));
}

#[test]
fn empty_track_list_is_refused() {
    assert!(matches!(Animations::new(vec![]), Err(AnimError::NoTracks)));
}

#[test]
fn bad_standard_track_is_refused_by_the_list() {
    let bad = Animation::Standard(StandardAnimation { sprites: plain_sprites(0, 1), frames: vec![3] });
    assert!(matches!(Animations::new(vec![bad]), Err(AnimError::BadTrack)));
}

#[test]
fn frame_out_of_bounds_is_refused() {
    let r = StandardAnimation::fromFiles(plain_sprites(0, 3), &[0, 1, 3]);
    assert!(matches!(r, Err(AnimError::FrameOutOfBounds)));
}

#[test]
fn empty_frame_sequence_is_refused() {
    let r = StandardAnimation::fromFiles(plain_sprites(0, 3), &[]);
    assert!(matches!(r, Err(AnimError::EmptySequence)));
}

#[test]
fn get_frame_wraps_around_the_sequence() {
    let t = StandardAnimation::fromFiles(plain_sprites(20, 3), &[2, 0]).unwrap();
    assert_eq!(t.getFrame(0).texture, 22);
    assert_eq!(t.getFrame(1).texture, 20);
    assert_eq!(t.getFrame(7).texture, 20);
    assert!(t.is_valid());
    assert_eq!(t.len(), 3);
    assert_eq!(t.getSprite(2).unwrap().texture, 22);
}

#[test]
fn get_sprite_in_and_out_of_range() {
    let s = plain_sprites(5, 2);
    assert_eq!(s.getSprite(1), Ok(&Sprite { texture: 6, mirror: false }));
    assert_eq!(s.getSprite(2), Err(AnimError::OutOfRange));
    assert_eq!(s.len(), 2);
}

#[test]
fn counter_wraps_at_the_largest_value() {
    let mut a = Animations::new(vec![standard(0, 2, &[0, 1])]).unwrap();
    a.frameCounter = usize::MAX - 2;
    a.update();
    assert_eq!(a.frameCounter, usize::MAX - 1);
    a.update();
    assert_eq!(a.frameCounter, 0);
}

#[test]
fn get_animation_returns_the_active_track() {
    let mut a = Animations::new(vec![standard(0, 1, &[0]), Animation::Flip(FlipAnimation::new(0))])
        .unwrap();
    assert!(matches!(a.getAnimation(), Animation::Standard(_)));
    a.changeAnimation(1).unwrap();
    assert!(matches!(a.getAnimation(), Animation::Flip(f) if f.getIndex() == 0));
}

#[test]
fn mirror_names() {
    assert!(is_mirror_name("Resources/Images/Ninja_float_0__half.png"));
    assert!(is_mirror_name("__half"));
    assert!(!is_mirror_name("Resources/Images/Wall.png"));
    assert!(!is_mirror_name("_half.png"));
    assert!(!is_mirror_name("__hal"));
    assert!(!is_mirror_name(""));
    assert!(Sprite::new(3, "Skeleton_top__half.png").mirror);
    assert!(!Sprite::new(3, "Gate.png").mirror);
}

#[test]
fn mirror_source_is_drawn_in_two_halves() {
    let s = Sprite { texture: 7, mirror: true };
    let quad = Rect::new(10, 20, 50, 40);
    assert_eq!(
        s.draw(quad, false, true),
        vec![
            Blit { texture: 7, dest: Rect::new(10, 20, 25, 40), flip_h: true, flip_v: false },
            Blit { texture: 7, dest: Rect::new(35, 20, 25, 40), flip_h: false, flip_v: false },
        ]
    );
}

#[test]
fn plain_sprite_is_drawn_with_the_flips_asked() {
    let s = Sprite { texture: 2, mirror: false };
    let quad = Rect::new(-5, 0, 30, 30);
    assert_eq!(
        s.draw(quad, true, true),
        vec![Blit { texture: 2, dest: quad, flip_h: true, flip_v: true }]
    );
}
