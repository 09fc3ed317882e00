use halloween::collision::Collision;
use halloween::geometry::Rect;
use halloween::map::{CollisionType, LevelError, Tile, TileMap, TileRenderer};
use halloween::sprites::{Blit, Sprite, Sprites};

fn tile_sprites() -> Sprites {
    Sprites::new(vec![Sprite::new(10, "Ground.png"), Sprite::new(11, "Wall.png")])
}

fn level(rows: &[&[usize]]) -> Vec<Vec<usize>> {
    rows.iter().map(|r| r.to_vec()).collect()
}

fn walled_center() -> TileMap {
    TileMap::new(level(&[&[1, 1, 1], &[1, 0, 1], &[1, 1, 1]]), tile_sprites()).unwrap()
}

#[test]
fn center_tile_scenario() {
    let m = walled_center();
    let inside = Rect::new(52, 52, 46, 46);
    assert!(!m.doesCollide(inside));
    assert!(m.doesCollide(Rect::new(52 + 46, 52, 46, 46)));
    assert!(m.doesCollide(Rect::new(52 - 46, 52, 46, 46)));
    assert!(m.doesCollide(Rect::new(52, 52 + 46, 46, 46)));
    assert!(m.doesCollide(Rect::new(52, 52 - 46, 46, 46)));
}

#[test]
fn box_filling_an_open_tile_exactly_is_free() {
    let m = walled_center();
    assert!(!m.doesCollide(Rect::new(50, 50, 50, 50)));
    assert!(m.doesCollide(Rect::new(50, 50, 51, 50)));
    assert!(m.doesCollide(Rect::new(49, 50, 50, 50)));
}

#[test]
fn playfield_bounds() {
    let m = TileMap::new(level(&[&[0, 0], &[0, 0]]), tile_sprites()).unwrap();
    assert!(m.contains(Rect::new(0, 0, 100, 100)));
    assert!(!m.doesCollide(Rect::new(0, 0, 100, 100)));
    assert!(!m.contains(Rect::new(-1, 0, 10, 10)));
    assert!(!m.contains(Rect::new(0, -1, 10, 10)));
    assert!(!m.contains(Rect::new(60, 0, 41, 10)));
    assert!(!m.contains(Rect::new(0, 60, 10, 41)));
}

#[test]
fn level_is_read_row_by_row() {
    let m = TileMap::new(level(&[&[0, 1, 0], &[0, 0, 0]]), tile_sprites()).unwrap();
    assert_eq!(m.rows, 2);
    assert_eq!(m.cols, 3);
    assert_eq!(m.tiles[0][1], Tile::new(1));
    assert_eq!(m.collisionMap[0][1], CollisionType::Block);
    assert_eq!(m.collisionMap[1][1], CollisionType::Open);
    assert!(m.doesCollide(Rect::new(60, 10, 10, 10)));
    assert!(!m.doesCollide(Rect::new(60, 60, 10, 10)));
}

#[test]
fn level_with_other_values_is_refused() {
    let r = TileMap::new(level(&[&[0, 2], &[0, 0]]), tile_sprites());
    assert!(matches!(r, Err(LevelError::BadTile)));
}

#[test]
fn ragged_level_is_refused() {
    let r = TileMap::new(level(&[&[0, 0], &[0]]), tile_sprites());
    assert!(matches!(r, Err(LevelError::Ragged)));
}

#[test]
fn level_without_tile_sprites_is_refused() {
    let r = TileMap::new(level(&[&[0]]), Sprites::new(vec![Sprite::new(0, "Ground.png")]));
    assert!(matches!(r, Err(LevelError::MissingSprite)));
}

#[test]
fn map_renders_row_by_row() {
    let m = TileMap::new(level(&[&[0, 1], &[1, 0]]), tile_sprites()).unwrap();
    let b = |t: usize, x: i32, y: i32| Blit { texture: t, dest: Rect::new(x, y, 50, 50), flip_h: false, flip_v: false };
    assert_eq!(m.render(), vec![b(10, 0, 0), b(11, 50, 0), b(11, 0, 50), b(10, 50, 50)]);
}

#[test]
fn tile_renderer_draws_the_tile_sprite() {
    let r = TileRenderer::new(tile_sprites());
    let q = Rect::new(100, 50, 50, 50);
    assert_eq!(
        r.render(&Tile::new(1), q),
        vec![Blit { texture: 11, dest: q, flip_h: false, flip_v: false }]
    );
}

#[test]
fn default_collision_type_is_open() {
    assert_eq!(CollisionType::default(), CollisionType::Open);
}

#[test]
fn intersection_needs_positive_overlap() {
    let a = Rect::new(0, 0, 10, 10);
    assert!(a.has_intersection(Rect::new(5, 5, 10, 10)));
    assert!(!a.has_intersection(Rect::new(10, 0, 10, 10)));
    assert!(!a.has_intersection(Rect::new(0, 10, 10, 10)));
    assert!(!a.has_intersection(Rect::new(5, 5, 0, 10)));
    assert!(Rect::new(-20, -20, 25, 25).has_intersection(a));
}
