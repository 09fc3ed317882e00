pub mod collision;
pub mod geometry;
pub mod map;
pub mod player;
pub mod skeleton;
pub mod sprites;
