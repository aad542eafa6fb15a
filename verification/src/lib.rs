//! Core logic of a continuously-turning snake game: the geometric model of
//! the snake as an ordered chain of trailing points, the rubber-band follow
//! locomotion, point-in-polygon collision against obstacles, growth on
//! feeding, and the life / invincibility state machine.
//!
//! All geometry is carried out in fixed-point integers: world coordinates in
//! milliunits (1/1000 of a world unit) and headings in milliradians. The
//! rendering, input and windowing engine around this crate converts between
//! these integers and its own floating-point values at the boundary.

pub mod app_state;
pub mod collision;
pub mod consts;
pub mod direction;
pub mod food;
pub mod geometry;
pub mod growth;
pub mod level;
pub mod locomotion;
pub mod obstacle;
pub mod players_lifes;
pub mod point_list;
pub mod round;
pub mod snake;
