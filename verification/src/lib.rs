//! A small terminal game engine: integer geometry, colours, textures that
//! render into a queue of terminal commands, game objects and their world.

pub mod components;
pub mod game;
pub mod gameobject;
pub mod line;
pub mod math;
pub mod physics;
pub mod print;
pub mod text;
