//! Turn-based hex strategy game: the tile map, its coordinates, units and
//! resources, with their rules stated as contracts and proved by Verus.
#![allow(non_snake_case)]
#![allow(non_camel_case_types)]

pub mod world;
pub mod entities;
pub mod improvements;
pub mod units;
pub mod player;
pub mod ui;
pub mod rendering;
pub mod input;
