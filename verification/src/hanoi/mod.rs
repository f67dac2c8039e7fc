//! Tower of Hanoi: disks, towers, validated moves and the recursive solver.

pub mod interactive;
pub mod render;
pub mod selector;
pub mod solver;
pub mod tower;
pub mod tower_set;
