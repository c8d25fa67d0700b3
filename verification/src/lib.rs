pub mod text;
pub mod command;
pub mod dialogue;
pub mod random;
pub mod sorting;
pub mod game;
pub mod area;
pub mod base;
pub mod asset;
pub mod action;
pub mod ai;
pub mod game_interface;
pub mod game_loop;
