//! Movement, collision and possession core of a bitmap-maze exploration game.
//!
//! A maze is read from a bitmap ([`maze`]). The same grid yields the scene
//! of tiles and walls ([`mesh`]) and corrects every displacement of the
//! actor ([`collision`]); [`consistency`] proves that the two agree. The
//! characters of a game live in a registry ([`character`]), one of them
//! possessed at any time; [`possession`] hands control from one to another,
//! merges characters that touch and evaluates the exit. [`camera`] holds the
//! rig that the player steers, [`marker`] decides what the possessed
//! character paints, [`notification`] the one line of text on the screen,
//! and [`game`] plays all of it in a fixed order, one tick at a time.
//!
//! All lengths, angles and times are fixed-point integers (see [`units`]), so
//! that every rule of the game is stated over the mathematical integers.

pub mod camera;
pub mod character;
pub mod collision;
pub mod consistency;
pub mod game;
pub mod marker;
pub mod maze;
pub mod mesh;
pub mod notification;
pub mod possession;
pub mod units;
