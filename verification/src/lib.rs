//! A two-dimensional particle sandbox on a fixed-point grid.
//!
//! Balls move over a surface, fall under a constant pull or towards a single
//! attractor, bounce off rectangular and circular obstacles and off each
//! other. Every coordinate, speed and radius is an `i32` counting
//! thousandths of a surface unit, so that each rule of the simulation is an
//! exact statement over the integers. Quotients are rounded towards zero,
//! but for those that move a body out of another or send it back from it,
//! which are rounded away from that other body; a value that would leave
//! the range of `i32` is held at its end. Where a direction is read off a
//! length, the length is taken in 65536ths of a step.
//!
//! The world is [`appdata::AppData`]; [`step`] moves it on, [`tools`] and
//! [`session`] let pointer and timer events act on it, and [`laws`] states
//! what holds of every step and every collision.

pub mod fixed;
pub mod geometry;
pub mod search;
pub mod scene;
pub mod ball;
pub mod ball_preview;
pub mod collision;
pub mod obstacle;
pub mod appdata;
pub mod step;
pub mod event;
pub mod tools;
pub mod session;
pub mod laws;

