//! Verified decision core of a CPU ray tracer and ray marcher.
//!
//! Numbers that the renderer computes with are IEEE 754 binary32 values.
//! This crate never does arithmetic on them: it stores them by bit pattern
//! ([`scalar::Scalar`]) and decides every comparison on that pattern. The
//! scene model, the intersection and shading rules, the bounce and march
//! control, and the scanline scheduler are stated and proved here; a caller
//! supplies the products, sums and roots that the rules are applied to.
//!
//! - [`scalar`], [`vec3`], [`material`], [`registry`], [`object`], [`env`]:
//!   the scene, its stored form, and the way between the two.
//! - [`flags`], [`trace`], [`march`], [`shade`]: what a ray meets, whether a
//!   path goes on, when a march ends, and what light reaches a point.
//! - [`schedule`], [`frame`]: which worker renders which rows, and where a
//!   pixel lies in the picture.
//! - [`web`], [`reply`], [`adapt`]: what a request over HTTP asks for and
//!   what it is answered.

pub mod scalar;
pub mod vec3;
pub mod material;
pub mod error;
pub mod registry;
pub mod object;
pub mod env;
pub mod flags;
pub mod trace;
pub mod march;
pub mod shade;
pub mod schedule;
pub mod frame;
pub mod web;
pub mod reply;
pub mod adapt;
