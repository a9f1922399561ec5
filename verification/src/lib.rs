//! A 2D articulated-rig library: skeletons of rigid and two-link ("jointed")
//! bones connected by rotational joints, a pose solver that propagates
//! position and orientation from a root bone through the joint graph, and a
//! keyframe animation engine that drives bone and joint properties over time.
//!
//! All geometry is carried out in Q47.16 fixed-point arithmetic so that every
//! computation has an exact mathematical description.

pub mod fixed;
pub mod trig;
pub mod geometry;
pub mod skeleton;
pub mod solver;
pub mod animation;
pub mod laws;
pub mod parts;
