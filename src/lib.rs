//! Locomotion core for a hovering, physics-driven character: a raycast
//! spring-damper suspension, turn-resistant movement forces, edge-triggered
//! jumps, movement-following orientation and animation clip selection.
//!
//! All quantities are fixed-point integers: lengths, velocities and
//! directions are counted in thousandths of a unit (see `fixed::UNIT`),
//! tuning gains are whole numbers, and forces and impulses come out in
//! thousandths of a force unit.

pub mod fixed;
pub mod physics;
pub mod movement;
pub mod animation;
pub mod orientation;
pub mod player;

pub use fixed::{Vec3i, UNIT, MAX_MAGNITUDE};
pub use physics::{Hover, Probe, Spring, handle_hover};
pub use movement::{
    Movement, Deceleration, JumpTrigger, JUMP_IMPULSE, MILLIDEGREES_PER_DEGREE, turn_multiplier,
    handle_movement, handle_jump, apply_drag,
};
pub use animation::{
    EntityId, ClipHandle, AnimationLibrary, AnimationMarker, AnimationTransitionEvent,
    AnimationController, BoundController, PlayCommand, AnimationError, read_animation_events,
    transfer_animations, MarkedOwner, assign_animation_controllers,
};
pub use orientation::RotationDriver;
pub use player::{MoveKeys, player_input};
