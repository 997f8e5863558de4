//! A planar robot arm: three rotating links and a two-finger gripper that
//! handle polygonal objects, driven one discrete step at a time.
//!
//! # Numbers
//!
//! All geometry is fixed-point. A coordinate is an `i32` that counts
//! millionths of a display unit (`geometry::UNIT`); arithmetic on coordinates
//! saturates at the ends of that range. A turn is given by its cosine and
//! sine in billionths (`rotation::SCALE`), and a turned point is rounded to
//! the nearest coordinate step. A turn followed by its inverse therefore
//! brings a point back only up to a tolerance, which
//! `rotation::lemma_inverse_restores` states.
//!
//! # Parts and joints
//!
//! A `part::Part` is a link, a finger or a free object: an outline and, for
//! links and fingers, a tip that turns in lock-step with the outline. The
//! `arm::Arm` holds its five parts in a fixed order, from the base outwards.
//! A joint moves what hangs on it by turning every part downstream of it about
//! the joint (`kinematics::rotate_from`).
//!
//! Each joint has a range of discrete steps (`joint::JointLimits`). A step in
//! the negative direction takes one unit from `remaining_negative` and gives
//! it to `remaining_positive`; a step that the limits do not allow is a
//! silent no-op. The two sides always add up to the same total.
//! A positive step turns a joint counter-clockwise by its fixed increment,
//! three degrees for the arm joints and five for the gripper; a negative step
//! turns it back by as much.
//!
//! # The scene
//!
//! `world::World` ties the pieces together: commands step the joints, the
//! grasp test (`grasp::detect_collision`) decides what the gripper holds,
//! free objects fall (`gravity::apply_gravity`), and the sequencer
//! (`sequencer::execute`) drives the arm home or to a recorded state, one
//! step per tick.
//!
//! Nothing here draws, sleeps or reads input. A caller hands in commands,
//! calls `World::tick` once per frame, and draws the outlines it finds in the
//! scene afterwards.
//!
//! # Trust
//!
//! Everything is proved but for the two items in `chance`, which stand for
//! the `rand` crate: `World::spawn_random` draws the place of a new object
//! from a generator that the caller brings.

pub mod geometry;
pub mod rotation;
pub mod part;
pub mod kinematics;
pub mod joint;
pub mod grasp;
pub mod gravity;
pub mod sequencer;
pub mod arm;
pub mod chance;
pub mod world;
