//! Layout core of the LeopardWM window manager.
//!
//! - [`focus_reel`], [`reel_geometry`], [`reel_layout`], [`scroll`]: the Focus +
//!   Reel layout model, a main window beside a ring of thumbnails.
//! - [`workspace`]: a workspace that runs this model over its columns.
//! - [`app_state`]: monitors, their workspaces and what the window system said.
//! - [`presentation`], [`reel_pass`]: what is shown of the reel, and its input.
//! - [`physical_placement`], [`physical_state`], [`physical_requests`],
//!   [`physical_follow_up`]: keeping windows off the monitors they do not belong
//!   to.
//! - [`build_stamp`], [`epoch_text`]: when a build was made.
//!
//! The modules named after laws state what holds across operations, and what
//! each of them does in terms of pixels, places and plain values:
//!
//! - [`border_laws`], [`physical_laws`]: slices, parking and containment.
//! - [`batch_laws`], [`landing_laws`], [`request_laws`]: requests and landings.
//! - [`ownership_laws`]: which monitor and workspace a window belongs to.
//! - [`reel_laws`], [`reel_step_laws`]: operations on the reel.
//! - [`layout_laws`], [`reel_place_laws`]: where the reel stands.
//! - [`plan_laws`], [`presentation_laws`], [`input_laws`]: what is shown, and its
//!   input.
//! - [`calendar_laws`]: civil time, and numbers as text.
#![allow(unused_imports)]

pub mod app_state;
pub mod batch_laws;
pub mod border_laws;
pub mod build_stamp;
pub mod calendar_laws;
pub mod epoch_text;
pub mod focus_reel;
pub mod id_list;
pub mod input_laws;
pub mod landing_laws;
pub mod layout_laws;
pub mod ownership_laws;
pub mod physical_follow_up;
pub mod physical_laws;
pub mod physical_placement;
pub mod physical_requests;
pub mod physical_state;
pub mod plan_laws;
pub mod presentation;
pub mod presentation_laws;
pub mod reel_geometry;
pub mod reel_laws;
pub mod reel_layout;
pub mod reel_pass;
pub mod reel_place_laws;
pub mod reel_step_laws;
pub mod request_laws;
pub mod scroll;
pub mod sorting;
pub mod types;
pub mod workspace;
