//! Verified host-side logic of the SFNN CUDA training backend: unit
//! saturation statistics, the L1 centering accumulation window, and the
//! configuration checks and schedules of the experimental optimizer modes.

pub mod decimal;
pub mod env_value;
pub mod error;
pub mod experimental_l1_center;
pub mod experimental_l1_project;
pub mod experimental_output_center;
pub mod experimental_recycle;
pub mod float_bits;
pub mod ft_saturation_guard;
pub mod l1_center;
pub mod lr_policy;
pub mod rate;
pub mod shape;
pub mod training_facts;
pub mod unit_saturation_stats;
