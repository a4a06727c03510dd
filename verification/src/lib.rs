//! Core pieces of an asynchronous sample-rate converter.
//!
//! The streaming drivers synthesize output frames by convolving a bank of
//! oversampled, windowed sinc kernels with a rolling history of input
//! samples, then refining between neighbouring kernels by a cheap
//! polynomial. This crate verifies the discrete backbone of that engine:
//! the coordinates into the sinc bank, the shape checks on an input chunk,
//! and the data movement in the rolling history buffer.

mod buffer;
mod channels;
mod error;
mod params;
mod taps;

pub use crate::buffer::shift_to_front;
pub use crate::buffer::shifted_prefix;
pub use crate::buffer::write_slice_at;
pub use crate::channels::ShapeError;
pub use crate::channels::active_channels;
pub use crate::channels::active_of;
pub use crate::channels::allocate_outputs;
pub use crate::channels::lemma_active_of_membership;
pub use crate::channels::shape_ok;
pub use crate::channels::truncate_outputs;
pub use crate::channels::truncated;
pub use crate::error::ResamplerError;
pub use crate::params::InterpolationType;
pub use crate::params::rounded_sinc_len;
pub use crate::taps::Tap;
pub use crate::taps::lemma_tap_base_in_history;
pub use crate::taps::lemma_tap_grid_unique;
pub use crate::taps::lemma_tap_index_bounded;
pub use crate::taps::nearest_tap;
pub use crate::taps::nearest_taps_2;
pub use crate::taps::nearest_taps_4;
pub use crate::taps::next_tap;
pub use crate::taps::prev_tap;
pub use crate::taps::tap_of_grid;
