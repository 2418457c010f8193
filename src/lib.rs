//! Core logic of a small recursive ray tracer: identities, output paths, the pixel
//! buffer and its PPM encoding, the medium bookkeeping behind refraction, and the
//! reference resolution of declarative scene descriptions.
use std::sync::atomic::{AtomicUsize, Ordering};
use vstd::prelude::*;

pub use paths::pad_filepath;

pub mod canvas;
pub mod paths;
pub mod ppm;
pub mod ray;
pub mod yaml;

verus! {

/// Hands out the next identity from a process-wide counter: the counter is bumped
/// atomically and the value it held before is returned, so concurrent callers never
/// receive the same identity (until the counter wraps around).
pub fn get_uid(counter: &AtomicUsize) -> usize {
    counter.fetch_add(1, Ordering::SeqCst)
}

} // verus!
