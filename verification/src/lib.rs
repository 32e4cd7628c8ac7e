use vstd::prelude::*;

pub mod audio;
pub mod autosave;
pub mod corrections;
pub mod document;
pub mod fields;
pub mod grid;
pub mod lanes;
pub mod launch;
pub mod library;
pub mod locations;
pub mod opening;
pub mod order;
pub mod paths;
pub mod playback;
pub mod relinking;
pub mod scanning;
pub mod status;
pub mod text;
pub mod units;

verus! {
}
