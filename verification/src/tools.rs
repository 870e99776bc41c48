pub mod panning;
pub mod zoom;
