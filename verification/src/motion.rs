//! Pure control arithmetic: encoder angles, bridge duties, coil currents.

pub mod encoder;
pub mod commutation;
pub mod drive;
