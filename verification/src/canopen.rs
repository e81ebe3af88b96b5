//! CANopen tier: manufacturer object dictionary, expedited SDO service, board
//! management, frames and the flash-download bookkeeping.

pub mod od;
pub mod sdo;
pub mod mgmt;
pub mod frame;
pub mod transport;
pub mod download;
