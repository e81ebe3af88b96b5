//! Decision logic of the interrupt-driven drivers: the CAN receive drain,
//! the I2C master's event machine, the 1 MHz time base built from a 16-bit
//! timer, and the bus timing values their initialisation programs.

pub mod can;
pub mod i2c;
pub mod time_driver;
