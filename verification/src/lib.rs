//! Servo drive library for the MKS SERVO42D / SERVO57D closed-loop stepper
//! drivers: the image descriptor and boot decisions, the CANopen manufacturer
//! object dictionary and expedited SDO service, the monochrome display
//! framebuffer, the motor-angle and bridge-duty arithmetic, and the decision
//! logic of the interrupt-driven I2C, CAN and timer drivers.

pub mod app_meta;
pub mod ball;
pub mod boot;
pub mod canopen;
pub mod display;
pub mod motion;
pub mod rt;
