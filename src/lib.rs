//! Host-adapter protocol stack: SLIP transport codec, CRC-checked frames,
//! per-interface command models, the opcode dispatcher and the PWM
//! frequency quantizer.
pub mod ha;
pub mod common;
pub mod gpio;
pub mod pwm;
pub mod uart;
pub mod i2c;
pub mod app;
pub mod slip;
pub mod quantizer;
