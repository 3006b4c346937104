//! The routing and actuator core of a bridge from Open Sound Control messages
//! to a pi-blaster PWM driver.
//!
//! The crate does no input or output. A caller decodes packets, hands them to
//! an [`osc_handler::OSCHandler`], and carries out the effects it asks for on
//! the driver's control file.

pub mod conf;
pub mod document;
pub mod handling;
pub mod level;
pub mod osc_handler;
pub mod packet;
pub mod piblaster;
pub mod receiver;
pub mod routing;
pub mod verbosity;
