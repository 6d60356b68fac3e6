//! Verified core of a GY-86 attitude probe: the storage format of the
//! magnetometer calibration, the HMC5883L register protocol and the supply
//! sequencing of the sensor module, and the bring-up and sampling decisions of
//! the probe.

pub mod config;
pub mod hmc5883l;
pub mod sensors;
pub mod probe;
