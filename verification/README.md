# esp_ahrs_probe

Attitude probe for a GY-86 module (MPU6050 + HMC5883L) on an ESP32-C6.

- `src/` is the verified library: the storage format of the magnetometer
  calibration (`config`), the HMC5883L register protocol (`hmc5883l`) and the
  supply sequencing of the module (`sensors`), and the bring-up and sampling
  decisions of the firmware (`probe`), with their laws.
- `app/` is the firmware around it: the bus and pin I/O, the floating-point
  calibration and the unscented Kalman filter.
