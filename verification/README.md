# servo4257

A verified library for the MKS SERVO42D / SERVO57D closed-loop stepper
drivers, written in Verus.

- `src/` — the library, its functions proved against their contracts:
  the APP-META image record and boot decisions, the CANopen manufacturer
  object dictionary and expedited SDO server, board management and the
  watchdog program, the CAN frame conversions and the flash-download
  bookkeeping, the SSD1306 framebuffer and driver, motor-angle and
  bridge-duty arithmetic, the CAN receive drain, the I2C master's event
  machine and the timer time base. The proofs rest on three trusted
  wrappers (the `crc` crate's CRC-32 and two `bxcan` constructors, each
  stated after the crate's source) and on the contract of `I2cWrite`, which
  every bus the display driver is given must honour.
- `tests/` — executable tests of the library.
- `app/` — the firmware glue around it: memory-mapped flash and no-init RAM,
  bxCAN mailboxes, resets, watchdog registers, and the floating-point
  field-oriented-control math.
