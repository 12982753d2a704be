# brewtech

Verified core of a firmware that bridges BrewTools density/temperature sensors
on a CAN bus to MQTT.

- `src/can_protocol.rs` — the 29-bit identifier layout (`CanId`), message
  constants, and the 5-byte payload encodings (big-endian `u32`, little-endian
  float bit patterns), with round-trip laws.
- `src/can_tasks.rs` — what a received frame means to the controller, the
  probe and calibration frames it sends, and the latest-reading state.
- `src/test_device.rs` — the bench device that simulates a sensor: probe
  recognition and measurement reports, with laws tying both ends together.
- `src/network.rs` — broker address parsing, temperature rate limit,
  calibration acknowledgement names, and access point selection.
- `app/` — the ESP32-C3 firmware (executor, TWAI, WiFi, MQTT, float
  conversion and formatting) around the library.

Floats travel through the library as their `f32::to_bits` pattern.
