# govee

The decisions of a bridge between Govee devices and Home Assistant, verified with
Verus: which bytes go over the air, which transport carries a command, what is
believed of a device, and when it is asked again.

- `src/ble` is the codec: frames, their fields, the packets of each model, scenes
  and segments.
- `src/service` holds the devices and what is known of them, the queues and the
  circuit breakers of the Bluetooth scheduler, the bridge to the radio, the
  router over the transports, the batches of segment colours, the poll intervals,
  and the messages of AWS IoT.
- `src/commands` holds what the commands decide.
- `src/base64.rs`, `src/clock.rs`, `src/random_id.rs`, `src/text.rs`,
  `src/service/iot/container.rs` and `src/service/iot/credentials.rs` hold the
  calls into outside crates and the standard library, each with what is claimed
  of it.
- `app` connects the library to sockets, files, brokers and timers. It asks the
  library what to do and does it.
- `tests` runs the library on concrete values.
