# shdlc_driver

A driver for Sensirion SHDLC devices whose protocol core is verified with Verus.

## Layout

- `src/` — the verified library.
  - `protocol/` — checksum, byte-stuffing, MOSI/MISO frame encoding and
    decoding, the command set (`ShdlcCommand` and its implementations),
    version types, the error type and the text helpers the error and
    version texts are built with.
  - `firmware/` — the Intel-Hex parser, firmware images and the firmware
    update as a state machine from the result of each action to the next
    action (compatibility check, bootloader bitrate and its restoration,
    data blocks, checksum).
  - `transport/` — the state of the in-memory mock transport, and the
    receiving side of the transceiver as a state machine (time limits,
    frame completion and decoding).
  - `connection/`, `device/` — the checks applied to a response and the
    device error messages registered by users.
- `app/` — ordinary Rust around the library: the asynchronous transport
  trait with serial, TCP and shared mock transports, the loops that perform
  the actions of the two state machines, asynchronous and blocking
  connections and devices, and the status and progress reports of the
  firmware update.
- `tests/` — tests of the library.
