# Joy-Con Bridge for BYO Haptics

A Windows application that turns haptic signals sent by BYO Haptics over OSC
(UDP) into Joy-Con rumble, with a small control window.

## Layout

- `src/` is the verified library (Verus):
  - `osc.rs`: OSC packet decoding and encoding, with the round trip of
    heartbeat acknowledgements proved.
  - `signal.rs`: routing of OSC addresses to per-side sensation values,
    heartbeat liveness and timeouts.
  - `transport.rs`: coalescing of one receive batch to the latest packet per
    address.
  - `status.rs`, `runtime.rs`: status-port registrations and heartbeat
    acknowledgements.
  - `schedule.rs`: the frame and refresh deadlines of the service loop.
  - `config.rs`: command-line options and how they override the file,
    binding addresses and validation.
  - `joycon.rs`: controller identification, report framing, packet numbering,
    accelerometer decoding and the device listing.
  - `utility.rs`: the options of the rumble test and the IMU sweep.
  - `statuslog.rs`: the status lines the service writes to its log and the
    window reads back, with the read-back proved.
  - `gui.rs`: the control window's states, output translation and its event
    handling.
  - `text.rs`: character-sequence helpers shared by the modules above.
- `app/` is the program around it: sockets, HID access, files, processes, the
  floating-point sensation engine and rumble encoding, and the iced window.
- `tests/` exercises the library.
