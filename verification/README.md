# laser_dac

Streams points to laser DACs: IDN servers, LaserCubes on the network and on USB, and
oscilloscopes behind an audio output. A receiver for IDN packets is part of it too.

The library in `src/` is written in [Verus](https://github.com/verus-lang/verus). It
holds what can be decided or computed without a device: wire formats, packet building
and parsing, buffer models, pacing, resampling, reconnecting, and the steps of a stream.
Every function states what it returns or changes, and Verus proves it. What spans
several functions stands beside them as a public proof function: packets that were built
are understood, a disarmed stream shows nothing bright, a stop takes effect at once, a
device is not filled past its cutoff.

Time is an argument, in nanoseconds of one clock. So are the answers of devices: a step
names an action, and the outcome of the action goes into the next step.

- `src/protocols/` has a module for each device, `src/receiver/` the other end of IDN.
- `src/stream/` runs streams, `src/session.rs` and `src/reconnect.rs` keep them running.
- `app/` has the sockets, USB transfers, audio callbacks and threads that perform the
  actions, and converts floating point coordinates.
- `tests/` runs the library on concrete values, with simulated clocks and devices.
