# vumeter

The hardware-independent logic of a nixie-tube audio meter, verified with Verus.

An audio board reads S/PDIF audio, splits it into frequency bands and sends a
level per band, as six-byte packets over a serial chain, to tube boards that
each drive four bargraph tubes.

- `src/protocol.rs`: tube levels, packets and their frames, and the parser
  that assembles frames from a byte stream. Decoding undoes encoding, and a
  parser in any state reads the next whole frame.
- `src/shared.rs`: the ring buffer that queues outgoing bytes, the countdown
  `Transition`, and the `Consumer` trait.
- `src/tube_hw.rs`: a tube board: the high-voltage supply with its warm-up,
  the PWM manager with its silence and disconnect timeouts, and the routing of
  packets between the two serial ports.
- `src/audio_hw.rs`: the audio board as a state machine: counting the tubes
  with a probe packet, then following the mode switch, the input lock and the
  meter's readings. It returns the packets to send and the commands for the
  meter.
- `src/board/`: what the audio board's drivers decide without touching the
  hardware: handing each peripheral out once, decoding the mode switch,
  counting timer ticks, register fields.
- `src/control.rs`: the computing half of the desktop control tool.
- `app/`: the desktop control tool (`detect`, `pipe`) and the floating-point
  meter that the audio board's state machine commands.
