# rp_can2040

Driver logic for the can2040 software CAN controller that runs on the PIO
blocks of the RP2040 and RP2350, with its contracts proved.

- `src/frame.rs`: `CanFrame` in can2040's raw layout (id word with EFF/RTR
  flags, DLC, eight data bytes), `FrameId`, and the identifier checks of
  `embedded-can`; laws on the frame constructors and accessors.
- `src/text.rs`: the debug text of a frame.
- `src/stats.rs`: `CanStatistics` and its wrapping difference, with laws.
- `src/rx_queue.rs`: the FIFO receive queue, a ring of `N` slots.
- `src/driver.rs`: the driver state of one bus and its decisions on what
  can2040 reports (notifications, transmit status, received frames).
- `app/`: the can2040 C interface, the bus handle that calls it, and the
  `embedded-can` / `nb` trait implementations.
- `tests/`: tests of all of the above.
