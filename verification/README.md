# sim7000

Driver logic for the SIM7000 family of cellular modems, verified with Verus.

- `src/` is the verified library:
  - `commands/`: AT requests as bytes and the decoding of the modem's answers
    over a line-oriented serial port (`serial.rs`), with a scripted port in
    `mock.rs` for tests, which hands on each scripted read whole;
    `framed.rs` frames such a port's reads into lines with the reader of
    `read.rs`. Every port keeps a log of the calls made on it and
    what they gave; the contract of each command states its result over the
    lines and bytes the port gave after the request was written, and the
    timeout of each of those reads;
  - `read.rs`: framing of the modem's output into lines;
  - `numparse.rs`, `text.rs`: decimal numbers and byte-text helpers;
  - `modem/`: configuration, the command plans of initialisation and
    activation, the procedure that runs a plan with its retry policies, the
    registration search over radio access technologies, raw command chunks,
    the TCP slots shared between the driver and its connections, and the
    running of a plan's requests that have a command in `commands/`;
  - `tcp.rs`, `tcp_client.rs`: the decisions of TCP connects, reads and
    writes, and a client over the blocking command layer;
  - `slot.rs`, `util.rs`: claimable slots, the event ring channel and the
    state signal.
- `app/` holds the host-side glue: floating-point views of GNSS and signal
  reports, the serial traits a board implements, error kinds for the
  embedded I/O traits, the loop that runs a command plan, and powering the
  modem around initialisation and activation.
- `tests/` exercise the library on concrete values.
