# can_iso_tp

ISO-TP (ISO 15765-2) transport for CAN, written in Verus: the protocol logic is executable Rust whose
behaviour is stated in contracts and proved.

## Layout

- `src/` is the verified library. It decides; it never touches a CAN interface, a socket, a runtime
  or a queue itself.
  - `pdu`, `config`, `address`, `uds29`, `id`, `time`, `timer`: frames, addressing and timing.
  - `rx`, `tx`: reassembly and segmentation.
  - `node`, `async_node` (with `async_send` and `async_io`): one endpoint, polled or awaited.
  - `demux`, `async_demux` (with `ready_queue`): many peers behind one UDS address.
  - `transfer`: what a sender and a receiver achieve together.
  - `provenance`: which frames the payloads come from that a demux delivers.
  - `interface`, `interface_impl`, `helpers`, `queue`: transport traits and what stands around them.
  - `unix_frame`, `wire`, `bus`, `bus_client`: a simulated CAN bus on a Unix-domain socket.
  - `socketcan`, `kernel`, `flags`, `non_linux`, `stm32`: filters and options of CAN backends.
- `app/` is ordinary Rust around the library: drivers for CAN interfaces, async runtimes, sockets and
  queues.
- `tests/` runs the library.

## How a step works

A function of the library takes the state and what happened (a frame arrived, a frame went out, time
passed) and returns what to do next: transmit a frame, receive one, sleep, report. The caller does
that and hands the outcome back.
