# embassy

Serial ports, sockets and actors for cooperative executors, verified with Verus.

Every driver is a state machine over plain values. It is handed what was read from a register, a
socket or a channel, and answers with what is to be written, registered or woken next. The
contracts say what each step returns and how it changes the state; the proof functions state what
holds over many steps, such as that bytes leave in the order in which they came.

- `src/usart`: blocking, DMA and interrupt-driven serial ports, over `src/ring_buffer.rs`
- `src/net`: TCP and UDP sockets on a shared stack; `smol.rs` holds the calls into smoltcp, with
  the contracts that are taken on trust
- `src/actor`: actors and the bounded channel that reaches them, over a heapless queue
- `src/tick.rs`: an actor that handles numbered events
- `src/macros`: the text that the macros expand to
- `src/waker.rs`, `src/stream.rs`, `src/text.rs`: what the others share
- `tests`: the library run on concrete values, with a loopback network
- `app`: two programs, and the adapters to registers, time, futures and the embedded I/O traits
